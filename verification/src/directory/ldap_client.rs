//! A directory client over a synthetic directory: a store of entries and
//! lists, and a cache in front of the entries.

use vstd::prelude::*;

use crate::config::LdapConfig;
use crate::directory::cache::{cleaned, found, matching, with_entry, CacheView, DirectoryCache};
use crate::directory::models::{
    entry_matches, entry_view, entry_views, list_view, list_views, DirectoryEntry,
    DirectoryEntryView, DistributionList, DistributionListView,
};

verus! {

/// What a client holds: its cache, its entries and its lists.
pub struct ClientView {
    pub cache: CacheView,
    pub entries: Seq<DirectoryEntryView>,
    pub lists: Seq<DistributionListView>,
}

/// The entries after `entry` took the place of one with the same id.
pub open spec fn with_stored(entries: Seq<DirectoryEntryView>, entry: DirectoryEntryView) -> Seq<
    DirectoryEntryView,
> {
    entries.filter(|e: DirectoryEntryView| e.id != entry.id).push(entry)
}

/// The lists after `list` took the place of one with the same id.
pub open spec fn with_list(lists: Seq<DistributionListView>, list: DistributionListView) -> Seq<
    DistributionListView,
> {
    lists.filter(|l: DistributionListView| l.id != list.id).push(list)
}

/// The last entry with this id.
pub open spec fn stored(entries: Seq<DirectoryEntryView>, id: Seq<char>) -> Option<
    DirectoryEntryView,
>
    decreases entries.len(),
{
    if entries.len() == 0 {
        None
    } else if entries.last().id == id {
        Some(entries.last())
    } else {
        stored(entries.drop_last(), id)
    }
}

/// The last list with this id.
pub open spec fn listed(lists: Seq<DistributionListView>, id: Seq<char>) -> Option<
    DistributionListView,
>
    decreases lists.len(),
{
    if lists.len() == 0 {
        None
    } else if lists.last().id == id {
        Some(lists.last())
    } else {
        listed(lists.drop_last(), id)
    }
}

/// The entries that match the query, in their order.
pub open spec fn stored_matching(entries: Seq<DirectoryEntryView>, query: Seq<char>) -> Seq<
    DirectoryEntryView,
> {
    entries.filter(|e: DirectoryEntryView| entry_matches(e, query))
}

/// What a search answers: what the cache holds for the query, or, where
/// that is nothing, what the store holds for it.
pub open spec fn search_answer(client: ClientView, query: Seq<char>) -> Seq<DirectoryEntryView> {
    if matching(client.cache.entries, query).len() > 0 {
        matching(client.cache.entries, query)
    } else {
        stored_matching(client.entries, query)
    }
}

/// What a lookup answers: what the cache holds for the id, or, where that
/// is nothing, what the store holds for it.
pub open spec fn lookup_answer(client: ClientView, id: Seq<char>) -> Option<DirectoryEntryView> {
    match found(client.cache.entries, id) {
        Some(entry) => Some(entry),
        None => stored(client.entries, id),
    }
}

/// A directory client with a store of its own.
#[derive(Debug)]
pub struct LdapDirectoryClient {
    config: LdapConfig,
    cache: DirectoryCache,
    entries: Vec<DirectoryEntry>,
    lists: Vec<DistributionList>,
}

impl View for LdapDirectoryClient {
    type V = ClientView;

    closed spec fn view(&self) -> ClientView {
        ClientView {
            cache: self.cache@,
            entries: entry_views(self.entries@),
            lists: list_views(self.lists@),
        }
    }
}

impl LdapDirectoryClient {
    /// The configuration that the client was made with.
    pub closed spec fn settings(&self) -> LdapConfig {
        self.config
    }

    /// A client with an empty store behind the given cache.
    pub fn new(config: LdapConfig, cache: DirectoryCache) -> (client: Self)
        ensures
            client.settings() == config,
            client@.cache == cache@,
            client@.entries == Seq::<DirectoryEntryView>::empty(),
            client@.lists == Seq::<DistributionListView>::empty(),
    {
        let client = LdapDirectoryClient { config, cache, entries: Vec::new(), lists: Vec::new() };
        assert(client@.entries =~= Seq::<DirectoryEntryView>::empty());
        assert(client@.lists =~= Seq::<DistributionListView>::empty());
        client
    }

    /// Stores `entry`, in place of one with the same id, and puts it into
    /// the cache. The store gives it back for its id from then on.
    pub fn upsert_entry(&mut self, entry: DirectoryEntry)
        ensures
            final(self).settings() == old(self).settings(),
            final(self)@.entries == with_stored(old(self)@.entries, entry@),
            stored(final(self)@.entries, entry@.id) == Some(entry@),
            final(self)@.lists == old(self)@.lists,
            exists|now: nat| final(self)@.cache == with_entry(old(self)@.cache, entry@, now),
    {
        let ghost keep = |e: DirectoryEntryView| e.id != entry@.id;
        let mut kept: Vec<DirectoryEntry> = Vec::new();
        let mut i: usize = 0;
        assert(self@.entries.take(0).filter(keep) =~= Seq::<DirectoryEntryView>::empty()) by {
            reveal(Seq::filter);
        }
        while i < self.entries.len()
            invariant
                i <= self.entries.len(),
                *self == *old(self),
                keep == (|e: DirectoryEntryView| e.id != entry@.id),
                entry_views(kept@) == self@.entries.take(i as int).filter(keep),
            decreases self.entries.len() - i,
        {
            let ghost before = self@.entries.take(i as int);
            let ghost shown = entry_views(kept@);
            let current = &self.entries[i];
            if current.id != entry.id {
                kept.push(current.duplicate());
                assert(entry_views(kept@) =~= shown.push(current@));
            }
            i = i + 1;
            proof {
                let seen = self@.entries.take(i as int);
                assert(seen.drop_last() =~= before);
                reveal(Seq::filter);
                assert(seen.filter(keep) =~= if keep(seen.last()) {
                    before.filter(keep).push(seen.last())
                } else {
                    before.filter(keep)
                });
            }
        }
        assert(self@.entries.take(self.entries.len() as int) =~= self@.entries);
        kept.push(entry.duplicate());
        assert(entry_views(kept@) =~= with_stored(old(self)@.entries, entry@));
        self.entries = kept;
        self.cache.insert(entry);
        proof {
            let now = choose|now: nat| self.cache@ == with_entry(old(self).cache@, entry@, now);
            assert(self@.cache == with_entry(old(self)@.cache, entry@, now));
        }
    }

    /// Stores `list`, in place of one with the same id. A lookup of its id
    /// gives it back from then on.
    pub fn upsert_list(&mut self, list: DistributionList)
        ensures
            final(self).settings() == old(self).settings(),
            final(self)@.lists == with_list(old(self)@.lists, list@),
            listed(final(self)@.lists, list@.id) == Some(list@),
            final(self)@.entries == old(self)@.entries,
            final(self)@.cache == old(self)@.cache,
    {
        let ghost keep = |l: DistributionListView| l.id != list@.id;
        let mut kept: Vec<DistributionList> = Vec::new();
        let mut i: usize = 0;
        assert(self@.lists.take(0).filter(keep) =~= Seq::<DistributionListView>::empty()) by {
            reveal(Seq::filter);
        }
        while i < self.lists.len()
            invariant
                i <= self.lists.len(),
                *self == *old(self),
                keep == (|l: DistributionListView| l.id != list@.id),
                list_views(kept@) == self@.lists.take(i as int).filter(keep),
            decreases self.lists.len() - i,
        {
            let ghost before = self@.lists.take(i as int);
            let ghost shown = list_views(kept@);
            let current = &self.lists[i];
            if current.id != list.id {
                kept.push(current.duplicate());
                assert(list_views(kept@) =~= shown.push(current@));
            }
            i = i + 1;
            proof {
                let seen = self@.lists.take(i as int);
                assert(seen.drop_last() =~= before);
                reveal(Seq::filter);
                assert(seen.filter(keep) =~= if keep(seen.last()) {
                    before.filter(keep).push(seen.last())
                } else {
                    before.filter(keep)
                });
            }
        }
        assert(self@.lists.take(self.lists.len() as int) =~= self@.lists);
        kept.push(list);
        assert(list_views(kept@) =~= with_list(old(self)@.lists, list@));
        self.lists = kept;
    }

    /// The entries that match the query: those of the cache, once it has
    /// forgotten what is too old, or those of the store where the cache has
    /// none.
    pub fn search(&mut self, query: &str) -> (entries: Vec<DirectoryEntry>)
        ensures
            final(self).settings() == old(self).settings(),
            final(self)@.entries == old(self)@.entries,
            final(self)@.lists == old(self)@.lists,
            exists|now: nat| final(self)@.cache == cleaned(old(self)@.cache, now),
            entry_views(entries@) == search_answer(final(self)@, query@),
    {
        let cached = self.cache.search(query);
        proof {
            let now = choose|now: nat| self.cache@ == cleaned(old(self).cache@, now);
            assert(self@.cache == cleaned(old(self)@.cache, now));
        }
        if cached.len() > 0 {
            return cached;
        }
        let ghost hit = |e: DirectoryEntryView| entry_matches(e, query@);
        let mut results: Vec<DirectoryEntry> = Vec::new();
        let mut i: usize = 0;
        assert(self@.entries.take(0).filter(hit) =~= Seq::<DirectoryEntryView>::empty()) by {
            reveal(Seq::filter);
        }
        while i < self.entries.len()
            invariant
                i <= self.entries.len(),
                hit == (|e: DirectoryEntryView| entry_matches(e, query@)),
                entry_views(results@) == self@.entries.take(i as int).filter(hit),
            decreases self.entries.len() - i,
        {
            let ghost before = self@.entries.take(i as int);
            let ghost shown = entry_views(results@);
            let current = &self.entries[i];
            if current.matches_query(query) {
                results.push(current.duplicate());
                assert(entry_views(results@) =~= shown.push(current@));
            }
            i = i + 1;
            proof {
                let seen = self@.entries.take(i as int);
                assert(seen.drop_last() =~= before);
                reveal(Seq::filter);
                assert(seen.filter(hit) =~= if hit(seen.last()) {
                    before.filter(hit).push(seen.last())
                } else {
                    before.filter(hit)
                });
            }
        }
        assert(self@.entries.take(self.entries.len() as int) =~= self@.entries);
        results
    }

    /// The entry with this id: that of the cache, once it has forgotten
    /// what is too old, or that of the store where the cache has none.
    pub fn get_entry(&mut self, id: &str) -> (entry: Option<DirectoryEntry>)
        ensures
            final(self).settings() == old(self).settings(),
            final(self)@.entries == old(self)@.entries,
            final(self)@.lists == old(self)@.lists,
            exists|now: nat| final(self)@.cache == cleaned(old(self)@.cache, now),
            entry_view(entry) == lookup_answer(final(self)@, id@),
    {
        let cached = self.cache.get(id);
        proof {
            let now = choose|now: nat| self.cache@ == cleaned(old(self).cache@, now);
            assert(self@.cache == cleaned(old(self)@.cache, now));
        }
        match cached {
            Some(entry) => {
                return Some(entry);
            },
            None => {},
        }
        let wanted = String::from_str(id);
        let mut i: usize = self.entries.len();
        assert(self@.entries.take(i as int) =~= self@.entries);
        while i > 0
            invariant
                i <= self.entries.len(),
                wanted@ == id@,
                self.settings() == old(self).settings(),
                self@.entries == old(self)@.entries,
                self@.lists == old(self)@.lists,
                exists|now: nat| self@.cache == cleaned(old(self)@.cache, now),
                found(self@.cache.entries, id@) is None,
                stored(self@.entries.take(i as int), id@) == stored(self@.entries, id@),
            decreases i,
        {
            assert(self@.entries.take(i as int).drop_last() =~= self@.entries.take(i - 1));
            i = i - 1;
            if self.entries[i].id == wanted {
                return Some(self.entries[i].duplicate());
            }
        }
        None
    }

    /// The list with this id.
    pub fn get_distribution_list(&self, id: &str) -> (list: Option<DistributionList>)
        ensures
            list_view(list) == listed(self@.lists, id@),
    {
        let wanted = String::from_str(id);
        let mut i: usize = self.lists.len();
        assert(self@.lists.take(i as int) =~= self@.lists);
        while i > 0
            invariant
                i <= self.lists.len(),
                wanted@ == id@,
                listed(self@.lists.take(i as int), id@) == listed(self@.lists, id@),
            decreases i,
        {
            assert(self@.lists.take(i as int).drop_last() =~= self@.lists.take(i - 1));
            i = i - 1;
            if self.lists[i].id == wanted {
                return Some(self.lists[i].duplicate());
            }
        }
        None
    }

    /// The configuration that the client was made with.
    pub fn config(&self) -> (config: &LdapConfig)
        ensures
            *config == self.settings(),
    {
        &self.config
    }
}

} // verus!
