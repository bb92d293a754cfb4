//! A cache of directory entries that forgets them after a time to live.
//!
//! Time is counted in nanoseconds on a clock that starts when the cache is
//! made. Every operation comes in two forms: one that takes the time as an
//! argument and has an exact contract, and one that reads the clock and
//! then does what the first does.

use std::time::Instant;
use vstd::prelude::*;

use crate::directory::models::{
    entry_matches, entry_view, entry_views, DirectoryEntry, DirectoryEntryView,
};

verus! {

/// `std::time::Instant`, a point on a monotonic clock. Nothing is known of
/// a value but what the functions below say.
#[verifier::external_type_specification]
#[verifier::external_body]
pub struct ExInstant(Instant);

/// `Instant::now`: the current point on the clock.
#[verifier::external_body]
pub(crate) fn start_clock() -> (clock: Instant) {
    Instant::now()
}

/// `Instant::elapsed`, as nanoseconds: the time since `clock` was taken.
/// Nothing is promised of the number.
#[verifier::external_body]
pub(crate) fn nanos_since(clock: &Instant) -> (nanos: u128) {
    clock.elapsed().as_nanos()
}

/// The number of nanoseconds in a second.
pub const NANOS_PER_SECOND: u128 = 1_000_000_000;

/// An entry and the time at which it was put into the cache.
pub type Cached = (DirectoryEntryView, nat);

/// What a cache holds: the entries with the times at which they came, the
/// ids in the order in which they came, the time to live and the capacity.
pub struct CacheView {
    pub entries: Seq<Cached>,
    pub order: Seq<Seq<char>>,
    pub ttl: nat,
    pub capacity: nat,
}

/// `entries` without those with this id.
pub open spec fn dropped(entries: Seq<Cached>, id: Seq<char>) -> Seq<Cached> {
    entries.filter(|e: Cached| e.0.id != id)
}

/// The cache after it has made room: where it is full, the id that came
/// first leaves the order, and the entry with that id leaves with it.
pub open spec fn evicted(cache: CacheView) -> CacheView {
    if cache.entries.len() >= cache.capacity && cache.order.len() > 0 {
        CacheView {
            entries: dropped(cache.entries, cache.order[0]),
            order: cache.order.skip(1),
            ..cache
        }
    } else {
        cache
    }
}

/// The cache after `entry` was put into it at the time `now`: room is
/// made, the entry takes the place of one with the same id, and its id
/// joins the order at the end.
pub open spec fn with_entry(cache: CacheView, entry: DirectoryEntryView, now: nat) -> CacheView {
    let room = evicted(cache);
    CacheView {
        entries: dropped(room.entries, entry.id).push((entry, now)),
        order: room.order.push(entry.id),
        ..room
    }
}

/// Whether an entry that came at `since` is still alive at `now`: no more
/// than the time to live has passed.
pub open spec fn is_alive(since: nat, now: nat, ttl: nat) -> bool {
    now <= since || now - since <= ttl
}

/// Whether an entry with this id has outlived the time to live.
pub open spec fn has_expired(entries: Seq<Cached>, id: Seq<char>, now: nat, ttl: nat) -> bool {
    exists|i: int|
        0 <= i < entries.len() && (#[trigger] entries[i]).0.id == id && !is_alive(
            entries[i].1,
            now,
            ttl,
        )
}

/// The cache after the entries that have outlived the time to live at
/// `now` were removed, and their ids with them.
pub open spec fn cleaned(cache: CacheView, now: nat) -> CacheView {
    CacheView {
        entries: cache.entries.filter(|e: Cached| is_alive(e.1, now, cache.ttl)),
        order: cache.order.filter(
            |id: Seq<char>| !has_expired(cache.entries, id, now, cache.ttl),
        ),
        ..cache
    }
}

/// The last entry with this id.
pub open spec fn found(entries: Seq<Cached>, id: Seq<char>) -> Option<DirectoryEntryView>
    decreases entries.len(),
{
    if entries.len() == 0 {
        None
    } else if entries.last().0.id == id {
        Some(entries.last().0)
    } else {
        found(entries.drop_last(), id)
    }
}

/// The entries that match the query, in their order.
pub open spec fn matching(entries: Seq<Cached>, query: Seq<char>) -> Seq<DirectoryEntryView> {
    entries.filter(|e: Cached| entry_matches(e.0, query)).map_values(|e: Cached| e.0)
}

/// The views of cached entries.
pub open spec fn cached_of(entries: Seq<(DirectoryEntry, u128)>) -> Seq<Cached> {
    entries.map_values(|e: (DirectoryEntry, u128)| (e.0@, e.1 as nat))
}

/// The time to live for a number of seconds: at least one second.
pub open spec fn ttl_nanos(ttl_seconds: u64) -> nat {
    if ttl_seconds == 0 {
        NANOS_PER_SECOND as nat
    } else {
        (ttl_seconds as nat) * (NANOS_PER_SECOND as nat)
    }
}

/// A cache of directory entries with a time to live.
#[derive(Debug)]
pub struct DirectoryCache {
    entries: Vec<(DirectoryEntry, u128)>,
    order: Vec<String>,
    ttl: u128,
    capacity: usize,
    clock: Instant,
}

impl View for DirectoryCache {
    type V = CacheView;

    closed spec fn view(&self) -> CacheView {
        CacheView {
            entries: cached_of(self.entries@),
            order: crate::text::texts_of(self.order@),
            ttl: self.ttl as nat,
            capacity: self.capacity as nat,
        }
    }
}

impl DirectoryCache {
    /// An empty cache. The time to live is at least a second and the
    /// capacity at least one entry.
    pub fn new(ttl_seconds: u64, capacity: usize) -> (cache: Self)
        ensures
            cache@.entries == Seq::<Cached>::empty(),
            cache@.order == Seq::<Seq<char>>::empty(),
            cache@.ttl == ttl_nanos(ttl_seconds),
            cache@.capacity == if capacity == 0 {
                1
            } else {
                capacity as nat
            },
    {
        let seconds: u128 = if ttl_seconds == 0 {
            1
        } else {
            ttl_seconds as u128
        };
        assert(seconds * 1_000_000_000 <= u128::MAX) by (nonlinear_arith)
            requires
                seconds <= u64::MAX,
        ;
        let cache = DirectoryCache {
            entries: Vec::new(),
            order: Vec::new(),
            ttl: seconds * NANOS_PER_SECOND,
            capacity: if capacity == 0 {
                1
            } else {
                capacity
            },
            clock: start_clock(),
        };
        assert(cache@.entries =~= Seq::<Cached>::empty());
        assert(cache@.order =~= Seq::<Seq<char>>::empty());
        cache
    }

    /// Removes the entries with this id.
    fn drop_id(&mut self, id: &String)
        ensures
            final(self)@ == (CacheView { entries: dropped(old(self)@.entries, id@), ..old(self)@ }),
    {
        let ghost keep = |e: Cached| e.0.id != id@;
        let mut kept: Vec<(DirectoryEntry, u128)> = Vec::new();
        let mut i: usize = 0;
        assert(cached_of(self.entries@).take(0).filter(keep) =~= Seq::<Cached>::empty()) by {
            reveal(Seq::filter);
        }
        while i < self.entries.len()
            invariant
                i <= self.entries.len(),
                *self == *old(self),
                keep == (|e: Cached| e.0.id != id@),
                cached_of(kept@) == cached_of(self.entries@).take(i as int).filter(keep),
            decreases self.entries.len() - i,
        {
            let ghost before = cached_of(self.entries@).take(i as int);
            let ghost shown = cached_of(kept@);
            let entry = &self.entries[i];
            if entry.0.id != *id {
                kept.push((entry.0.duplicate(), entry.1));
                assert(cached_of(kept@) =~= shown.push((entry.0@, entry.1 as nat)));
            }
            i = i + 1;
            proof {
                let now = cached_of(self.entries@).take(i as int);
                assert(now.drop_last() =~= before);
                reveal(Seq::filter);
                assert(now.filter(keep) =~= if keep(now.last()) {
                    before.filter(keep).push(now.last())
                } else {
                    before.filter(keep)
                });
            }
        }
        assert(cached_of(self.entries@).take(self.entries.len() as int) =~= cached_of(
            self.entries@,
        ));
        self.entries = kept;
    }

    /// Puts `entry` into the cache at the time `now`.
    pub fn insert_at(&mut self, entry: DirectoryEntry, now: u128)
        ensures
            final(self)@ == with_entry(old(self)@, entry@, now as nat),
    {
        if self.entries.len() >= self.capacity && self.order.len() > 0 {
            let oldest = self.order.remove(0);
            assert(self@.order =~= old(self)@.order.skip(1));
            self.drop_id(&oldest);
        }
        let ghost room = self@;
        self.drop_id(&entry.id);
        self.order.push(entry.id.clone());
        self.entries.push((entry, now));
        assert(self@.entries =~= dropped(room.entries, entry@.id).push((entry@, now as nat)));
        assert(self@.order =~= room.order.push(entry@.id));
    }

    /// Puts `entry` into the cache at the time that the clock shows.
    pub fn insert(&mut self, entry: DirectoryEntry)
        ensures
            exists|now: nat| final(self)@ == with_entry(old(self)@, entry@, now),
    {
        let now = nanos_since(&self.clock);
        self.insert_at(entry, now);
        assert(self@ == with_entry(old(self)@, entry@, now as nat));
    }

    /// Decides `has_expired`.
    fn holds_expired(&self, id: &String, now: u128) -> (expired: bool)
        ensures
            expired == has_expired(self@.entries, id@, now as nat, self@.ttl),
    {
        let mut i: usize = 0;
        while i < self.entries.len()
            invariant
                i <= self.entries.len(),
                forall|k: int|
                    0 <= k < i ==> !((#[trigger] self@.entries[k]).0.id == id@ && !is_alive(
                        self@.entries[k].1,
                        now as nat,
                        self@.ttl,
                    )),
            decreases self.entries.len() - i,
        {
            let entry = &self.entries[i];
            if entry.0.id == *id && !(now <= entry.1 || now - entry.1 <= self.ttl) {
                assert(self@.entries[i as int].0.id == id@);
                return true;
            }
            i = i + 1;
        }
        false
    }

    /// Removes what has outlived the time to live at the time `now`.
    pub fn cleanup_at(&mut self, now: u128)
        ensures
            final(self)@ == cleaned(old(self)@, now as nat),
    {
        let ghost alive = |e: Cached| is_alive(e.1, now as nat, old(self)@.ttl);
        let ghost stays = |id: Seq<char>|
            !has_expired(old(self)@.entries, id, now as nat, old(self)@.ttl);
        let mut order: Vec<String> = Vec::new();
        let mut k: usize = 0;
        assert(self@.order.take(0).filter(stays) =~= Seq::<Seq<char>>::empty()) by {
            reveal(Seq::filter);
        }
        while k < self.order.len()
            invariant
                k <= self.order.len(),
                *self == *old(self),
                stays == (|id: Seq<char>|
                    !has_expired(old(self)@.entries, id, now as nat, old(self)@.ttl)),
                crate::text::texts_of(order@) == self@.order.take(k as int).filter(stays),
            decreases self.order.len() - k,
        {
            let ghost before = self@.order.take(k as int);
            let ghost shown = crate::text::texts_of(order@);
            let id = &self.order[k];
            if !self.holds_expired(id, now) {
                order.push(id.clone());
                assert(crate::text::texts_of(order@) =~= shown.push(id@));
            }
            k = k + 1;
            proof {
                let seen = self@.order.take(k as int);
                assert(seen.drop_last() =~= before);
                assert(seen.last() == id@);
                reveal(Seq::filter);
                assert(seen.filter(stays) =~= if stays(id@) {
                    before.filter(stays).push(id@)
                } else {
                    before.filter(stays)
                });
            }
        }
        assert(self@.order.take(self.order.len() as int) =~= self@.order);
        let mut kept: Vec<(DirectoryEntry, u128)> = Vec::new();
        let mut i: usize = 0;
        assert(self@.entries.take(0).filter(alive) =~= Seq::<Cached>::empty()) by {
            reveal(Seq::filter);
        }
        while i < self.entries.len()
            invariant
                i <= self.entries.len(),
                *self == *old(self),
                alive == (|e: Cached| is_alive(e.1, now as nat, old(self)@.ttl)),
                cached_of(kept@) == self@.entries.take(i as int).filter(alive),
            decreases self.entries.len() - i,
        {
            let ghost before = self@.entries.take(i as int);
            let ghost shown = cached_of(kept@);
            let entry = &self.entries[i];
            if now <= entry.1 || now - entry.1 <= self.ttl {
                kept.push((entry.0.duplicate(), entry.1));
                assert(cached_of(kept@) =~= shown.push((entry.0@, entry.1 as nat)));
            }
            i = i + 1;
            proof {
                let seen = self@.entries.take(i as int);
                assert(seen.drop_last() =~= before);
                reveal(Seq::filter);
                assert(seen.filter(alive) =~= if alive(seen.last()) {
                    before.filter(alive).push(seen.last())
                } else {
                    before.filter(alive)
                });
            }
        }
        assert(self@.entries.take(self.entries.len() as int) =~= self@.entries);
        self.entries = kept;
        self.order = order;
    }

    /// Cleans up at the time `now` and looks the entry with this id up.
    pub fn get_at(&mut self, id: &str, now: u128) -> (entry: Option<DirectoryEntry>)
        ensures
            final(self)@ == cleaned(old(self)@, now as nat),
            entry_view(entry) == found(final(self)@.entries, id@),
    {
        self.cleanup_at(now);
        let wanted = String::from_str(id);
        let mut i: usize = self.entries.len();
        assert(self@.entries.take(i as int) =~= self@.entries);
        while i > 0
            invariant
                i <= self.entries.len(),
                wanted@ == id@,
                self@ == cleaned(old(self)@, now as nat),
                found(self@.entries.take(i as int), id@) == found(self@.entries, id@),
            decreases i,
        {
            assert(self@.entries.take(i as int).drop_last() =~= self@.entries.take(i - 1));
            i = i - 1;
            if self.entries[i].0.id == wanted {
                return Some(self.entries[i].0.duplicate());
            }
        }
        None
    }

    /// Cleans up at the time that the clock shows and looks the entry with
    /// this id up.
    pub fn get(&mut self, id: &str) -> (entry: Option<DirectoryEntry>)
        ensures
            exists|now: nat| final(self)@ == cleaned(old(self)@, now),
            entry_view(entry) == found(final(self)@.entries, id@),
    {
        let now = nanos_since(&self.clock);
        let entry = self.get_at(id, now);
        assert(self@ == cleaned(old(self)@, now as nat));
        entry
    }

    /// Cleans up at the time `now` and returns the entries that match the
    /// query, in the order in which they came.
    pub fn search_at(&mut self, query: &str, now: u128) -> (entries: Vec<DirectoryEntry>)
        ensures
            final(self)@ == cleaned(old(self)@, now as nat),
            entry_views(entries@) == matching(final(self)@.entries, query@),
    {
        self.cleanup_at(now);
        let ghost hit = |e: Cached| entry_matches(e.0, query@);
        let mut entries: Vec<DirectoryEntry> = Vec::new();
        let mut i: usize = 0;
        assert(self@.entries.take(0).filter(hit) =~= Seq::<Cached>::empty()) by {
            reveal(Seq::filter);
        }
        assert(entry_views(entries@) =~= Seq::<Cached>::empty().map_values(|e: Cached| e.0));
        while i < self.entries.len()
            invariant
                i <= self.entries.len(),
                hit == (|e: Cached| entry_matches(e.0, query@)),
                entry_views(entries@) == self@.entries.take(i as int).filter(hit).map_values(
                    |e: Cached| e.0,
                ),
            decreases self.entries.len() - i,
        {
            let ghost before = self@.entries.take(i as int);
            let ghost shown = entry_views(entries@);
            let entry = &self.entries[i];
            if entry.0.matches_query(query) {
                entries.push(entry.0.duplicate());
                assert(entry_views(entries@) =~= shown.push(entry.0@));
            }
            i = i + 1;
            proof {
                let seen = self@.entries.take(i as int);
                assert(seen.drop_last() =~= before);
                reveal(Seq::filter);
                assert(seen.filter(hit) =~= if hit(seen.last()) {
                    before.filter(hit).push(seen.last())
                } else {
                    before.filter(hit)
                });
                assert(entry_views(entries@) =~= seen.filter(hit).map_values(|e: Cached| e.0));
            }
        }
        assert(self@.entries.take(self.entries.len() as int) =~= self@.entries);
        entries
    }

    /// Cleans up at the time that the clock shows and returns the entries
    /// that match the query.
    pub fn search(&mut self, query: &str) -> (entries: Vec<DirectoryEntry>)
        ensures
            exists|now: nat| final(self)@ == cleaned(old(self)@, now),
            entry_views(entries@) == matching(final(self)@.entries, query@),
    {
        let now = nanos_since(&self.clock);
        let entries = self.search_at(query, now);
        assert(self@ == cleaned(old(self)@, now as nat));
        entries
    }
}

} // verus!
