//! What the directory knows: entries and distribution lists.

use vstd::prelude::*;

use crate::text::{
    chars_of, contains_token, copy_texts, has_token, lowercase_of, pairs_of, texts_of,
    to_lowercase, Pair,
};

verus! {

/// A person or a mailbox as the directory resolves it.
#[derive(Clone, Debug, PartialEq, Eq)]
pub struct DirectoryEntry {
    pub id: String,
    pub display_name: String,
    pub rfc822: String,
    pub or_address: String,
    pub attributes: Vec<(String, String)>,
}

/// A `DirectoryEntry` as sequences of characters.
pub struct DirectoryEntryView {
    pub id: Seq<char>,
    pub display_name: Seq<char>,
    pub rfc822: Seq<char>,
    pub or_address: Seq<char>,
    pub attributes: Seq<Pair>,
}

impl View for DirectoryEntry {
    type V = DirectoryEntryView;

    open spec fn view(&self) -> DirectoryEntryView {
        DirectoryEntryView {
            id: self.id@,
            display_name: self.display_name@,
            rfc822: self.rfc822@,
            or_address: self.or_address@,
            attributes: pairs_of(self.attributes@),
        }
    }
}

/// Whether `text`, in lower case, holds `needle`.
pub open spec fn holds_lowered(text: Seq<char>, needle: Seq<char>) -> bool {
    contains_token(lowercase_of(text), needle)
}

/// Whether an entry matches a query: the display name, the mailbox address
/// or the O/R address holds the query, case aside.
pub open spec fn entry_matches(entry: DirectoryEntryView, query: Seq<char>) -> bool {
    let needle = lowercase_of(query);
    holds_lowered(entry.display_name, needle) || holds_lowered(entry.rfc822, needle)
        || holds_lowered(entry.or_address, needle)
}

/// Decides `holds_lowered`.
fn lowered_holds(text: &str, needle: &Vec<char>) -> (found: bool)
    ensures
        found == holds_lowered(text@, needle@),
{
    let lower = to_lowercase(text);
    has_token(&chars_of(lower.as_str()), needle)
}

impl DirectoryEntry {
    /// Decides `entry_matches`.
    pub fn matches_query(&self, query: &str) -> (found: bool)
        ensures
            found == entry_matches(self@, query@),
    {
        let lower = to_lowercase(query);
        let needle = chars_of(lower.as_str());
        lowered_holds(self.display_name.as_str(), &needle) || lowered_holds(
            self.rfc822.as_str(),
            &needle,
        ) || lowered_holds(self.or_address.as_str(), &needle)
    }

    /// A copy of this entry.
    pub fn duplicate(&self) -> (out: Self)
        ensures
            out@ == self@,
    {
        let mut attributes: Vec<(String, String)> = Vec::new();
        let mut i: usize = 0;
        while i < self.attributes.len()
            invariant
                i <= self.attributes.len(),
                attributes@.len() == i,
                forall|k: int|
                    0 <= k < i ==> attributes@[k].0@ == self.attributes@[k].0@ && attributes@[k].1@
                        == self.attributes@[k].1@,
            decreases self.attributes.len() - i,
        {
            attributes.push((self.attributes[i].0.clone(), self.attributes[i].1.clone()));
            i = i + 1;
        }
        assert(pairs_of(attributes@) =~= pairs_of(self.attributes@));
        DirectoryEntry {
            id: self.id.clone(),
            display_name: self.display_name.clone(),
            rfc822: self.rfc822.clone(),
            or_address: self.or_address.clone(),
            attributes,
        }
    }
}

/// The views of the entries in `entries`.
pub open spec fn entry_views(entries: Seq<DirectoryEntry>) -> Seq<DirectoryEntryView> {
    entries.map_values(|e: DirectoryEntry| e@)
}

/// The view of an optional entry.
pub open spec fn entry_view(entry: Option<DirectoryEntry>) -> Option<DirectoryEntryView> {
    match entry {
        Some(e) => Some(e@),
        None => None,
    }
}

/// A named list of mailbox addresses.
#[derive(Clone, Debug, PartialEq, Eq)]
pub struct DistributionList {
    pub id: String,
    pub name: String,
    pub members: Vec<String>,
}

/// A `DistributionList` as sequences of characters.
pub struct DistributionListView {
    pub id: Seq<char>,
    pub name: Seq<char>,
    pub members: Seq<Seq<char>>,
}

impl View for DistributionList {
    type V = DistributionListView;

    open spec fn view(&self) -> DistributionListView {
        DistributionListView { id: self.id@, name: self.name@, members: texts_of(self.members@) }
    }
}

impl DistributionList {
    /// A copy of this list.
    pub fn duplicate(&self) -> (out: Self)
        ensures
            out@ == self@,
    {
        DistributionList {
            id: self.id.clone(),
            name: self.name.clone(),
            members: copy_texts(&self.members),
        }
    }
}

/// The views of the lists in `lists`.
pub open spec fn list_views(lists: Seq<DistributionList>) -> Seq<DistributionListView> {
    lists.map_values(|l: DistributionList| l@)
}

/// The view of an optional list.
pub open spec fn list_view(list: Option<DistributionList>) -> Option<DistributionListView> {
    match list {
        Some(l) => Some(l@),
        None => None,
    }
}

} // verus!
