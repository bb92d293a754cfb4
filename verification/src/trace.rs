//! A record of what happened to which message.

use vstd::prelude::*;

use crate::models::MessageId;

verus! {

/// One event in the life of a message.
#[derive(Clone, Debug, PartialEq, Eq)]
pub struct TraceEntry {
    pub event: String,
    pub message: MessageId,
}

impl View for TraceEntry {
    type V = (Seq<char>, Seq<char>);

    /// The event and the id of the message.
    open spec fn view(&self) -> (Seq<char>, Seq<char>) {
        (self.event@, self.message@)
    }
}

/// The views of the entries in `entries`.
pub open spec fn entries_of(entries: Seq<TraceEntry>) -> Seq<(Seq<char>, Seq<char>)> {
    entries.map_values(|e: TraceEntry| e@)
}

/// Collects trace entries in the order in which they are recorded.
#[derive(Debug)]
pub struct TraceManager {
    inner: Vec<TraceEntry>,
}

impl TraceManager {
    /// The recorded entries, oldest first.
    pub closed spec fn entries(&self) -> Seq<(Seq<char>, Seq<char>)> {
        entries_of(self.inner@)
    }

    /// A trace without entries.
    pub fn new() -> (manager: Self)
        ensures
            manager.entries() == Seq::<(Seq<char>, Seq<char>)>::empty(),
    {
        let manager = TraceManager { inner: Vec::new() };
        assert(manager.entries() =~= Seq::<(Seq<char>, Seq<char>)>::empty());
        manager
    }

    /// Records that `event` happened to `message`.
    pub fn record(&mut self, event: &str, message: MessageId)
        ensures
            final(self).entries() == old(self).entries().push((event@, message@)),
    {
        self.inner.push(TraceEntry { event: String::from_str(event), message });
        assert(self.entries() =~= old(self).entries().push((event@, message@)));
    }

    /// A copy of the recorded entries, oldest first.
    pub fn bundle(&self) -> (entries: Vec<TraceEntry>)
        ensures
            entries_of(entries@) == self.entries(),
    {
        let mut entries: Vec<TraceEntry> = Vec::new();
        let mut i: usize = 0;
        while i < self.inner.len()
            invariant
                i <= self.inner.len(),
                entries@.len() == i,
                forall|k: int| 0 <= k < i ==> entries@[k]@ == self.inner@[k]@,
            decreases self.inner.len() - i,
        {
            let entry = &self.inner[i];
            entries.push(TraceEntry { event: entry.event.clone(), message: entry.message.duplicate() });
            i = i + 1;
        }
        assert(entries_of(entries@) =~= self.entries());
        entries
    }
}

impl Default for TraceManager {
    fn default() -> (manager: Self)
        ensures
            manager.entries() == Seq::<(Seq<char>, Seq<char>)>::empty(),
    {
        Self::new()
    }
}

} // verus!
