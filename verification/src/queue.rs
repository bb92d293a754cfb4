//! The queue of messages that wait for delivery.

use vstd::prelude::*;

use crate::models::MessageId;
use crate::telemetry::{with_flow, RecorderView, TelemetryRecorder};

verus! {

/// `SystemTime::now` as milliseconds since the Unix epoch, or zero where
/// the clock stands before the epoch. Nothing is promised of the number.
#[verifier::external_body]
pub(crate) fn now_millis() -> (millis: u64) {
    std::time::SystemTime::now().duration_since(std::time::UNIX_EPOCH).map(
        |d| d.as_millis() as u64,
    ).unwrap_or_default()
}

/// The views of the ids in `ids`.
pub open spec fn ids_of(ids: Seq<MessageId>) -> Seq<Seq<char>> {
    ids.map_values(|id: MessageId| id@)
}

/// The view of an optional recorder.
pub open spec fn recorder_view(recorder: Option<TelemetryRecorder>) -> Option<RecorderView> {
    match recorder {
        Some(r) => Some(r@),
        None => None,
    }
}

/// What the recorder of a queue holds after the queue measured `flow`
/// with this outcome and depth at the time `timestamp`.
pub open spec fn measured(
    recorder: Option<RecorderView>,
    flow: Seq<char>,
    success: bool,
    depth: nat,
    timestamp: u64,
) -> Option<RecorderView> {
    match recorder {
        Some(r) => Some(with_flow(r, flow, 0, success, depth as usize, timestamp)),
        None => None,
    }
}

/// A first-in, first-out queue of message ids, which measures its depth
/// where it has a recorder.
#[derive(Clone, Debug)]
pub struct QueueManager {
    inner: Vec<MessageId>,
    telemetry: Option<TelemetryRecorder>,
}

impl QueueManager {
    /// The waiting ids, the one that leaves next first.
    pub closed spec fn waiting(&self) -> Seq<Seq<char>> {
        ids_of(self.inner@)
    }

    /// What the recorder holds, where the queue has one.
    pub closed spec fn telemetry(&self) -> Option<RecorderView> {
        recorder_view(self.telemetry)
    }

    /// An empty queue without recorder.
    pub fn new() -> (queue: Self)
        ensures
            queue.waiting() == Seq::<Seq<char>>::empty(),
            queue.telemetry() is None,
    {
        let queue = QueueManager { inner: Vec::new(), telemetry: None };
        assert(queue.waiting() =~= Seq::<Seq<char>>::empty());
        queue
    }

    /// An empty queue that measures with `telemetry`.
    pub fn with_telemetry(telemetry: TelemetryRecorder) -> (queue: Self)
        ensures
            queue.waiting() == Seq::<Seq<char>>::empty(),
            queue.telemetry() == Some(telemetry@),
    {
        let queue = QueueManager { inner: Vec::new(), telemetry: Some(telemetry) };
        assert(queue.waiting() =~= Seq::<Seq<char>>::empty());
        queue
    }

    /// Measures `flow` with the recorder, where there is one, at the time
    /// that the clock shows.
    fn measure(&mut self, flow: &str, success: bool)
        ensures
            final(self).waiting() == old(self).waiting(),
            exists|timestamp: u64|
                final(self).telemetry() == #[trigger] measured(
                    old(self).telemetry(),
                    flow@,
                    success,
                    old(self).waiting().len(),
                    timestamp,
                ),
    {
        let depth = self.inner.len();
        let timestamp = now_millis();
        let taken = self.telemetry.take();
        match taken {
            Some(mut recorder) => {
                recorder.record_flow(flow, 0, success, depth, timestamp);
                self.telemetry = Some(recorder);
            },
            None => {},
        }
        assert(old(self).waiting().len() == depth);
        assert(self.telemetry() == measured(
            old(self).telemetry(),
            flow@,
            success,
            old(self).waiting().len(),
            timestamp,
        ));
    }

    /// Puts `id` at the end of the queue and measures `queue.enqueue`.
    pub fn enqueue(&mut self, id: MessageId)
        ensures
            final(self).waiting() == old(self).waiting().push(id@),
            exists|timestamp: u64|
                final(self).telemetry() == #[trigger] measured(
                    old(self).telemetry(),
                    "queue.enqueue"@,
                    true,
                    final(self).waiting().len(),
                    timestamp,
                ),
    {
        self.inner.push(id);
        assert(self.waiting() =~= old(self).waiting().push(id@));
        self.measure("queue.enqueue", true);
    }

    /// Takes the id at the front of the queue, if there is one, and
    /// measures `queue.dequeue`, as a success where an id was taken.
    pub fn dequeue(&mut self) -> (id: Option<MessageId>)
        ensures
            match id {
                Some(taken) => old(self).waiting().len() > 0 && taken@ == old(self).waiting()[0]
                    && final(self).waiting() == old(self).waiting().skip(1),
                None => old(self).waiting().len() == 0 && final(self).waiting()
                    == old(self).waiting(),
            },
            exists|timestamp: u64|
                final(self).telemetry() == #[trigger] measured(
                    old(self).telemetry(),
                    "queue.dequeue"@,
                    id is Some,
                    final(self).waiting().len(),
                    timestamp,
                ),
    {
        let id = if self.inner.len() > 0 {
            let taken = self.inner.remove(0);
            assert(self.waiting() =~= old(self).waiting().skip(1));
            Some(taken)
        } else {
            None
        };
        self.measure("queue.dequeue", id.is_some());
        id
    }

    /// Puts `ids` at the end of the queue, in their order, and measures
    /// `queue.seed`.
    pub fn seed(&mut self, ids: Vec<MessageId>)
        ensures
            final(self).waiting() == old(self).waiting() + ids_of(ids@),
            exists|timestamp: u64|
                final(self).telemetry() == #[trigger] measured(
                    old(self).telemetry(),
                    "queue.seed"@,
                    true,
                    final(self).waiting().len(),
                    timestamp,
                ),
    {
        let mut i: usize = 0;
        assert(ids_of(ids@).take(0) =~= Seq::<Seq<char>>::empty());
        assert(self.waiting() =~= old(self).waiting() + ids_of(ids@).take(0));
        while i < ids.len()
            invariant
                i <= ids.len(),
                self.telemetry() == old(self).telemetry(),
                self.waiting() == old(self).waiting() + ids_of(ids@).take(i as int),
            decreases ids.len() - i,
        {
            let ghost before = self.waiting();
            self.inner.push(ids[i].duplicate());
            assert(self.waiting() =~= before.push(ids@[i as int]@));
            i = i + 1;
            assert(ids_of(ids@).take(i as int) =~= ids_of(ids@).take(i - 1).push(ids@[i - 1]@));
            assert(self.waiting() =~= old(self).waiting() + ids_of(ids@).take(i as int));
        }
        assert(ids_of(ids@).take(ids.len() as int) =~= ids_of(ids@));
        self.measure("queue.seed", true);
    }

    /// A copy of the waiting ids, the one that leaves next first.
    pub fn pending(&self) -> (ids: Vec<MessageId>)
        ensures
            ids_of(ids@) == self.waiting(),
    {
        let mut ids: Vec<MessageId> = Vec::new();
        let mut i: usize = 0;
        while i < self.inner.len()
            invariant
                i <= self.inner.len(),
                ids@.len() == i,
                forall|k: int| 0 <= k < i ==> ids@[k]@ == self.inner@[k]@,
            decreases self.inner.len() - i,
        {
            ids.push(self.inner[i].duplicate());
            i = i + 1;
        }
        assert(ids_of(ids@) =~= self.waiting());
        ids
    }
}

impl Default for QueueManager {
    fn default() -> (queue: Self)
        ensures
            queue.waiting() == Seq::<Seq<char>>::empty(),
            queue.telemetry() is None,
    {
        Self::new()
    }
}

} // verus!
