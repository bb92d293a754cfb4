//! What is measured about the flows of the service.

use vstd::prelude::*;

use crate::text::{append_chars, chars_of, string_of, texts_of, view_of};

verus! {

/// One measured flow.
#[derive(Clone, Debug, PartialEq)]
pub struct TelemetryEvent {
    pub flow: String,
    pub latency_ms: u128,
    pub success: bool,
    pub timestamp: u64,
}

/// The counters of the service.
#[derive(Clone, Debug, PartialEq)]
pub struct TelemetryMetrics {
    pub messages_sent: u64,
    pub total_latency_ms: u128,
    pub latency_samples: u64,
    pub queue_depth: usize,
    pub error_count: u64,
}

impl Default for TelemetryMetrics {
    fn default() -> (out: Self)
        ensures
            out.messages_sent == 0,
            out.total_latency_ms == 0,
            out.latency_samples == 0,
            out.queue_depth == 0,
            out.error_count == 0,
    {
        TelemetryMetrics {
            messages_sent: 0,
            total_latency_ms: 0,
            latency_samples: 0,
            queue_depth: 0,
            error_count: 0,
        }
    }
}

/// `text` with every match of `pattern` replaced by `replacement`, as
/// `Regex::replace_all` gives it; `None` where `pattern` is no valid
/// pattern.
pub uninterp spec fn replaced_matches(
    pattern: Seq<char>,
    text: Seq<char>,
    replacement: Seq<char>,
) -> Option<Seq<char>>;

/// `regex::Regex::new` followed by `Regex::replace_all`. The result is a
/// function of the three texts alone; the contract only names it.
#[verifier::external_body]
fn replace_matches(pattern: &str, text: &str, replacement: &str) -> (out: Option<String>)
    ensures
        view_of(out) == replaced_matches(pattern@, text@, replacement@),
{
    let regex = regex::Regex::new(pattern).ok()?;
    Some(regex.replace_all(text, replacement).into_owned())
}

/// The pattern that mail addresses in error messages are found with.
pub open spec fn mail_pattern() -> Seq<char> {
    "[A-Za-z0-9._%+-]+@[A-Za-z0-9.-]+\\.[A-Za-z]{2,}"@
}

/// `input` with every mail address in it replaced by `[REDACTED]`.
pub open spec fn redacted(input: Seq<char>) -> Seq<char> {
    match replaced_matches(mail_pattern(), input, "[REDACTED]"@) {
        Some(text) => text,
        None => input,
    }
}

/// Computes `redacted`.
pub fn redact(input: String) -> (out: String)
    ensures
        out@ == redacted(input@),
{
    match replace_matches(
        "[A-Za-z0-9._%+-]+@[A-Za-z0-9.-]+\\.[A-Za-z]{2,}",
        input.as_str(),
        "[REDACTED]",
    ) {
        Some(text) => text,
        None => input,
    }
}

/// The most events that a recorder keeps.
pub const EVENT_CAPACITY: usize = 256;

/// The most error messages that a recorder keeps.
pub const ERROR_CAPACITY: usize = 64;

/// The most bytes of UTF-8 that a kept error message has.
pub const ERROR_BYTES: usize = 512;

/// A `TelemetryEvent` with its flow as a sequence of characters.
pub struct EventView {
    pub flow: Seq<char>,
    pub latency_ms: u128,
    pub success: bool,
    pub timestamp: u64,
}

impl View for TelemetryEvent {
    type V = EventView;

    open spec fn view(&self) -> EventView {
        EventView {
            flow: self.flow@,
            latency_ms: self.latency_ms,
            success: self.success,
            timestamp: self.timestamp,
        }
    }
}

/// The views of the events in `events`.
pub open spec fn events_of(events: Seq<TelemetryEvent>) -> Seq<EventView> {
    events.map_values(|e: TelemetryEvent| e@)
}

/// What a recorder holds.
pub struct RecorderView {
    pub enabled: bool,
    pub metrics: TelemetryMetrics,
    pub events: Seq<EventView>,
    pub errors: Seq<Seq<char>>,
}

/// The number of bytes that `c` takes in UTF-8.
pub open spec fn utf8_width(c: char) -> nat {
    if (c as u32) < 0x80 {
        1
    } else if (c as u32) < 0x800 {
        2
    } else if (c as u32) < 0x10000 {
        3
    } else {
        4
    }
}

/// The longest beginning of `text` that takes no more than `limit` bytes
/// in UTF-8.
pub open spec fn cut_to_bytes(text: Seq<char>, limit: nat) -> Seq<char>
    decreases text.len(),
{
    if text.len() == 0 || utf8_width(text[0]) > limit {
        Seq::empty()
    } else {
        seq![text[0]] + cut_to_bytes(text.skip(1), (limit - utf8_width(text[0])) as nat)
    }
}

/// Computes `cut_to_bytes`.
pub fn cut_text(text: &str, limit: usize) -> (out: String)
    ensures
        out@ == cut_to_bytes(text@, limit as nat),
{
    let chars = chars_of(text);
    let mut out: Vec<char> = Vec::new();
    let mut room: usize = limit;
    let mut i: usize = 0;
    assert(chars@.skip(0) =~= chars@);
    assert(out@ + cut_to_bytes(chars@, limit as nat) =~= cut_to_bytes(chars@, limit as nat));
    loop
        invariant_except_break
            i <= chars.len(),
            out@ + cut_to_bytes(chars@.skip(i as int), room as nat) == cut_to_bytes(
                chars@,
                limit as nat,
            ),
        ensures
            out@ == cut_to_bytes(chars@, limit as nat),
        decreases chars.len() - i,
    {
        if i >= chars.len() {
            assert(out@ + Seq::<char>::empty() =~= out@);
            break;
        }
        let c = chars[i];
        let code = c as u32;
        let width: usize = if code < 0x80 {
            1
        } else if code < 0x800 {
            2
        } else if code < 0x10000 {
            3
        } else {
            4
        };
        let ghost rest = chars@.skip(i as int);
        let ghost before = out@;
        assert(rest[0] == c);
        if width > room {
            assert(out@ + Seq::<char>::empty() =~= out@);
            break;
        }
        out.push(c);
        room = room - width;
        i = i + 1;
        assert(rest.skip(1) =~= chars@.skip(i as int));
        assert(out@ + cut_to_bytes(chars@.skip(i as int), room as nat) =~= before + (seq![c]
            + cut_to_bytes(rest.skip(1), room as nat)));
    }
    string_of(&out)
}

/// `items` with `item` added at the end, after the first item has left
/// where `capacity` items are there already.
pub open spec fn pushed_bounded<T>(items: Seq<T>, item: T, capacity: nat) -> Seq<T> {
    if items.len() >= capacity && items.len() > 0 {
        items.skip(1).push(item)
    } else {
        items.push(item)
    }
}

/// The counters after a flow was measured. Counters that are full start
/// again at zero.
pub open spec fn counted(
    metrics: TelemetryMetrics,
    latency_ms: u128,
    success: bool,
    queue_depth: usize,
) -> TelemetryMetrics {
    TelemetryMetrics {
        messages_sent: if success {
            if metrics.messages_sent == u64::MAX {
                0
            } else {
                (metrics.messages_sent + 1) as u64
            }
        } else {
            metrics.messages_sent
        },
        error_count: if success {
            metrics.error_count
        } else if metrics.error_count == u64::MAX {
            0
        } else {
            (metrics.error_count + 1) as u64
        },
        queue_depth,
        total_latency_ms: if metrics.total_latency_ms + latency_ms > u128::MAX {
            (metrics.total_latency_ms + latency_ms - u128::MAX - 1) as u128
        } else {
            (metrics.total_latency_ms + latency_ms) as u128
        },
        latency_samples: if metrics.latency_samples == u64::MAX {
            0
        } else {
            (metrics.latency_samples + 1) as u64
        },
    }
}

/// The message that is kept for a flow that failed.
pub open spec fn failure_message(flow: Seq<char>) -> Seq<char> {
    "flow "@ + flow + " reported failure"@
}

/// The recorder after an error message was handed to it: a recorder that
/// is switched on keeps the message, with mail addresses redacted and cut
/// to the size limit.
pub open spec fn with_error(recorder: RecorderView, message: Seq<char>) -> RecorderView {
    if recorder.enabled {
        RecorderView {
            errors: pushed_bounded(
                recorder.errors,
                cut_to_bytes(redacted(message), ERROR_BYTES as nat),
                ERROR_CAPACITY as nat,
            ),
            ..recorder
        }
    } else {
        recorder
    }
}

/// The recorder after a flow was measured: a recorder that is switched on
/// counts it, keeps it as an event, and keeps an error message where the
/// flow failed.
pub open spec fn with_flow(
    recorder: RecorderView,
    flow: Seq<char>,
    latency_ms: u128,
    success: bool,
    queue_depth: usize,
    timestamp: u64,
) -> RecorderView {
    if recorder.enabled {
        let measured = RecorderView {
            metrics: counted(recorder.metrics, latency_ms, success, queue_depth),
            events: pushed_bounded(
                recorder.events,
                EventView { flow, latency_ms, success, timestamp },
                EVENT_CAPACITY as nat,
            ),
            ..recorder
        };
        if success {
            measured
        } else {
            with_error(measured, failure_message(flow))
        }
    } else {
        recorder
    }
}

/// Keeps counters, the latest events and the latest error messages.
#[derive(Clone, Debug)]
pub struct TelemetryRecorder {
    enabled: bool,
    metrics: TelemetryMetrics,
    events: Vec<TelemetryEvent>,
    errors: Vec<String>,
}

impl View for TelemetryRecorder {
    type V = RecorderView;

    closed spec fn view(&self) -> RecorderView {
        RecorderView {
            enabled: self.enabled,
            metrics: self.metrics,
            events: events_of(self.events@),
            errors: texts_of(self.errors@),
        }
    }
}

impl TelemetryRecorder {
    /// A recorder with its counters at zero and nothing kept.
    pub fn new(enabled: bool) -> (recorder: Self)
        ensures
            recorder@.enabled == enabled,
            recorder@.metrics == (TelemetryMetrics {
                messages_sent: 0,
                total_latency_ms: 0,
                latency_samples: 0,
                queue_depth: 0,
                error_count: 0,
            }),
            recorder@.events == Seq::<EventView>::empty(),
            recorder@.errors == Seq::<Seq<char>>::empty(),
    {
        let recorder = TelemetryRecorder {
            enabled,
            metrics: TelemetryMetrics::default(),
            events: Vec::new(),
            errors: Vec::new(),
        };
        assert(recorder@.events =~= Seq::<EventView>::empty());
        assert(recorder@.errors =~= Seq::<Seq<char>>::empty());
        recorder
    }

    /// Hands an error message to the recorder.
    pub fn record_error(&mut self, message: String)
        ensures
            final(self)@ == with_error(old(self)@, message@),
    {
        if !self.enabled {
            return;
        }
        let clean = redact(message);
        let kept = cut_text(clean.as_str(), ERROR_BYTES);
        if self.errors.len() >= ERROR_CAPACITY {
            self.errors.remove(0);
        }
        self.errors.push(kept);
        assert(self@.errors =~= pushed_bounded(
            old(self)@.errors,
            cut_to_bytes(redacted(message@), ERROR_BYTES as nat),
            ERROR_CAPACITY as nat,
        ));
    }

    /// Records that `flow` was measured at the time `timestamp`.
    pub fn record_flow(
        &mut self,
        flow: &str,
        latency_ms: u128,
        success: bool,
        queue_depth: usize,
        timestamp: u64,
    )
        ensures
            final(self)@ == with_flow(
                old(self)@,
                flow@,
                latency_ms,
                success,
                queue_depth,
                timestamp,
            ),
    {
        if !self.enabled {
            return;
        }
        if success {
            self.metrics.messages_sent = self.metrics.messages_sent.wrapping_add(1);
        } else {
            self.metrics.error_count = self.metrics.error_count.wrapping_add(1);
        }
        self.metrics.queue_depth = queue_depth;
        self.metrics.total_latency_ms = self.metrics.total_latency_ms.wrapping_add(latency_ms);
        self.metrics.latency_samples = self.metrics.latency_samples.wrapping_add(1);
        assert(self.metrics == counted(old(self)@.metrics, latency_ms, success, queue_depth));
        if self.events.len() >= EVENT_CAPACITY {
            self.events.remove(0);
        }
        self.events.push(
            TelemetryEvent { flow: String::from_str(flow), latency_ms, success, timestamp },
        );
        assert(self@.events =~= pushed_bounded(
            old(self)@.events,
            EventView { flow: flow@, latency_ms, success, timestamp },
            EVENT_CAPACITY as nat,
        ));
        if !success {
            let mut text = chars_of("flow ");
            append_chars(&mut text, &chars_of(flow));
            append_chars(&mut text, &chars_of(" reported failure"));
            self.record_error(string_of(&text));
        }
    }

    /// The counters.
    pub fn metrics(&self) -> (metrics: TelemetryMetrics)
        ensures
            metrics == self@.metrics,
    {
        TelemetryMetrics {
            messages_sent: self.metrics.messages_sent,
            total_latency_ms: self.metrics.total_latency_ms,
            latency_samples: self.metrics.latency_samples,
            queue_depth: self.metrics.queue_depth,
            error_count: self.metrics.error_count,
        }
    }

    /// The queue depth that was measured last.
    pub fn queue_depth(&self) -> (depth: usize)
        ensures
            depth == self@.metrics.queue_depth,
    {
        self.metrics.queue_depth
    }

    /// A copy of the kept events, oldest first.
    pub fn events(&self) -> (events: Vec<TelemetryEvent>)
        ensures
            events_of(events@) == self@.events,
    {
        let mut events: Vec<TelemetryEvent> = Vec::new();
        let mut i: usize = 0;
        while i < self.events.len()
            invariant
                i <= self.events.len(),
                events@.len() == i,
                forall|k: int| 0 <= k < i ==> events@[k]@ == self.events@[k]@,
            decreases self.events.len() - i,
        {
            let event = &self.events[i];
            events.push(
                TelemetryEvent {
                    flow: event.flow.clone(),
                    latency_ms: event.latency_ms,
                    success: event.success,
                    timestamp: event.timestamp,
                },
            );
            i = i + 1;
        }
        assert(events_of(events@) =~= self@.events);
        events
    }

    /// A copy of the kept error messages, oldest first.
    pub fn last_errors(&self) -> (errors: Vec<String>)
        ensures
            texts_of(errors@) == self@.errors,
    {
        crate::text::copy_texts(&self.errors)
    }
}

} // verus!
