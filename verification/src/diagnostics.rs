//! Bounded, privacy-safe image diagnostics.
//!
//! The sink is best effort: it numbers the lines it emits, records some render
//! events at most once, and switches itself off after the first failed write.
//! [`SinkState`] holds those decisions; the caller owns the log files, writes
//! the lines that the state hands out and reports a failed write back with
//! [`SinkState::disable`].
use vstd::prelude::*;

pub mod persistence;
pub mod schema;

use schema::{DiagnosticEvent, serialize_event, spec_serialize_event};

verus! {

/// How many distinct once-only events the sink remembers.
pub const MAX_ONCE_EVENTS: usize = 256;

/// `value + 1`, or `u64::MAX` where that would overflow.
pub open spec fn saturating_successor(value: u64) -> u64 {
    if value == u64::MAX {
        u64::MAX
    } else {
        (value + 1) as u64
    }
}

/// The abstract state of a diagnostics sink.
pub struct SinkModel {
    /// Whether the sink still has log files to write to.
    pub enabled: bool,
    /// The sequence number of the next emitted line.
    pub next_sequence: u64,
    /// The once-only events already emitted, oldest first.
    pub once: Seq<DiagnosticEvent>,
}

/// The decision state of a diagnostics sink.
pub struct SinkState {
    enabled: bool,
    next_sequence: u64,
    once_order: Vec<DiagnosticEvent>,
}

/// Whether no event occurs twice in `s`.
pub open spec fn no_duplicates(s: Seq<DiagnosticEvent>) -> bool {
    forall|i: int, j: int| 0 <= i < j < s.len() ==> s[i] != s[j]
}

impl View for SinkState {
    type V = SinkModel;

    closed spec fn view(&self) -> SinkModel {
        SinkModel { enabled: self.enabled, next_sequence: self.next_sequence, once: self.once_order@ }
    }
}

impl SinkModel {
    /// The once-only memory is bounded and holds each event at most once.
    pub open spec fn wf(self) -> bool {
        self.once.len() <= MAX_ONCE_EVENTS && no_duplicates(self.once)
    }

    /// The once-only memory after making room for one more event: the oldest
    /// entry leaves when the memory is full.
    pub open spec fn once_after_eviction(self) -> Seq<DiagnosticEvent> {
        if self.once.len() >= MAX_ONCE_EVENTS && self.once.len() > 0 {
            self.once.drop_first()
        } else {
            self.once
        }
    }
}

/// The sink after `record`: an enabled sink spends one sequence number.
pub open spec fn after_record(m: SinkModel) -> SinkModel {
    if m.enabled {
        SinkModel { next_sequence: saturating_successor(m.next_sequence), ..m }
    } else {
        m
    }
}

/// The sink after `record_once` of `event`: an enabled sink that has not
/// emitted the event makes room for one more remembered event.
pub open spec fn after_record_once(m: SinkModel, event: DiagnosticEvent) -> SinkModel {
    if !m.enabled || m.once.contains(event) {
        m
    } else {
        SinkModel { once: m.once_after_eviction(), ..m }
    }
}

/// The sink after `commit_once` of `event`: one sequence number is spent and
/// the event is remembered, the oldest forgotten first when memory is full.
pub open spec fn after_commit_once(m: SinkModel, event: DiagnosticEvent) -> SinkModel {
    SinkModel {
        next_sequence: saturating_successor(m.next_sequence),
        once: if m.once.contains(event) {
            m.once
        } else {
            m.once_after_eviction().push(event)
        },
        ..m
    }
}

/// The sink after `n` calls of `record`.
pub open spec fn after_records(m: SinkModel, n: nat) -> SinkModel
    decreases n,
{
    if n == 0 {
        m
    } else {
        after_record(after_records(m, (n - 1) as nat))
    }
}

/// The sink after each event of `events` was recorded once and its line
/// written: `record_once` followed by `commit_once`.
pub open spec fn after_once_lines(m: SinkModel, events: Seq<DiagnosticEvent>) -> SinkModel
    decreases events.len(),
{
    if events.len() == 0 {
        m
    } else {
        let before = after_once_lines(m, events.drop_last());
        after_commit_once(after_record_once(before, events.last()), events.last())
    }
}

/// Sequence numbers run on: the `n`-th `record` call of an enabled sink,
/// counted from 0, writes the line numbered `next_sequence + n`; that line
/// exists for every event and fits within `MAX_LINE_BYTES` with its newline.
pub proof fn lemma_sequence_numbers_run_on(m: SinkModel, n: nat, event: DiagnosticEvent, timestamp: u64)
    requires
        m.enabled,
        m.next_sequence + n <= u64::MAX,
    ensures
        after_records(m, n).enabled,
        after_records(m, n).next_sequence == m.next_sequence + n,
        after_records(m, n).once == m.once,
        spec_serialize_event(event, after_records(m, n).next_sequence, timestamp) is Some,
        spec_serialize_event(event, after_records(m, n).next_sequence, timestamp) matches Some(
            line,
        ) ==> line.len() + 1 <= schema::MAX_LINE_BYTES,
    decreases n,
{
    if n > 0 {
        lemma_sequence_numbers_run_on(m, (n - 1) as nat, event, timestamp);
    }
    schema::lemma_every_line_fits(event, after_records(m, n).next_sequence, timestamp);
}

/// A once-only event stays remembered, so it is not written again, while
/// fewer than `MAX_ONCE_EVENTS` other new events are written after it.
pub proof fn lemma_once_events_stay_remembered(m: SinkModel, event: DiagnosticEvent, later: Seq<
    DiagnosticEvent,
>)
    requires
        m.wf(),
        m.enabled,
        m.once.len() > 0,
        m.once.last() == event,
        later.len() < MAX_ONCE_EVENTS,
        forall|i: int| 0 <= i < later.len() ==> later[i] != event,
    ensures
        after_once_lines(m, later).once.contains(event),
        after_once_lines(m, later).wf(),
        after_once_lines(m, later).enabled,
{
    lemma_once_index(m, event, later);
}

/// Where `event` sits in the once-only memory after `later` were written.
proof fn lemma_once_index(m: SinkModel, event: DiagnosticEvent, later: Seq<DiagnosticEvent>) -> (idx:
    int)
    requires
        m.wf(),
        m.enabled,
        m.once.len() > 0,
        m.once.last() == event,
        later.len() < MAX_ONCE_EVENTS,
        forall|i: int| 0 <= i < later.len() ==> later[i] != event,
    ensures
        0 <= idx < after_once_lines(m, later).once.len(),
        after_once_lines(m, later).once[idx] == event,
        idx >= after_once_lines(m, later).once.len() - 1 - later.len(),
        after_once_lines(m, later).wf(),
        after_once_lines(m, later).enabled,
    decreases later.len(),
{
    if later.len() == 0 {
        m.once.len() - 1
    } else {
        let prev = later.drop_last();
        let x = later.last();
        let idx0 = lemma_once_index(m, event, prev);
        let b = after_once_lines(m, prev);
        let r = after_record_once(b, x);
        let c = after_commit_once(r, x);
        assert(c == after_once_lines(m, later));
        if b.once.contains(x) {
            assert(r == b);
            assert(c.once == b.once);
            idx0
        } else {
            let e = b.once_after_eviction();
            assert(r.once == e);
            assert(!e.contains(x)) by {
                if e.contains(x) {
                    let k = choose|k: int| 0 <= k < e.len() && e[k] == x;
                    if b.once.len() >= MAX_ONCE_EVENTS {
                        assert(b.once[k + 1] == x);
                    }
                }
            }
            assert(c.once == e.push(x));
            let idx = if b.once.len() >= MAX_ONCE_EVENTS {
                idx0 - 1
            } else {
                idx0
            };
            assert(e[idx] == event) by {
                if b.once.len() >= MAX_ONCE_EVENTS {
                    assert(e[idx] == b.once[idx0]);
                }
            }
            assert(c.once[idx] == event);
            assert(no_duplicates(c.once)) by {
                assert forall|i: int, j: int| 0 <= i < j < c.once.len() implies c.once[i]
                    != c.once[j] by {
                    if j == e.len() {
                        assert(c.once[i] == e[i]);
                        assert(e.contains(e[i]));
                    } else if b.once.len() >= MAX_ONCE_EVENTS {
                        assert(c.once[i] == b.once[i + 1]);
                        assert(c.once[j] == b.once[j + 1]);
                    } else {
                        assert(c.once[i] == b.once[i]);
                        assert(c.once[j] == b.once[j]);
                    }
                }
            }
            idx
        }
    }
}

impl SinkState {
    /// A sink whose log files are available (`enabled`) or absent.
    pub fn new(enabled: bool) -> (state: Self)
        ensures
            state@ == (SinkModel { enabled, next_sequence: 0, once: Seq::empty() }),
            state@.wf(),
    {
        SinkState { enabled, next_sequence: 0, once_order: Vec::new() }
    }

    pub fn is_enabled(&self) -> (b: bool)
        ensures
            b == self@.enabled,
    {
        self.enabled
    }

    /// Stops all further output, as after a failed write.
    pub fn disable(&mut self)
        ensures
            final(self)@ == (SinkModel { enabled: false, ..old(self)@ }),
    {
        self.enabled = false;
    }

    fn once_contains(&self, event: &DiagnosticEvent) -> (b: bool)
        ensures
            b == self@.once.contains(*event),
    {
        let mut i: usize = 0;
        while i < self.once_order.len()
            invariant
                i <= self.once_order@.len(),
                forall|k: int| 0 <= k < i ==> self.once_order@[k] != *event,
            decreases self.once_order.len() - i,
        {
            if self.once_order[i] == *event {
                assert(self.once_order@[i as int] == *event);
                return true;
            }
            i += 1;
        }
        false
    }

    /// The line for `event` with the next sequence number. An enabled sink
    /// spends a sequence number on every call, also when the event does not
    /// fit on one line; a disabled sink emits nothing and stays as it was.
    pub fn record(&mut self, event: DiagnosticEvent, timestamp: u64) -> (line: Option<Vec<u8>>)
        ensures
            final(self)@ == after_record(old(self)@),
            !old(self)@.enabled ==> line is None && final(self)@ == old(self)@,
            old(self)@.enabled ==> line is Some,
            old(self)@.enabled ==> final(self)@ == (SinkModel {
                next_sequence: saturating_successor(old(self)@.next_sequence),
                ..old(self)@
            }) && match line {
                Some(bytes) => spec_serialize_event(event, old(self)@.next_sequence, timestamp)
                    == Some(bytes@),
                None => spec_serialize_event(event, old(self)@.next_sequence, timestamp) is None,
            },
    {
        if !self.enabled {
            return None;
        }
        let sequence = self.next_sequence;
        self.next_sequence = self.next_sequence.saturating_add(1);
        serialize_event(event, sequence, timestamp)
    }

    /// The line for a once-only `event`, or `None` where the sink is disabled
    /// or has already emitted the event. When the once-only memory is full, the
    /// oldest remembered event is forgotten first, whether or not a line
    /// results. The sequence number is spent only by [`Self::commit_once`],
    /// after the line has been written.
    pub fn record_once(&mut self, event: DiagnosticEvent, timestamp: u64) -> (line: Option<
        Vec<u8>,
    >)
        requires
            old(self)@.wf(),
        ensures
            final(self)@.wf(),
            final(self)@ == after_record_once(old(self)@, event),
            !old(self)@.enabled || old(self)@.once.contains(event) ==> line is None
                && final(self)@ == old(self)@,
            old(self)@.enabled && !old(self)@.once.contains(event) ==> line is Some,
            old(self)@.enabled && !old(self)@.once.contains(event) ==> final(self)@ == (SinkModel {
                once: old(self)@.once_after_eviction(),
                ..old(self)@
            }) && final(self)@.once.len() < MAX_ONCE_EVENTS && match line {
                Some(bytes) => spec_serialize_event(event, old(self)@.next_sequence, timestamp)
                    == Some(bytes@),
                None => spec_serialize_event(event, old(self)@.next_sequence, timestamp) is None,
            },
    {
        if !self.enabled {
            return None;
        }
        if self.once_contains(&event) {
            return None;
        }
        if self.once_order.len() >= MAX_ONCE_EVENTS && self.once_order.len() > 0 {
            let ghost before = self.once_order@;
            self.once_order.remove(0);
            assert(self.once_order@ =~= before.drop_first());
            assert(no_duplicates(self.once_order@)) by {
                assert forall|i: int, j: int|
                    0 <= i < j < self.once_order@.len() implies self.once_order@[i]
                    != self.once_order@[j] by {
                    assert(self.once_order@[i] == before[i + 1]);
                    assert(self.once_order@[j] == before[j + 1]);
                }
            }
        }
        serialize_event(event, self.next_sequence, timestamp)
    }

    /// Remembers a once-only `event` whose line was written and spends its
    /// sequence number. An event already remembered is not added again; a full
    /// memory forgets its oldest event first.
    pub fn commit_once(&mut self, event: DiagnosticEvent)
        requires
            old(self)@.wf(),
        ensures
            final(self)@.wf(),
            final(self)@ == after_commit_once(old(self)@, event),
            final(self)@.enabled == old(self)@.enabled,
            final(self)@.next_sequence == saturating_successor(old(self)@.next_sequence),
            final(self)@.once.contains(event),
            old(self)@.once.contains(event) ==> final(self)@.once == old(self)@.once,
            !old(self)@.once.contains(event) ==> final(self)@.once
                == old(self)@.once_after_eviction().push(event),
    {
        self.next_sequence = self.next_sequence.saturating_add(1);
        if self.once_contains(&event) {
            return;
        }
        if self.once_order.len() >= MAX_ONCE_EVENTS && self.once_order.len() > 0 {
            let ghost before = self.once_order@;
            self.once_order.remove(0);
            assert(self.once_order@ =~= before.drop_first());
            assert(!self.once_order@.contains(event)) by {
                if self.once_order@.contains(event) {
                    let k = choose|k: int| 0 <= k < self.once_order@.len() && self.once_order@[k]
                        == event;
                    assert(before[k + 1] == event);
                }
            }
        }
        let ghost mid = self.once_order@;
        assert(no_duplicates(mid)) by {
            assert forall|i: int, j: int| 0 <= i < j < mid.len() implies mid[i] != mid[j] by {
                if mid.len() < old(self).once_order@.len() {
                    assert(mid[i] == old(self).once_order@[i + 1]);
                    assert(mid[j] == old(self).once_order@[j + 1]);
                }
            }
        }
        self.once_order.push(event);
        assert(self.once_order@[mid.len() as int] == event);
        assert(no_duplicates(self.once_order@)) by {
            assert forall|i: int, j: int|
                0 <= i < j < self.once_order@.len() implies self.once_order@[i]
                != self.once_order@[j] by {
                if j == mid.len() {
                    assert(self.once_order@[i] == mid[i]);
                    assert(mid.contains(mid[i]));
                } else {
                    assert(self.once_order@[i] == mid[i]);
                    assert(self.once_order@[j] == mid[j]);
                }
            }
        }
    }
}

/// A process-local source of image-load correlation tokens. Tokens are
/// independent of Jira identifiers and are handed out whether or not the sink
/// is enabled.
pub struct LoadTokenCounter {
    last: u64,
}

impl View for LoadTokenCounter {
    type V = u64;

    closed spec fn view(&self) -> u64 {
        self.last
    }
}

impl LoadTokenCounter {
    pub fn new() -> (counter: Self)
        ensures
            counter@ == 0,
    {
        LoadTokenCounter { last: 0 }
    }

    /// The next token: one more than the previous one, staying at `u64::MAX`
    /// once it is reached.
    pub fn begin_image_load(&mut self) -> (token: u64)
        ensures
            token == saturating_successor(old(self)@),
            final(self)@ == token,
    {
        self.last = self.last.saturating_add(1);
        self.last
    }
}

/// Tokens handed out one after another strictly increase until the counter
/// saturates, so no two loads before saturation share a token.
pub proof fn lemma_load_tokens_increase(previous: u64)
    requires
        previous < u64::MAX,
    ensures
        saturating_successor(previous) > previous,
{
}

} // verus!
