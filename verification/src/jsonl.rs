//! The durable replay store's logic: records and their replay into per-thread
//! state, batch validation, and the framing of committed JSONL lines.

use vstd::prelude::*;
use vstd::string::*;

use crate::dup::{lemma_seq_view_empty, lemma_seq_view_push, seq_view, Duplicate};
use crate::error::{AgentRuntimeError, ErrorView};
use crate::event::{events_res, AgentRuntimeEvent, EventView};
use crate::ids::{RuntimeCursor, ThreadId};
use crate::store::{
    appended, invalidated, latest_in, rejects, replay, replay_ordered, seq_error, EventLog, ThreadLogView,
};
use crate::text::{decimal_text, is_blank, push_decimal, text_is_blank};

verus! {

/// One committed line of the store's file.
pub enum JsonlRuntimeRecord {
    Event { event: AgentRuntimeEvent },
    EventBatch { events: Vec<AgentRuntimeEvent> },
    ThreadInvalidated { thread_id: ThreadId, latest_seq: u64 },
}

/// Latest seq of thread `id` once the events `prefix` follow the log `m`.
pub open spec fn batch_latest(m: Map<ThreadId, ThreadLogView>, prefix: Seq<EventView>, id: ThreadId) -> u64
    decreases prefix.len(),
{
    if prefix.len() == 0 {
        latest_in(m, id)
    } else if prefix.last().thread_id == id {
        prefix.last().seq
    } else {
        batch_latest(m, prefix.drop_last(), id)
    }
}

/// Why the batch `events` cannot be appended after `m`, if it cannot: the
/// first event that does not advance its thread, counting the batch's own
/// earlier events.
pub open spec fn batch_rejects(m: Map<ThreadId, ThreadLogView>, events: Seq<EventView>) -> Option<ErrorView>
    decreases events.len(),
{
    if events.len() == 0 {
        None
    } else {
        match batch_rejects(m, events.drop_last()) {
            Some(e) => Some(e),
            None => {
                let e = events.last();
                let latest = batch_latest(m, events.drop_last(), e.thread_id);
                if e.seq <= latest {
                    Some(seq_error(e.thread_id, e.seq, latest))
                } else {
                    None
                }
            },
        }
    }
}

/// The log after each of `events` is recorded in order (unbounded).
pub open spec fn appended_all(m: Map<ThreadId, ThreadLogView>, events: Seq<EventView>) -> Map<ThreadId, ThreadLogView>
    decreases events.len(),
{
    if events.len() == 0 {
        m
    } else {
        appended(appended_all(m, events.drop_last()), events.last(), None)
    }
}

/// The view of a record.
pub enum RecordView {
    Event { event: EventView },
    EventBatch { events: Seq<EventView> },
    ThreadInvalidated { thread_id: ThreadId, latest_seq: u64 },
}

impl View for JsonlRuntimeRecord {
    type V = RecordView;

    open spec fn view(&self) -> RecordView {
        match self {
            JsonlRuntimeRecord::Event { event } => RecordView::Event { event: event@ },
            JsonlRuntimeRecord::EventBatch { events } => RecordView::EventBatch { events: seq_view(events@) },
            JsonlRuntimeRecord::ThreadInvalidated { thread_id, latest_seq } => RecordView::ThreadInvalidated {
                thread_id: *thread_id,
                latest_seq: *latest_seq,
            },
        }
    }
}

/// Effect of replaying one record: events are validated and then recorded;
/// an invalidation always applies.
pub open spec fn record_effect(m: Map<ThreadId, ThreadLogView>, r: RecordView) -> (
    Map<ThreadId, ThreadLogView>,
    Option<ErrorView>,
) {
    match r {
        RecordView::Event { event } => match rejects(m, event) {
            Some(e) => (m, Some(e)),
            None => (appended(m, event, None), None),
        },
        RecordView::EventBatch { events } => match batch_rejects(m, events) {
            Some(e) => (m, Some(e)),
            None => (appended_all(m, events), None),
        },
        RecordView::ThreadInvalidated { thread_id, latest_seq } => (invalidated(m, thread_id, latest_seq), None),
    }
}

proof fn lemma_batch_prefix(m: Map<ThreadId, ThreadLogView>, events: Seq<EventView>, i: int)
    requires
        0 <= i <= events.len(),
        batch_rejects(m, events).is_none(),
    ensures
        batch_rejects(m, events.take(i)).is_none(),
    decreases events.len() - i,
{
    if i < events.len() {
        lemma_batch_prefix(m, events, i + 1);
        assert(events.take(i + 1).drop_last() =~= events.take(i));
    } else {
        assert(events.take(i) =~= events);
    }
}

/// Applying a batch prefix leaves each thread at the batch's running latest seq.
proof fn lemma_appended_all_latest(m: Map<ThreadId, ThreadLogView>, events: Seq<EventView>, id: ThreadId)
    ensures
        latest_in(appended_all(m, events), id) == batch_latest(m, events, id),
    decreases events.len(),
{
    if events.len() > 0 {
        lemma_appended_all_latest(m, events.drop_last(), id);
    }
}

proof fn lemma_batch_error_extends(m: Map<ThreadId, ThreadLogView>, events: Seq<EventView>, i: int)
    requires
        0 <= i <= events.len(),
        batch_rejects(m, events.take(i)).is_some(),
    ensures
        batch_rejects(m, events) == batch_rejects(m, events.take(i)),
    decreases events.len() - i,
{
    if i < events.len() {
        assert(events.take(i + 1).drop_last() =~= events.take(i));
        lemma_batch_error_extends(m, events, i + 1);
    } else {
        assert(events.take(i) =~= events);
    }
}

/// Replayed per-thread state of the durable store.
pub struct JsonlEventStoreState {
    log: EventLog,
}

impl JsonlEventStoreState {
    pub closed spec fn wf(&self) -> bool {
        self.log.wf()
    }

    /// The kept threads.
    pub closed spec fn threads(&self) -> Map<ThreadId, ThreadLogView> {
        self.log@
    }

    /// The state of a store with no records.
    pub fn new() -> (r: Self)
        ensures
            r.wf(),
            r.threads() == Map::<ThreadId, ThreadLogView>::empty(),
    {
        JsonlEventStoreState { log: EventLog::new() }
    }

    /// Whether `event` may be appended; see [`rejects`].
    pub fn validate_event(&self, event: &AgentRuntimeEvent) -> (r: Result<(), AgentRuntimeError>)
        requires
            self.wf(),
        ensures
            match r {
                Ok(_) => rejects(self.threads(), event@).is_none(),
                Err(e) => rejects(self.threads(), event@) == Some(e@),
            },
    {
        self.log.validate_event(event)
    }

    /// Whether the batch `events` may be appended; see [`batch_rejects`].
    pub fn validate_events(&self, events: &Vec<AgentRuntimeEvent>) -> (r: Result<(), AgentRuntimeError>)
        requires
            self.wf(),
        ensures
            match r {
                Ok(_) => batch_rejects(self.threads(), seq_view(events@)).is_none(),
                Err(e) => batch_rejects(self.threads(), seq_view(events@)) == Some(e@),
            },
    {
        let ghost m = self.threads();
        let ghost es = seq_view(events@);
        let mut i: usize = 0;
        while i < events.len()
            invariant
                i <= events.len(),
                self.wf(),
                m == self.threads(),
                es == seq_view(events@),
                batch_rejects(m, es.take(i as int)).is_none(),
            decreases events.len() - i,
        {
            let id = events[i].thread_id;
            let mut latest = self.log.latest_seq(id);
            let mut j: usize = 0;
            while j < i
                invariant
                    j <= i < events.len(),
                    es == seq_view(events@),
                    id == es[i as int].thread_id,
                    latest == batch_latest(m, es.take(j as int), id),
                decreases i - j,
            {
                proof {
                    assert(es.take(j + 1).drop_last() =~= es.take(j as int));
                }
                if events[j].thread_id == id {
                    latest = events[j].seq;
                }
                j = j + 1;
            }
            proof {
                assert(es.take(i + 1).drop_last() =~= es.take(i as int));
            }
            if events[i].seq <= latest {
                let e = crate::store::seq_error_message(id, events[i].seq, latest);
                proof {
                    lemma_batch_error_extends(m, es, i + 1);
                }
                return Err(e);
            }
            i = i + 1;
        }
        proof {
            assert(es.take(es.len() as int) =~= es);
        }
        Ok(())
    }

    /// Records `event` (validated) as its thread's latest.
    pub fn apply_event(&mut self, event: AgentRuntimeEvent)
        requires
            old(self).wf(),
            rejects(old(self).threads(), event@).is_none(),
        ensures
            final(self).wf(),
            final(self).threads() == appended(old(self).threads(), event@, None),
    {
        self.log.record(event, None);
    }

    /// Records every event of the (validated) batch, in order.
    pub fn apply_events(&mut self, events: Vec<AgentRuntimeEvent>)
        requires
            old(self).wf(),
            batch_rejects(old(self).threads(), seq_view(events@)).is_none(),
        ensures
            final(self).wf(),
            final(self).threads() == appended_all(old(self).threads(), seq_view(events@)),
    {
        let ghost m = self.threads();
        let ghost es = seq_view(events@);
        let mut i: usize = 0;
        while i < events.len()
            invariant
                i <= events.len(),
                self.wf(),
                es == seq_view(events@),
                batch_rejects(m, es).is_none(),
                self.threads() == appended_all(m, es.take(i as int)),
            decreases events.len() - i,
        {
            let e = events[i].duplicate();
            proof {
                lemma_batch_prefix(m, es, i + 1);
                assert(es.take(i + 1).drop_last() =~= es.take(i as int));
                lemma_appended_all_latest(m, es.take(i as int), e@.thread_id);
            }
            self.log.record(e, None);
            i = i + 1;
        }
        proof {
            assert(es.take(es.len() as int) =~= es);
        }
    }

    /// Replays one committed record; see [`record_effect`].
    pub fn apply_record(&mut self, record: JsonlRuntimeRecord) -> (r: Result<(), AgentRuntimeError>)
        requires
            old(self).wf(),
        ensures
            final(self).wf(),
            final(self).threads() == record_effect(old(self).threads(), record@).0,
            match r {
                Ok(_) => record_effect(old(self).threads(), record@).1.is_none(),
                Err(e) => record_effect(old(self).threads(), record@).1 == Some(e@),
            },
    {
        match record {
            JsonlRuntimeRecord::Event { event } => {
                self.validate_event(&event)?;
                self.apply_event(event);
            },
            JsonlRuntimeRecord::EventBatch { events } => {
                self.validate_events(&events)?;
                self.apply_events(events);
            },
            JsonlRuntimeRecord::ThreadInvalidated { thread_id, latest_seq } => {
                self.invalidate_thread(thread_id, latest_seq);
            },
        }
        Ok(())
    }

    /// Replay from `cursor`; see [`replay`].
    pub fn events_after(&self, cursor: RuntimeCursor) -> (r: Result<Vec<AgentRuntimeEvent>, AgentRuntimeError>)
        requires
            self.wf(),
        ensures
            events_res(r) == replay(self.threads(), cursor),
    {
        self.log.events_after(cursor)
    }

    /// Every retained event, ordered by thread id and then by seq.
    pub fn all_events(&self) -> (r: Vec<AgentRuntimeEvent>)
        requires
            self.wf(),
        ensures
            forall|i: int, j: int|
                0 <= i < j < r.len() ==> replay_ordered(#[trigger] r@[i]@, #[trigger] r@[j]@),
            forall|e: EventView|
                seq_view(r@).contains(e) <==> exists|id: ThreadId| #[trigger] self.threads().contains_key(id)
                    && self.threads()[id].events.contains(e),
    {
        let r = self.log.all_events();
        proof {
            assert forall|e: EventView|
                seq_view(r@).contains(e) <==> exists|id: ThreadId| #[trigger] self.threads().contains_key(id)
                    && self.threads()[id].events.contains(e) by {
                if seq_view(r@).contains(e) {
                    let id = choose|id: ThreadId| #[trigger] self.log@.contains_key(id) && self.log@[id].events.contains(e);
                    assert(self.threads().contains_key(id));
                }
                if exists|id: ThreadId| #[trigger] self.threads().contains_key(id) && self.threads()[id].events.contains(e) {
                    let id = choose|id: ThreadId| #[trigger] self.threads().contains_key(id) && self.threads()[id].events.contains(e);
                    assert(self.log@.contains_key(id));
                }
            }
        }
        r
    }

    /// Drops thread `thread_id`'s replay and sets its latest seq; see [`invalidated`].
    pub fn invalidate_thread(&mut self, thread_id: ThreadId, latest_seq: u64)
        requires
            old(self).wf(),
        ensures
            final(self).wf(),
            final(self).threads() == invalidated(old(self).threads(), thread_id, latest_seq),
    {
        self.log.invalidate_thread(thread_id, latest_seq);
    }
}

impl Default for JsonlEventStoreState {
    fn default() -> (r: Self)
        ensures
            r.wf(),
            r.threads() == Map::<ThreadId, ThreadLogView>::empty(),
    {
        JsonlEventStoreState::new()
    }
}

/// How replay treats one line read from the store's file.
#[derive(Debug, Clone, Copy, PartialEq, Eq, Structural)]
pub enum LineKind {
    /// Nothing but white space: skipped.
    Blank,
    /// A record whose write was not finished: no trailing newline.
    Unterminated,
    /// A committed record, to be parsed and applied.
    Record,
}

/// The kind of `line`, as read up to and including its newline.
pub open spec fn line_kind(line: Seq<char>) -> LineKind {
    if is_blank(line) {
        LineKind::Blank
    } else if line.last() != '\n' {
        LineKind::Unterminated
    } else {
        LineKind::Record
    }
}

/// Classifies one line read from the store's file; see [`line_kind`].
pub fn classify_line(line: &str) -> (k: LineKind)
    ensures
        k == line_kind(line@),
{
    if text_is_blank(line) {
        return LineKind::Blank;
    }
    let n = line.unicode_len();
    if line.get_char(n - 1) != '\n' {
        LineKind::Unterminated
    } else {
        LineKind::Record
    }
}

/// The replay failure at line `line_number` of `path`, with `detail`.
pub open spec fn replay_failure(path: Seq<char>, line_number: u64, detail: Seq<char>) -> ErrorView {
    ErrorView::ProjectionFailed {
        message: "failed to replay runtime events from "@ + path + " at line "@ + decimal_text(line_number as nat)
            + ": "@ + detail,
    }
}

/// The replay failure for a last line whose record was not committed.
pub open spec fn unterminated_failure(path: Seq<char>, line_number: u64) -> ErrorView {
    ErrorView::ProjectionFailed {
        message: "failed to replay runtime events from "@ + path + " at final line "@ + decimal_text(
            line_number as nat,
        ) + ": record missing trailing newline"@,
    }
}

/// The error for line `line_number` of `path`; see [`replay_failure`].
pub fn replay_error(path: &str, line_number: u64, detail: &str) -> (e: AgentRuntimeError)
    ensures
        e@ == replay_failure(path@, line_number, detail@),
{
    let mut message = String::from_str("failed to replay runtime events from ");
    message.append(path);
    message.append(" at line ");
    push_decimal(&mut message, line_number);
    message.append(": ");
    message.append(detail);
    AgentRuntimeError::ProjectionFailed { message }
}

/// The error for an uncommitted last line; see [`unterminated_failure`].
pub fn unterminated_error(path: &str, line_number: u64) -> (e: AgentRuntimeError)
    ensures
        e@ == unterminated_failure(path@, line_number),
{
    let mut message = String::from_str("failed to replay runtime events from ");
    message.append(path);
    message.append(" at final line ");
    push_decimal(&mut message, line_number);
    message.append(": record missing trailing newline");
    AgentRuntimeError::ProjectionFailed { message }
}

} // verus!
