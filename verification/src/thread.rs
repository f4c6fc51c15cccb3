//! Projection of one chat thread: the state machine that turns runtime
//! activity (turns, messages, tools, approvals, human interactions, reasoning,
//! plans, diffs) into snapshots and sequenced semantic events.

use vstd::prelude::*;
use vstd::string::*;

use crate::domain::{
    spec_is_terminal, is_terminal, AgentToolResult, ApprovalDecision, ApprovalRequest,
    ApprovalSnapshot, ApprovalStatus, ApprovalView, ChatMessage, ChatMessageView, DiffSnapshot,
    DiffView, HumanInteractionRequest, HumanInteractionResponse, HumanInteractionSnapshot,
    HumanInteractionStatus, InteractionView, MessageSnapshot, MessageStatus, MessageView,
    PlanSnapshot, PlanView, ReasoningSnapshot, ReasoningView, ThreadSnapshot, ThreadView,
    ToolExecutionSnapshot, ToolStatus, ToolUpdatePayload, ToolView, TurnSnapshot, TurnStatus,
    TurnView,
};
use crate::dup::{
    lemma_seq_view_empty, lemma_seq_view_push, lemma_seq_view_subrange, lemma_seq_view_update,
    append_duplicates, opt_view, res_view, seq_view, Duplicate,
};
use crate::error::{AgentRuntimeError, ErrorView};
use crate::event::{event_view, AgentRuntimeEvent, AgentRuntimeEventPayload, EventView, PayloadView};
use crate::find::{
    first_index, lemma_first_index_absent, lemma_first_index_found, lemma_first_index_push,
    lemma_first_index_spec, lemma_first_index_update,
};
use crate::ids::{MessageId, RuntimeCursor, ThreadId, TurnId};

verus! {

/// Projection state of one thread: its snapshot, the retained replay buffer,
/// and the ordinals for the next turn and message ids.
pub struct ThreadState {
    snapshot: ThreadSnapshot,
    events: Vec<AgentRuntimeEvent>,
    replay_capacity: usize,
    next_turn_ordinal: u64,
    next_message_ordinal: u64,
}

#[verifier::ext_equal]
pub struct ThreadStateView {
    pub snapshot: ThreadView,
    pub events: Seq<EventView>,
    pub replay_capacity: usize,
    pub next_turn_ordinal: u64,
    pub next_message_ordinal: u64,
}

impl View for ThreadState {
    type V = ThreadStateView;

    closed spec fn view(&self) -> ThreadStateView {
        ThreadStateView {
            snapshot: self.snapshot@,
            events: seq_view(self.events@),
            replay_capacity: self.replay_capacity,
            next_turn_ordinal: self.next_turn_ordinal,
            next_message_ordinal: self.next_message_ordinal,
        }
    }
}

/// The turn queued by [`ThreadState::queue_turn`] with the events it emitted.
#[derive(Debug, Clone)]
pub struct TurnProjection {
    pub turn_id: TurnId,
    pub events: Vec<AgentRuntimeEvent>,
}

/// A message started by [`ThreadState::start_message`] with its event.
#[derive(Debug, Clone)]
pub struct MessageProjection {
    pub message_id: MessageId,
    pub event: AgentRuntimeEvent,
}

// ---------------------------------------------------------------------------
// Specification of the projection.
/// Replay buffer after retaining `e`: nothing is kept when the capacity is 0,
/// otherwise the newest `cap` events.
pub open spec fn retain_replay(events: Seq<EventView>, e: EventView, cap: usize) -> Seq<
    EventView,
> {
    if cap == 0 {
        events
    } else {
        let s = events.push(e);
        if s.len() > cap {
            s.subrange(s.len() - cap, s.len() as int)
        } else {
            s
        }
    }
}

pub open spec fn with_snapshot(t: ThreadStateView, snapshot: ThreadView) -> ThreadStateView {
    ThreadStateView { snapshot, ..t }
}

/// Emits the next event of the thread: `last_seq` grows by one and the event
/// is retained for replay.
pub open spec fn record_event(
    t: ThreadStateView,
    turn_id: Option<TurnId>,
    payload: PayloadView,
    now: i64,
) -> (ThreadStateView, EventView) {
    let seq = (t.snapshot.last_seq + 1) as u64;
    let e = event_view(seq, t.snapshot.thread_id, turn_id, payload, now);
    (
        ThreadStateView {
            snapshot: ThreadView { last_seq: seq, ..t.snapshot },
            events: retain_replay(t.events, e, t.replay_capacity),
            ..t
        },
        e,
    )
}

/// The replay buffer of a thread: at most `replay_capacity` of the thread's
/// events, in strictly increasing sequence order, none after its latest.
pub open spec fn replay_kept(t: ThreadStateView) -> bool {
    &&& t.events.len() <= t.replay_capacity
    &&& forall|i: int, j: int| 0 <= i < j < t.events.len() ==> (#[trigger] t.events[i]).seq < (#[trigger] t.events[j]).seq
    &&& forall|i: int| 0 <= i < t.events.len() ==> (#[trigger] t.events[i]).seq <= t.snapshot.last_seq
        && t.events[i].thread_id == t.snapshot.thread_id
}

/// Recording an event keeps the replay buffer in shape.
pub broadcast proof fn lemma_record_keeps_replay(t: ThreadStateView, turn_id: Option<TurnId>, payload: PayloadView, now: i64)
    requires
        replay_kept(t),
        t.snapshot.last_seq < u64::MAX,
    ensures
        #[trigger] replay_kept(record_event(t, turn_id, payload, now).0),
{
    let (t2, e) = record_event(t, turn_id, payload, now);
    if t.replay_capacity > 0 {
        let s = t.events.push(e);
        assert forall|i: int, j: int| 0 <= i < j < s.len() implies (#[trigger] s[i]).seq < (#[trigger] s[j]).seq by {
            if j == s.len() - 1 {
                assert(s[i] == t.events[i]);
            } else {
                assert(s[i] == t.events[i] && s[j] == t.events[j]);
            }
        }
        assert forall|i: int| 0 <= i < s.len() implies (#[trigger] s[i]).seq <= t2.snapshot.last_seq && s[i].thread_id
            == t2.snapshot.thread_id by {
            if i < t.events.len() {
                assert(s[i] == t.events[i]);
            }
        }
        if s.len() > t.replay_capacity {
            let off = s.len() - t.replay_capacity;
            let k = s.subrange(off, s.len() as int);
            assert forall|i: int, j: int| 0 <= i < j < k.len() implies (#[trigger] k[i]).seq < (#[trigger] k[j]).seq by {
                assert(k[i] == s[off + i] && k[j] == s[off + j]);
            }
            assert forall|i: int| 0 <= i < k.len() implies (#[trigger] k[i]).seq <= t2.snapshot.last_seq && k[i].thread_id
                == t2.snapshot.thread_id by {
                assert(k[i] == s[off + i]);
            }
        }
    }
}

pub open spec fn turn_is(id: TurnId) -> spec_fn(TurnView) -> bool {
    |t: TurnView| t.turn_id == id
}

/// Position of the turn `id` in the thread (the first match), or -1.
pub open spec fn turn_index(t: ThreadStateView, id: TurnId) -> int {
    first_index(t.snapshot.turns, turn_is(id))
}

/// The error for a turn id minted under another thread revision.
pub open spec fn stale_turn_error(t: ThreadStateView, id: TurnId) -> ErrorView {
    ErrorView::StaleRuntime {
        thread_id: t.snapshot.thread_id,
        requested_seq: id.revision,
        oldest_available_seq: t.snapshot.revision,
        latest_seq: t.snapshot.revision,
    }
}

/// Why turn `id` cannot be looked up, if it cannot.
pub open spec fn turn_lookup_error(t: ThreadStateView, id: TurnId) -> Option<ErrorView> {
    if id.revision != t.snapshot.revision {
        Some(stale_turn_error(t, id))
    } else if turn_index(t, id) < 0 {
        Some(ErrorView::TurnNotFound { turn_id: id })
    } else {
        None
    }
}

/// Why turn `id` cannot take projection updates, if it cannot.
pub open spec fn projectable_error(t: ThreadStateView, id: TurnId) -> Option<ErrorView> {
    match turn_lookup_error(t, id) {
        Some(e) => Some(e),
        None => {
            let turn = t.snapshot.turns[turn_index(t, id)];
            if spec_is_terminal(turn.status) {
                Some(ErrorView::AlreadyTerminal { turn_id: id, status: turn.status })
            } else {
                None
            }
        },
    }
}

pub open spec fn set_turn(t: ThreadStateView, i: int, turn: TurnView) -> ThreadStateView {
    with_snapshot(t, ThreadView { turns: t.snapshot.turns.update(i, turn), ..t.snapshot })
}

/// Effect of `start_turn`: a queued turn becomes running and active.
pub open spec fn start_turn_spec(t: ThreadStateView, id: TurnId, now: i64) -> (
    ThreadStateView,
    Result<EventView, ErrorView>,
) {
    match turn_lookup_error(t, id) {
        Some(e) => (t, Err(e)),
        None => {
            let i = turn_index(t, id);
            let turn = t.snapshot.turns[i];
            if spec_is_terminal(turn.status) {
                (t, Err(ErrorView::AlreadyTerminal { turn_id: id, status: turn.status }))
            } else if turn.status == TurnStatus::Running {
                (
                    t,
                    Err(
                        ErrorView::ProjectionFailed {
                            message: "turn already running: "@ + id.text(),
                        },
                    ),
                )
            } else {
                let started = TurnView {
                    status: TurnStatus::Running,
                    started_at: Some(now),
                    ..turn
                };
                let t1 = with_snapshot(
                    t,
                    ThreadView {
                        turns: t.snapshot.turns.update(i, started),
                        active_turn_id: Some(id),
                        ..t.snapshot
                    },
                );
                let (t2, e) = record_event(t1, Some(id), PayloadView::TurnStarted { turn: started }, now);
                (t2, Ok(e))
            }
        },
    }
}

/// A pending approval of turn `id` once the turn is canceled.
pub open spec fn cancel_approval_if_pending(a: ApprovalView, id: TurnId, now: i64) -> ApprovalView {
    if a.turn_id == id && a.status == ApprovalStatus::Pending {
        ApprovalView {
            status: ApprovalStatus::Canceled,
            decision: Some(ApprovalDecision::Cancel),
            resolved_at: Some(now),
            ..a
        }
    } else {
        a
    }
}

pub open spec fn cancel_pending_approval_views(
    approvals: Seq<ApprovalView>,
    id: TurnId,
    now: i64,
) -> Seq<ApprovalView> {
    approvals.map_values(|a: ApprovalView| cancel_approval_if_pending(a, id, now))
}

/// The event payload that reports a turn reaching a terminal status.
pub open spec fn terminal_payload(status: TurnStatus, turn: TurnView, error: Option<Seq<char>>) -> PayloadView {
    match status {
        TurnStatus::Completed => PayloadView::TurnCompleted { turn },
        TurnStatus::Failed => PayloadView::TurnFailed { turn, error: error.unwrap() },
        _ => PayloadView::TurnCanceled { turn },
    }
}

/// Effect of completing, failing, or canceling turn `id`.
pub open spec fn terminal_turn_spec(
    t: ThreadStateView,
    id: TurnId,
    status: TurnStatus,
    error: Option<Seq<char>>,
    now: i64,
) -> (ThreadStateView, Result<EventView, ErrorView>) {
    match turn_lookup_error(t, id) {
        Some(e) => (t, Err(e)),
        None => {
            let i = turn_index(t, id);
            let turn = t.snapshot.turns[i];
            if spec_is_terminal(turn.status) {
                (t, Err(ErrorView::AlreadyTerminal { turn_id: id, status: turn.status }))
            } else {
                let done = TurnView { status, completed_at: Some(now), error, ..turn };
                let t1 = with_snapshot(
                    t,
                    ThreadView {
                        turns: t.snapshot.turns.update(i, done),
                        active_turn_id: if t.snapshot.active_turn_id == Some(id) {
                            None
                        } else {
                            t.snapshot.active_turn_id
                        },
                        approvals: if status == TurnStatus::Canceled {
                            cancel_pending_approval_views(t.snapshot.approvals, id, now)
                        } else {
                            t.snapshot.approvals
                        },
                        ..t.snapshot
                    },
                );
                let (t2, e) = record_event(t1, Some(id), terminal_payload(status, done, error), now);
                (t2, Ok(e))
            }
        },
    }
}


/// Events of `s` whose sequence number is greater than `seq`, in order.
pub open spec fn events_newer_than(s: Seq<EventView>, seq: u64) -> Seq<EventView>
    decreases s.len(),
{
    if s.len() == 0 {
        Seq::empty()
    } else {
        let r = events_newer_than(s.drop_last(), seq);
        if s.last().seq > seq {
            r.push(s.last())
        } else {
            r
        }
    }
}

/// Sequence number of the oldest retained event, or the next one when none is retained.
pub open spec fn oldest_available_seq(t: ThreadStateView) -> u64 {
    if t.events.len() > 0 {
        t.events[0].seq
    } else {
        (t.snapshot.last_seq + 1) as u64
    }
}

pub open spec fn saturating_dec(v: u64) -> u64 {
    if v == 0 {
        0
    } else {
        (v - 1) as u64
    }
}

/// Replay from `cursor`: the retained events after it, unless the cursor is for
/// another thread or older than what is retained.
pub open spec fn events_after_spec(t: ThreadStateView, cursor: RuntimeCursor) -> Result<
    Seq<EventView>,
    ErrorView,
> {
    if cursor.thread_id != t.snapshot.thread_id {
        Err(ErrorView::ThreadNotFound { thread_id: cursor.thread_id })
    } else if cursor.seq < saturating_dec(oldest_available_seq(t)) {
        Err(
            ErrorView::StaleRuntime {
                thread_id: t.snapshot.thread_id,
                requested_seq: cursor.seq,
                oldest_available_seq: oldest_available_seq(t),
                latest_seq: t.snapshot.last_seq,
            },
        )
    } else {
        Ok(events_newer_than(t.events, cursor.seq))
    }
}

/// Largest ordinal among the turns of `thread_id` (0 when there is none).
pub open spec fn max_turn_ordinal(turns: Seq<TurnView>, thread_id: ThreadId) -> nat
    decreases turns.len(),
{
    if turns.len() == 0 {
        0
    } else {
        let m = max_turn_ordinal(turns.drop_last(), thread_id);
        let last = turns.last().turn_id;
        if last.thread_id == thread_id && last.ordinal > m {
            last.ordinal as nat
        } else {
            m
        }
    }
}

/// Largest ordinal among the messages of `thread_id` (0 when there is none).
pub open spec fn max_message_ordinal(messages: Seq<MessageView>, thread_id: ThreadId) -> nat
    decreases messages.len(),
{
    if messages.len() == 0 {
        0
    } else {
        let m = max_message_ordinal(messages.drop_last(), thread_id);
        let last = messages.last().message_id;
        if last.thread_id == thread_id && last.ordinal > m {
            last.ordinal as nat
        } else {
            m
        }
    }
}

/// A projection resumed from an imported snapshot: no replay is retained and
/// new ids continue after the largest ordinals of the thread.
pub open spec fn from_snapshot_spec(snapshot: ThreadView, replay_capacity: usize) -> ThreadStateView {
    ThreadStateView {
        snapshot,
        events: Seq::empty(),
        replay_capacity,
        next_turn_ordinal: (max_turn_ordinal(snapshot.turns, snapshot.thread_id) + 1) as u64,
        next_message_ordinal: (max_message_ordinal(snapshot.messages, snapshot.thread_id)
            + 1) as u64,
    }
}

/// Id of the `k`-th (0-based) message minted after a history reset.
pub open spec fn bootstrap_message_id(thread_id: ThreadId, revision: u64, k: int) -> MessageId {
    MessageId { thread_id, revision, ordinal: (k + 1) as u64 }
}

/// Effect of replacing the thread history by `messages`: the revision grows,
/// everything projected so far is dropped together with the replay buffer, and
/// the messages become one completed turn (when there are any).
pub open spec fn bootstrap_spec(t: ThreadStateView, messages: Seq<ChatMessageView>, now: i64) -> ThreadStateView {
    let thread_id = t.snapshot.thread_id;
    let revision = (t.snapshot.revision + 1) as u64;
    let base = ThreadStateView {
        snapshot: ThreadView {
            thread_id,
            revision,
            last_seq: (t.snapshot.last_seq + 1) as u64,
            active_turn_id: None,
            turns: Seq::empty(),
            messages: Seq::empty(),
            tools: Seq::empty(),
            approvals: Seq::empty(),
            human_interactions: Seq::empty(),
            reasoning: Seq::empty(),
            plans: Seq::empty(),
            diffs: Seq::empty(),
        },
        events: Seq::empty(),
        replay_capacity: t.replay_capacity,
        next_turn_ordinal: 1,
        next_message_ordinal: 1,
    };
    if messages.len() == 0 {
        base
    } else {
        let turn_id = TurnId { thread_id, revision, ordinal: 1 };
        let ids = Seq::new(messages.len(), |k: int| bootstrap_message_id(thread_id, revision, k));
        let imported = Seq::new(
            messages.len(),
            |k: int|
                MessageView {
                    message_id: bootstrap_message_id(thread_id, revision, k),
                    thread_id,
                    turn_id,
                    status: MessageStatus::Completed,
                    payload: messages[k],
                    created_at: now,
                    completed_at: Some(now),
                },
        );
        let turn = TurnView {
            turn_id,
            thread_id,
            status: TurnStatus::Completed,
            message_ids: ids,
            active_tool_call_ids: Seq::empty(),
            error: None,
            queued_at: now,
            started_at: Some(now),
            completed_at: Some(now),
        };
        ThreadStateView {
            snapshot: ThreadView { turns: seq![turn], messages: imported, ..base.snapshot },
            next_turn_ordinal: 2,
            next_message_ordinal: (messages.len() + 1) as u64,
            ..base
        }
    }
}

pub open spec fn message_is(id: MessageId) -> spec_fn(MessageView) -> bool {
    |m: MessageView| m.message_id == id
}

/// Position of message `id` in the thread (first match), or -1.
pub open spec fn message_index(t: ThreadStateView, id: MessageId) -> int {
    first_index(t.snapshot.messages, message_is(id))
}

/// The id the thread mints for its next message.
pub open spec fn next_message_id(t: ThreadStateView) -> MessageId {
    MessageId {
        thread_id: t.snapshot.thread_id,
        revision: t.snapshot.revision,
        ordinal: t.next_message_ordinal,
    }
}

/// Appends a streaming message `m` to turn `turn_id` (found as its first match).
pub open spec fn add_streaming_message(t: ThreadStateView, turn_id: TurnId, m: ChatMessageView, now: i64) -> ThreadStateView {
    let mid = next_message_id(t);
    let started = MessageView {
        message_id: mid,
        thread_id: t.snapshot.thread_id,
        turn_id,
        status: MessageStatus::Streaming,
        payload: m,
        created_at: now,
        completed_at: None,
    };
    let ti = turn_index(t, turn_id);
    let turn = t.snapshot.turns[ti];
    ThreadStateView {
        snapshot: ThreadView {
            messages: t.snapshot.messages.push(started),
            turns: t.snapshot.turns.update(ti, TurnView { message_ids: turn.message_ids.push(mid), ..turn }),
            ..t.snapshot
        },
        next_message_ordinal: (t.next_message_ordinal + 1) as u64,
        ..t
    }
}

/// One input message of a queued turn: it starts streaming and completes at once.
pub open spec fn queue_message_step(t: ThreadStateView, turn_id: TurnId, m: ChatMessageView, now: i64) -> (
    ThreadStateView,
    Seq<EventView>,
) {
    let mid = next_message_id(t);
    let t1 = add_streaming_message(t, turn_id, m, now);
    let mi = message_index(t1, mid);
    let (t2, e1) = record_event(t1, Some(turn_id), PayloadView::MessageStarted { message: t1.snapshot.messages[mi] }, now);
    let done = MessageView {
        status: MessageStatus::Completed,
        completed_at: Some(now),
        ..t2.snapshot.messages[mi]
    };
    let t3 = with_snapshot(t2, ThreadView { messages: t2.snapshot.messages.update(mi, done), ..t2.snapshot });
    let (t4, e2) = record_event(t3, Some(turn_id), PayloadView::MessageCompleted { message: done }, now);
    (t4, seq![e1, e2])
}

pub open spec fn queue_messages(t: ThreadStateView, turn_id: TurnId, msgs: Seq<ChatMessageView>, now: i64) -> (
    ThreadStateView,
    Seq<EventView>,
)
    decreases msgs.len(),
{
    if msgs.len() == 0 {
        (t, Seq::empty())
    } else {
        let (t1, es1) = queue_messages(t, turn_id, msgs.drop_last(), now);
        let (t2, es2) = queue_message_step(t1, turn_id, msgs.last(), now);
        (t2, es1 + es2)
    }
}

/// The id the thread mints for its next turn.
pub open spec fn next_turn_id(t: ThreadStateView) -> TurnId {
    TurnId {
        thread_id: t.snapshot.thread_id,
        revision: t.snapshot.revision,
        ordinal: t.next_turn_ordinal,
    }
}

/// A queued turn with no messages yet.
pub open spec fn queued_turn(t: ThreadStateView, now: i64) -> TurnView {
    TurnView {
        turn_id: next_turn_id(t),
        thread_id: t.snapshot.thread_id,
        status: TurnStatus::Queued,
        message_ids: Seq::empty(),
        active_tool_call_ids: Seq::empty(),
        error: None,
        queued_at: now,
        started_at: None,
        completed_at: None,
    }
}

/// The thread with a new queued turn appended; it becomes active when no turn is.
pub open spec fn add_queued_turn(t: ThreadStateView, now: i64) -> ThreadStateView {
    let id = next_turn_id(t);
    ThreadStateView {
        snapshot: ThreadView {
            turns: t.snapshot.turns.push(queued_turn(t, now)),
            active_turn_id: if t.snapshot.active_turn_id.is_none() {
                Some(id)
            } else {
                t.snapshot.active_turn_id
            },
            ..t.snapshot
        },
        next_turn_ordinal: (t.next_turn_ordinal + 1) as u64,
        ..t
    }
}

/// Effect of queueing a turn with `input` messages: the turn, then each message
/// started and completed, every step emitting its event.
pub open spec fn queue_turn_spec(t: ThreadStateView, input: Seq<ChatMessageView>, now: i64) -> (
    ThreadStateView,
    TurnId,
    Seq<EventView>,
) {
    let id = next_turn_id(t);
    let t1 = add_queued_turn(t, now);
    let (t2, e0) = record_event(t1, Some(id), PayloadView::TurnQueued { turn: t1.snapshot.turns[turn_index(t1, id)] }, now);
    let (t3, es) = queue_messages(t2, id, input, now);
    (t3, id, seq![e0] + es)
}

/// Room left for `queue_turn` with `n` input messages without counter overflow.
pub open spec fn can_queue_turn(t: ThreadStateView, n: nat) -> bool {
    &&& t.next_turn_ordinal < u64::MAX
    &&& t.snapshot.last_seq + 1 + 2 * n <= u64::MAX
    &&& t.next_message_ordinal + n <= u64::MAX
}


/// Effect of starting a streaming message in turn `turn_id`.
pub open spec fn start_message_spec(t: ThreadStateView, turn_id: TurnId, m: ChatMessageView, now: i64) -> (
    ThreadStateView,
    Result<(MessageId, EventView), ErrorView>,
) {
    match projectable_error(t, turn_id) {
        Some(e) => (t, Err(e)),
        None => {
            let mid = next_message_id(t);
            let t1 = add_streaming_message(t, turn_id, m, now);
            let mi = message_index(t1, mid);
            let (t2, e) = record_event(t1, Some(turn_id), PayloadView::MessageStarted { message: t1.snapshot.messages[mi] }, now);
            (t2, Ok((mid, e)))
        },
    }
}

pub open spec fn message_not_found(id: MessageId) -> ErrorView {
    ErrorView::ProjectionFailed { message: "message not found: "@ + id.text() }
}

/// Effect of replacing the payload of message `id` (and completing it when `complete`).
pub open spec fn change_message_spec(
    t: ThreadStateView,
    id: MessageId,
    m: ChatMessageView,
    complete: bool,
    now: i64,
) -> (ThreadStateView, Result<EventView, ErrorView>) {
    let mi = message_index(t, id);
    if mi < 0 {
        (t, Err(message_not_found(id)))
    } else {
        let old_message = t.snapshot.messages[mi];
        let turn_id = old_message.turn_id;
        match projectable_error(t, turn_id) {
            Some(e) => (t, Err(e)),
            None => {
                let changed = if complete {
                    MessageView {
                        payload: m,
                        status: MessageStatus::Completed,
                        completed_at: Some(now),
                        ..old_message
                    }
                } else {
                    MessageView { payload: m, ..old_message }
                };
                let t1 = with_snapshot(t, ThreadView { messages: t.snapshot.messages.update(mi, changed), ..t.snapshot });
                let payload = if complete {
                    PayloadView::MessageCompleted { message: changed }
                } else {
                    PayloadView::MessageUpdated { message: changed }
                };
                let (t2, e) = record_event(t1, Some(turn_id), payload, now);
                (t2, Ok(e))
            },
        }
    }
}

pub open spec fn tool_is(turn_id: TurnId, call_id: Seq<char>) -> spec_fn(ToolView) -> bool {
    |x: ToolView| x.turn_id == turn_id && x.tool_call_id == call_id
}

pub open spec fn tool_index(t: ThreadStateView, turn_id: TurnId, call_id: Seq<char>) -> int {
    first_index(t.snapshot.tools, tool_is(turn_id, call_id))
}

/// Effect of starting tool call `call_id` in turn `turn_id`.
pub open spec fn start_tool_spec(
    t: ThreadStateView,
    turn_id: TurnId,
    call_id: Seq<char>,
    name: Seq<char>,
    args: Seq<char>,
    now: i64,
) -> (ThreadStateView, Result<EventView, ErrorView>) {
    match projectable_error(t, turn_id) {
        Some(e) => (t, Err(e)),
        None => {
            if tool_index(t, turn_id, call_id) >= 0 {
                (t, Err(ErrorView::ProjectionFailed { message: "tool already started: "@ + call_id }))
            } else {
                let tool = ToolView {
                    tool_call_id: call_id,
                    thread_id: t.snapshot.thread_id,
                    turn_id,
                    tool_name: name,
                    args,
                    status: ToolStatus::Running,
                    partial_result: None,
                    final_result: None,
                    started_at: now,
                    completed_at: None,
                };
                let ti = turn_index(t, turn_id);
                let turn = t.snapshot.turns[ti];
                let t1 = with_snapshot(
                    t,
                    ThreadView {
                        tools: t.snapshot.tools.push(tool),
                        turns: t.snapshot.turns.update(
                            ti,
                            TurnView { active_tool_call_ids: turn.active_tool_call_ids.push(call_id), ..turn },
                        ),
                        ..t.snapshot
                    },
                );
                let (t2, e) = record_event(
                    t1,
                    Some(turn_id),
                    PayloadView::ToolStarted { tool: t1.snapshot.tools[tool_index(t1, turn_id, call_id)] },
                    now,
                );
                (t2, Ok(e))
            }
        },
    }
}

pub open spec fn tool_not_found(call_id: Seq<char>) -> ErrorView {
    ErrorView::ProjectionFailed { message: "tool not found: "@ + call_id }
}

/// `ids` without any occurrence of `x`.
pub open spec fn without(ids: Seq<Seq<char>>, x: Seq<char>) -> Seq<Seq<char>>
    decreases ids.len(),
{
    if ids.len() == 0 {
        Seq::empty()
    } else {
        let r = without(ids.drop_last(), x);
        if ids.last() == x {
            r
        } else {
            r.push(ids.last())
        }
    }
}

/// Effect of a streaming update of tool call `call_id`.
pub open spec fn update_tool_spec(
    t: ThreadStateView,
    turn_id: TurnId,
    call_id: Seq<char>,
    partial: crate::domain::ToolUpdateView,
    now: i64,
) -> (ThreadStateView, Result<EventView, ErrorView>) {
    match projectable_error(t, turn_id) {
        Some(e) => (t, Err(e)),
        None => {
            let k = tool_index(t, turn_id, call_id);
            if k < 0 {
                (t, Err(tool_not_found(call_id)))
            } else {
                let tool = ToolView { partial_result: Some(partial), ..t.snapshot.tools[k] };
                let t1 = with_snapshot(t, ThreadView { tools: t.snapshot.tools.update(k, tool), ..t.snapshot });
                let (t2, e) = record_event(t1, Some(turn_id), PayloadView::ToolUpdated { tool }, now);
                (t2, Ok(e))
            }
        },
    }
}

/// Effect of completing tool call `call_id`: it leaves the turn's active tools.
pub open spec fn complete_tool_spec(
    t: ThreadStateView,
    turn_id: TurnId,
    call_id: Seq<char>,
    result: crate::domain::ToolResultView,
    now: i64,
) -> (ThreadStateView, Result<EventView, ErrorView>) {
    match projectable_error(t, turn_id) {
        Some(e) => (t, Err(e)),
        None => {
            let k = tool_index(t, turn_id, call_id);
            if k < 0 {
                (t, Err(tool_not_found(call_id)))
            } else {
                let tool = ToolView {
                    status: ToolStatus::Completed,
                    final_result: Some(result),
                    completed_at: Some(now),
                    ..t.snapshot.tools[k]
                };
                let ti = turn_index(t, turn_id);
                let turn = t.snapshot.turns[ti];
                let t1 = with_snapshot(
                    t,
                    ThreadView {
                        tools: t.snapshot.tools.update(k, tool),
                        turns: t.snapshot.turns.update(
                            ti,
                            TurnView { active_tool_call_ids: without(turn.active_tool_call_ids, call_id), ..turn },
                        ),
                        ..t.snapshot
                    },
                );
                let (t2, e) = record_event(t1, Some(turn_id), PayloadView::ToolCompleted { tool }, now);
                (t2, Ok(e))
            }
        },
    }
}

pub open spec fn approval_is(turn_id: TurnId, id: Seq<char>) -> spec_fn(ApprovalView) -> bool {
    |a: ApprovalView| a.turn_id == turn_id && a.request.id == id
}

pub open spec fn approval_index(t: ThreadStateView, turn_id: TurnId, id: Seq<char>) -> int {
    first_index(t.snapshot.approvals, approval_is(turn_id, id))
}

/// Effect of raising approval `request` in turn `turn_id`.
pub open spec fn require_approval_spec(
    t: ThreadStateView,
    turn_id: TurnId,
    request: crate::domain::ApprovalRequestView,
    now: i64,
) -> (ThreadStateView, Result<EventView, ErrorView>) {
    match projectable_error(t, turn_id) {
        Some(e) => (t, Err(e)),
        None => {
            if approval_index(t, turn_id, request.id) >= 0 {
                (t, Err(ErrorView::ProjectionFailed { message: "approval already requested: "@ + request.id }))
            } else {
                let approval = ApprovalView {
                    request,
                    thread_id: t.snapshot.thread_id,
                    turn_id,
                    status: ApprovalStatus::Pending,
                    decision: None,
                    requested_at: now,
                    resolved_at: None,
                };
                let t1 = with_snapshot(t, ThreadView { approvals: t.snapshot.approvals.push(approval), ..t.snapshot });
                let (t2, e) = record_event(
                    t1,
                    Some(turn_id),
                    PayloadView::ApprovalRequired { approval: t1.snapshot.approvals[approval_index(t1, turn_id, request.id)] },
                    now,
                );
                (t2, Ok(e))
            }
        },
    }
}

/// Effect of settling approval `id`: resolved with `decision`, or canceled
/// (`decision == None`, recorded as `Cancel`).
pub open spec fn settle_approval_spec(
    t: ThreadStateView,
    turn_id: TurnId,
    id: Seq<char>,
    decision: Option<ApprovalDecision>,
    now: i64,
) -> (ThreadStateView, Result<EventView, ErrorView>) {
    match projectable_error(t, turn_id) {
        Some(e) => (t, Err(e)),
        None => {
            let k = approval_index(t, turn_id, id);
            if k < 0 {
                (t, Err(ErrorView::ProjectionFailed { message: "approval not found: "@ + id }))
            } else {
                let approval = match decision {
                    Some(d) => ApprovalView {
                        status: ApprovalStatus::Resolved,
                        decision: Some(d),
                        resolved_at: Some(now),
                        ..t.snapshot.approvals[k]
                    },
                    None => ApprovalView {
                        status: ApprovalStatus::Canceled,
                        decision: Some(ApprovalDecision::Cancel),
                        resolved_at: Some(now),
                        ..t.snapshot.approvals[k]
                    },
                };
                let t1 = with_snapshot(t, ThreadView { approvals: t.snapshot.approvals.update(k, approval), ..t.snapshot });
                let payload = match decision {
                    Some(_) => PayloadView::ApprovalResolved { approval },
                    None => PayloadView::ApprovalCanceled { approval },
                };
                let (t2, e) = record_event(t1, Some(turn_id), payload, now);
                (t2, Ok(e))
            }
        },
    }
}

/// Request ids of the pending approvals of turn `turn_id`, in order.
pub open spec fn pending_approval_ids(approvals: Seq<ApprovalView>, turn_id: TurnId) -> Seq<Seq<char>>
    decreases approvals.len(),
{
    if approvals.len() == 0 {
        Seq::empty()
    } else {
        let r = pending_approval_ids(approvals.drop_last(), turn_id);
        let a = approvals.last();
        if a.turn_id == turn_id && a.status == ApprovalStatus::Pending {
            r.push(a.request.id)
        } else {
            r
        }
    }
}

/// Cancels the approvals `ids` of turn `turn_id` one after the other, stopping at an error.
pub open spec fn cancel_approvals_fold(t: ThreadStateView, turn_id: TurnId, ids: Seq<Seq<char>>, now: i64) -> (
    ThreadStateView,
    Result<Seq<EventView>, ErrorView>,
)
    decreases ids.len(),
{
    if ids.len() == 0 {
        (t, Ok(Seq::empty()))
    } else {
        let (t1, r1) = cancel_approvals_fold(t, turn_id, ids.drop_last(), now);
        match r1 {
            Err(e) => (t1, Err(e)),
            Ok(es) => {
                let (t2, r2) = settle_approval_spec(t1, turn_id, ids.last(), None, now);
                match r2 {
                    Err(e) => (t2, Err(e)),
                    Ok(ev) => (t2, Ok(es.push(ev))),
                }
            },
        }
    }
}

/// Effect of canceling every pending approval of turn `turn_id`.
pub open spec fn cancel_pending_approvals_spec(t: ThreadStateView, turn_id: TurnId, now: i64) -> (
    ThreadStateView,
    Result<Seq<EventView>, ErrorView>,
) {
    match projectable_error(t, turn_id) {
        Some(e) => (t, Err(e)),
        None => cancel_approvals_fold(t, turn_id, pending_approval_ids(t.snapshot.approvals, turn_id), now),
    }
}

pub open spec fn interaction_is(turn_id: TurnId, id: u128) -> spec_fn(InteractionView) -> bool {
    |h: InteractionView| h.turn_id == turn_id && h.request.request_id == id
}

pub open spec fn interaction_index(t: ThreadStateView, turn_id: TurnId, id: u128) -> int {
    first_index(t.snapshot.human_interactions, interaction_is(turn_id, id))
}

/// Effect of putting `request` to the human in turn `turn_id`.
pub open spec fn request_interaction_spec(
    t: ThreadStateView,
    turn_id: TurnId,
    request: crate::domain::HumanInteractionRequestView,
    now: i64,
) -> (ThreadStateView, Result<EventView, ErrorView>) {
    match projectable_error(t, turn_id) {
        Some(e) => (t, Err(e)),
        None => {
            if interaction_index(t, turn_id, request.request_id) >= 0 {
                (
                    t,
                    Err(
                        ErrorView::ProjectionFailed {
                            message: "human interaction already requested: "@ + crate::text::uuid_text(
                                request.request_id,
                            ),
                        },
                    ),
                )
            } else {
                let interaction = InteractionView {
                    request,
                    thread_id: t.snapshot.thread_id,
                    turn_id,
                    status: HumanInteractionStatus::Pending,
                    response: None,
                    error: None,
                    requested_at: now,
                    resolved_at: None,
                };
                let t1 = with_snapshot(
                    t,
                    ThreadView { human_interactions: t.snapshot.human_interactions.push(interaction), ..t.snapshot },
                );
                let (t2, e) = record_event(
                    t1,
                    Some(turn_id),
                    PayloadView::HumanInteractionRequested {
                        interaction: t1.snapshot.human_interactions[interaction_index(t1, turn_id, request.request_id)],
                    },
                    now,
                );
                (t2, Ok(e))
            }
        },
    }
}

/// Effect of settling interaction `id`: resolved with `response`, or canceled
/// with `reason` when `response == None`.
pub open spec fn settle_interaction_spec(
    t: ThreadStateView,
    turn_id: TurnId,
    id: u128,
    response: Option<crate::domain::HumanInteractionResponseView>,
    reason: Option<Seq<char>>,
    now: i64,
) -> (ThreadStateView, Result<EventView, ErrorView>) {
    match projectable_error(t, turn_id) {
        Some(e) => (t, Err(e)),
        None => {
            let k = interaction_index(t, turn_id, id);
            if k < 0 {
                (
                    t,
                    Err(
                        ErrorView::ProjectionFailed {
                            message: "human interaction not found: "@ + crate::text::uuid_text(id),
                        },
                    ),
                )
            } else {
                let interaction = match response {
                    Some(resp) => InteractionView {
                        status: HumanInteractionStatus::Resolved,
                        response: Some(resp),
                        error: None,
                        resolved_at: Some(now),
                        ..t.snapshot.human_interactions[k]
                    },
                    None => InteractionView {
                        status: HumanInteractionStatus::Canceled,
                        error: reason,
                        resolved_at: Some(now),
                        ..t.snapshot.human_interactions[k]
                    },
                };
                let t1 = with_snapshot(
                    t,
                    ThreadView { human_interactions: t.snapshot.human_interactions.update(k, interaction), ..t.snapshot },
                );
                let payload = match response {
                    Some(_) => PayloadView::HumanInteractionResolved { interaction },
                    None => PayloadView::HumanInteractionCanceled { interaction },
                };
                let (t2, e) = record_event(t1, Some(turn_id), payload, now);
                (t2, Ok(e))
            }
        },
    }
}

/// Request ids of the pending human interactions of turn `turn_id`, in order.
pub open spec fn pending_interaction_ids(hs: Seq<InteractionView>, turn_id: TurnId) -> Seq<u128>
    decreases hs.len(),
{
    if hs.len() == 0 {
        Seq::empty()
    } else {
        let r = pending_interaction_ids(hs.drop_last(), turn_id);
        let h = hs.last();
        if h.turn_id == turn_id && h.status == HumanInteractionStatus::Pending {
            r.push(h.request.request_id)
        } else {
            r
        }
    }
}

/// Cancels the interactions `ids` of turn `turn_id` one after the other, stopping at an error.
pub open spec fn cancel_interactions_fold(t: ThreadStateView, turn_id: TurnId, ids: Seq<u128>, now: i64) -> (
    ThreadStateView,
    Result<Seq<EventView>, ErrorView>,
)
    decreases ids.len(),
{
    if ids.len() == 0 {
        (t, Ok(Seq::empty()))
    } else {
        let (t1, r1) = cancel_interactions_fold(t, turn_id, ids.drop_last(), now);
        match r1 {
            Err(e) => (t1, Err(e)),
            Ok(es) => {
                let (t2, r2) = settle_interaction_spec(t1, turn_id, ids.last(), None, None, now);
                match r2 {
                    Err(e) => (t2, Err(e)),
                    Ok(ev) => (t2, Ok(es.push(ev))),
                }
            },
        }
    }
}

/// Effect of canceling every pending human interaction of turn `turn_id`.
pub open spec fn cancel_pending_interactions_spec(t: ThreadStateView, turn_id: TurnId, now: i64) -> (
    ThreadStateView,
    Result<Seq<EventView>, ErrorView>,
) {
    match projectable_error(t, turn_id) {
        Some(e) => (t, Err(e)),
        None => cancel_interactions_fold(t, turn_id, pending_interaction_ids(t.snapshot.human_interactions, turn_id), now),
    }
}

pub open spec fn reasoning_is(turn_id: TurnId, message_id: Option<MessageId>) -> spec_fn(ReasoningView) -> bool {
    |r: ReasoningView| r.turn_id == turn_id && r.message_id == message_id
}

pub open spec fn reasoning_index(t: ThreadStateView, turn_id: TurnId, message_id: Option<MessageId>) -> int {
    first_index(t.snapshot.reasoning, reasoning_is(turn_id, message_id))
}

/// Why reasoning cannot be attached to `message_id` in turn `turn_id`, if it cannot.
pub open spec fn reasoning_message_error(t: ThreadStateView, turn_id: TurnId, message_id: Option<MessageId>) -> Option<ErrorView> {
    match message_id {
        None => None,
        Some(mid) => {
            let mi = message_index(t, mid);
            if mi < 0 {
                Some(message_not_found(mid))
            } else if t.snapshot.messages[mi].turn_id != turn_id {
                Some(
                    ErrorView::ProjectionFailed {
                        message: "message "@ + mid.text() + " does not belong to turn "@ + turn_id.text(),
                    },
                )
            } else {
                None
            }
        },
    }
}

/// Effect of appending `delta` to the reasoning of turn `turn_id` (and message `message_id`).
pub open spec fn update_reasoning_spec(
    t: ThreadStateView,
    turn_id: TurnId,
    message_id: Option<MessageId>,
    delta: Seq<char>,
    now: i64,
) -> (ThreadStateView, Result<EventView, ErrorView>) {
    match projectable_error(t, turn_id) {
        Some(e) => (t, Err(e)),
        None => match reasoning_message_error(t, turn_id, message_id) {
            Some(e) => (t, Err(e)),
            None => {
                let k = reasoning_index(t, turn_id, message_id);
                let reasoning = if k >= 0 {
                    t.snapshot.reasoning.update(
                        k,
                        ReasoningView {
                            text: t.snapshot.reasoning[k].text + delta,
                            updated_at: now,
                            ..t.snapshot.reasoning[k]
                        },
                    )
                } else {
                    t.snapshot.reasoning.push(
                        ReasoningView {
                            thread_id: t.snapshot.thread_id,
                            turn_id,
                            message_id,
                            text: delta,
                            updated_at: now,
                        },
                    )
                };
                let t1 = with_snapshot(t, ThreadView { reasoning, ..t.snapshot });
                let (t2, e) = record_event(
                    t1,
                    Some(turn_id),
                    PayloadView::ReasoningUpdated {
                        reasoning: reasoning[reasoning_index(t1, turn_id, message_id)],
                        delta,
                    },
                    now,
                );
                (t2, Ok(e))
            },
        },
    }
}

pub open spec fn plan_is(turn_id: TurnId) -> spec_fn(PlanView) -> bool {
    |p: PlanView| p.turn_id == turn_id
}

pub open spec fn diff_is(turn_id: TurnId) -> spec_fn(DiffView) -> bool {
    |d: DiffView| d.turn_id == turn_id
}

/// Effect of replacing the plan of turn `turn_id`.
pub open spec fn update_plan_spec(t: ThreadStateView, turn_id: TurnId, plan: Seq<char>, now: i64) -> (
    ThreadStateView,
    Result<EventView, ErrorView>,
) {
    match projectable_error(t, turn_id) {
        Some(e) => (t, Err(e)),
        None => {
            let k = first_index(t.snapshot.plans, plan_is(turn_id));
            let plans = if k >= 0 {
                t.snapshot.plans.update(k, PlanView { plan, updated_at: now, ..t.snapshot.plans[k] })
            } else {
                t.snapshot.plans.push(PlanView { thread_id: t.snapshot.thread_id, turn_id, plan, updated_at: now })
            };
            let t1 = with_snapshot(t, ThreadView { plans, ..t.snapshot });
            let (t2, e) = record_event(
                t1,
                Some(turn_id),
                PayloadView::PlanUpdated { plan: plans[first_index(plans, plan_is(turn_id))] },
                now,
            );
            (t2, Ok(e))
        },
    }
}

/// Effect of replacing the diff of turn `turn_id`.
pub open spec fn update_diff_spec(t: ThreadStateView, turn_id: TurnId, diff: Seq<char>, now: i64) -> (
    ThreadStateView,
    Result<EventView, ErrorView>,
) {
    match projectable_error(t, turn_id) {
        Some(e) => (t, Err(e)),
        None => {
            let k = first_index(t.snapshot.diffs, diff_is(turn_id));
            let diffs = if k >= 0 {
                t.snapshot.diffs.update(k, DiffView { diff, updated_at: now, ..t.snapshot.diffs[k] })
            } else {
                t.snapshot.diffs.push(DiffView { thread_id: t.snapshot.thread_id, turn_id, diff, updated_at: now })
            };
            let t1 = with_snapshot(t, ThreadView { diffs, ..t.snapshot });
            let (t2, e) = record_event(
                t1,
                Some(turn_id),
                PayloadView::DiffUpdated { diff: diffs[first_index(diffs, diff_is(turn_id))] },
                now,
            );
            (t2, Ok(e))
        },
    }
}

proof fn lemma_without_step(ids: Seq<Seq<char>>, i: int, x: Seq<char>)
    requires
        0 <= i < ids.len(),
    ensures
        without(ids.take(i + 1), x) == if ids[i] == x {
            without(ids.take(i), x)
        } else {
            without(ids.take(i), x).push(ids[i])
        },
{
    assert(ids.take(i + 1).drop_last() =~= ids.take(i));
}

proof fn lemma_pending_approval_ids_step(approvals: Seq<ApprovalView>, i: int, turn_id: TurnId)
    requires
        0 <= i < approvals.len(),
    ensures
        pending_approval_ids(approvals.take(i + 1), turn_id) == if approvals[i].turn_id == turn_id
            && approvals[i].status == ApprovalStatus::Pending {
            pending_approval_ids(approvals.take(i), turn_id).push(approvals[i].request.id)
        } else {
            pending_approval_ids(approvals.take(i), turn_id)
        },
{
    assert(approvals.take(i + 1).drop_last() =~= approvals.take(i));
}

proof fn lemma_pending_interaction_ids_step(hs: Seq<InteractionView>, i: int, turn_id: TurnId)
    requires
        0 <= i < hs.len(),
    ensures
        pending_interaction_ids(hs.take(i + 1), turn_id) == if hs[i].turn_id == turn_id
            && hs[i].status == HumanInteractionStatus::Pending {
            pending_interaction_ids(hs.take(i), turn_id).push(hs[i].request.request_id)
        } else {
            pending_interaction_ids(hs.take(i), turn_id)
        },
{
    assert(hs.take(i + 1).drop_last() =~= hs.take(i));
}

proof fn lemma_cancel_approvals_fold_err(t: ThreadStateView, turn_id: TurnId, ids: Seq<Seq<char>>, k: int, now: i64)
    requires
        0 <= k <= ids.len(),
        cancel_approvals_fold(t, turn_id, ids.take(k), now).1 is Err,
    ensures
        cancel_approvals_fold(t, turn_id, ids, now) == cancel_approvals_fold(t, turn_id, ids.take(k), now),
    decreases ids.len() - k,
{
    if k < ids.len() {
        assert(ids.take(k + 1).drop_last() =~= ids.take(k));
        lemma_cancel_approvals_fold_err(t, turn_id, ids, k + 1, now);
    } else {
        assert(ids.take(k) =~= ids);
    }
}

proof fn lemma_cancel_interactions_fold_err(t: ThreadStateView, turn_id: TurnId, ids: Seq<u128>, k: int, now: i64)
    requires
        0 <= k <= ids.len(),
        cancel_interactions_fold(t, turn_id, ids.take(k), now).1 is Err,
    ensures
        cancel_interactions_fold(t, turn_id, ids, now) == cancel_interactions_fold(t, turn_id, ids.take(k), now),
    decreases ids.len() - k,
{
    if k < ids.len() {
        assert(ids.take(k + 1).drop_last() =~= ids.take(k));
        lemma_cancel_interactions_fold_err(t, turn_id, ids, k + 1, now);
    } else {
        assert(ids.take(k) =~= ids);
    }
}

proof fn lemma_pending_approval_ids_len(approvals: Seq<ApprovalView>, turn_id: TurnId)
    ensures
        pending_approval_ids(approvals, turn_id).len() <= approvals.len(),
    decreases approvals.len(),
{
    if approvals.len() > 0 {
        lemma_pending_approval_ids_len(approvals.drop_last(), turn_id);
    }
}

proof fn lemma_pending_interaction_ids_len(hs: Seq<InteractionView>, turn_id: TurnId)
    ensures
        pending_interaction_ids(hs, turn_id).len() <= hs.len(),
    decreases hs.len(),
{
    if hs.len() > 0 {
        lemma_pending_interaction_ids_len(hs.drop_last(), turn_id);
    }
}

proof fn lemma_cancel_approvals_fold_keeps_replay(t: ThreadStateView, turn_id: TurnId, ids: Seq<Seq<char>>, now: i64)
    requires
        replay_kept(t),
        t.snapshot.last_seq + ids.len() <= u64::MAX,
    ensures
        ({
            let t2 = cancel_approvals_fold(t, turn_id, ids, now).0;
            &&& replay_kept(t2)
            &&& t2.snapshot.last_seq <= t.snapshot.last_seq + ids.len()
            &&& t2.snapshot.human_interactions == t.snapshot.human_interactions
        }),
    decreases ids.len(),
{
    broadcast use lemma_record_keeps_replay;

    if ids.len() > 0 {
        lemma_cancel_approvals_fold_keeps_replay(t, turn_id, ids.drop_last(), now);
    }
}

proof fn lemma_cancel_interactions_fold_keeps_replay(t: ThreadStateView, turn_id: TurnId, ids: Seq<u128>, now: i64)
    requires
        replay_kept(t),
        t.snapshot.last_seq + ids.len() <= u64::MAX,
    ensures
        ({
            let t2 = cancel_interactions_fold(t, turn_id, ids, now).0;
            &&& replay_kept(t2)
            &&& t2.snapshot.last_seq <= t.snapshot.last_seq + ids.len()
        }),
    decreases ids.len(),
{
    broadcast use lemma_record_keeps_replay;

    if ids.len() > 0 {
        lemma_cancel_interactions_fold_keeps_replay(t, turn_id, ids.drop_last(), now);
    }
}

/// Canceling a turn's pending approvals keeps the replay buffer in shape,
/// spending at most one sequence number per approval.
pub proof fn lemma_cancel_approvals_keeps_replay(t: ThreadStateView, turn_id: TurnId, now: i64)
    requires
        replay_kept(t),
        t.snapshot.last_seq + t.snapshot.approvals.len() <= u64::MAX,
    ensures
        ({
            let t2 = cancel_pending_approvals_spec(t, turn_id, now).0;
            &&& replay_kept(t2)
            &&& t2.snapshot.last_seq <= t.snapshot.last_seq + t.snapshot.approvals.len()
            &&& t2.snapshot.human_interactions == t.snapshot.human_interactions
        }),
{
    lemma_pending_approval_ids_len(t.snapshot.approvals, turn_id);
    lemma_cancel_approvals_fold_keeps_replay(t, turn_id, pending_approval_ids(t.snapshot.approvals, turn_id), now);
}

/// Canceling a turn's pending human interactions keeps the replay buffer in
/// shape, spending at most one sequence number per interaction.
pub proof fn lemma_cancel_interactions_keeps_replay(t: ThreadStateView, turn_id: TurnId, now: i64)
    requires
        replay_kept(t),
        t.snapshot.last_seq + t.snapshot.human_interactions.len() <= u64::MAX,
    ensures
        ({
            let t2 = cancel_pending_interactions_spec(t, turn_id, now).0;
            &&& replay_kept(t2)
            &&& t2.snapshot.last_seq <= t.snapshot.last_seq + t.snapshot.human_interactions.len()
        }),
{
    lemma_pending_interaction_ids_len(t.snapshot.human_interactions, turn_id);
    lemma_cancel_interactions_fold_keeps_replay(
        t,
        turn_id,
        pending_interaction_ids(t.snapshot.human_interactions, turn_id),
        now,
    );
}

proof fn lemma_queue_messages_keep_replay(t: ThreadStateView, id: TurnId, msgs: Seq<ChatMessageView>, now: i64)
    requires
        replay_kept(t),
        turn_index(t, id) >= 0,
        t.snapshot.last_seq + 2 * msgs.len() <= u64::MAX,
        t.next_message_ordinal + msgs.len() <= u64::MAX,
    ensures
        replay_kept(queue_messages(t, id, msgs, now).0),
    decreases msgs.len(),
{
    broadcast use lemma_record_keeps_replay;

    if msgs.len() > 0 {
        lemma_queue_messages_keep_replay(t, id, msgs.drop_last(), now);
        lemma_queue_messages(t, id, msgs.drop_last(), now);
    }
}

/// Queueing a turn keeps the replay buffer in shape.
pub proof fn lemma_queue_turn_keeps_replay(t: ThreadStateView, input: Seq<ChatMessageView>, now: i64)
    requires
        replay_kept(t),
        can_queue_turn(t, input.len()),
    ensures
        replay_kept(queue_turn_spec(t, input, now).0),
{
    broadcast use lemma_record_keeps_replay;

    let id = next_turn_id(t);
    let t1 = add_queued_turn(t, now);
    lemma_first_index_push(t.snapshot.turns, queued_turn(t, now), turn_is(id));
    lemma_first_index_spec(t.snapshot.turns, turn_is(id));
    let (t2, e0) = record_event(t1, Some(id), PayloadView::TurnQueued { turn: t1.snapshot.turns[turn_index(t1, id)] }, now);
    assert(replay_kept(t2));
    lemma_queue_messages_keep_replay(t2, id, input, now);
}

pub proof fn lemma_events_newer_than_step(s: Seq<EventView>, i: int, seq: u64)
    requires
        0 <= i < s.len(),
    ensures
        events_newer_than(s.take(i + 1), seq) == if s[i].seq > seq {
            events_newer_than(s.take(i), seq).push(s[i])
        } else {
            events_newer_than(s.take(i), seq)
        },
{
    assert(s.take(i + 1).drop_last() =~= s.take(i));
}

proof fn lemma_max_turn_step(turns: Seq<TurnView>, i: int, thread_id: ThreadId)
    requires
        0 <= i < turns.len(),
    ensures
        max_turn_ordinal(turns.take(i + 1), thread_id) == {
            let m = max_turn_ordinal(turns.take(i), thread_id);
            let last = turns[i].turn_id;
            if last.thread_id == thread_id && last.ordinal > m {
                last.ordinal as nat
            } else {
                m
            }
        },
{
    assert(turns.take(i + 1).drop_last() =~= turns.take(i));
}

proof fn lemma_max_message_step(messages: Seq<MessageView>, i: int, thread_id: ThreadId)
    requires
        0 <= i < messages.len(),
    ensures
        max_message_ordinal(messages.take(i + 1), thread_id) == {
            let m = max_message_ordinal(messages.take(i), thread_id);
            let last = messages[i].message_id;
            if last.thread_id == thread_id && last.ordinal > m {
                last.ordinal as nat
            } else {
                m
            }
        },
{
    assert(messages.take(i + 1).drop_last() =~= messages.take(i));
}

/// What queueing messages keeps and what it counts.
pub proof fn lemma_queue_messages(t: ThreadStateView, id: TurnId, msgs: Seq<ChatMessageView>, now: i64)
    requires
        turn_index(t, id) >= 0,
        t.snapshot.last_seq + 2 * msgs.len() <= u64::MAX,
        t.next_message_ordinal + msgs.len() <= u64::MAX,
    ensures
        ({
            let (t2, es) = queue_messages(t, id, msgs, now);
            &&& t2.snapshot.last_seq == t.snapshot.last_seq + 2 * msgs.len()
            &&& t2.next_message_ordinal == t.next_message_ordinal + msgs.len()
            &&& t2.next_turn_ordinal == t.next_turn_ordinal
            &&& turn_index(t2, id) == turn_index(t, id)
            &&& es.len() == 2 * msgs.len()
            &&& t2.snapshot.thread_id == t.snapshot.thread_id
            &&& t2.snapshot.revision == t.snapshot.revision
            &&& t2.replay_capacity == t.replay_capacity
            &&& t2.snapshot.turns.len() == t.snapshot.turns.len()
            &&& t2.snapshot.active_turn_id == t.snapshot.active_turn_id
        }),
    decreases msgs.len(),
{
    if msgs.len() > 0 {
        lemma_queue_messages(t, id, msgs.drop_last(), now);
        let (t1, es1) = queue_messages(t, id, msgs.drop_last(), now);
        lemma_first_index_spec(t1.snapshot.turns, turn_is(id));
        let ti = turn_index(t1, id);
        let turn = t1.snapshot.turns[ti];
        lemma_first_index_update(
            t1.snapshot.turns,
            ti,
            TurnView { message_ids: turn.message_ids.push(next_message_id(t1)), ..turn },
            turn_is(id),
        );
    }
}

/// A thread with nothing projected yet: revision 0, no events, and the first
/// turn and message ordinals still to be minted.
pub open spec fn empty_thread(thread_id: ThreadId, replay_capacity: usize) -> ThreadStateView {
    ThreadStateView {
        snapshot: ThreadView {
            thread_id,
            revision: 0,
            last_seq: 0,
            active_turn_id: None,
            turns: Seq::empty(),
            messages: Seq::empty(),
            tools: Seq::empty(),
            approvals: Seq::empty(),
            human_interactions: Seq::empty(),
            reasoning: Seq::empty(),
            plans: Seq::empty(),
            diffs: Seq::empty(),
        },
        events: Seq::empty(),
        replay_capacity,
        next_turn_ordinal: 1,
        next_message_ordinal: 1,
    }
}

// ---------------------------------------------------------------------------
// Implementation.
impl ThreadState {
    /// An empty thread projection.
    pub fn new(thread_id: ThreadId, replay_capacity: usize) -> (r: Self)
        ensures
            r@.snapshot.thread_id == thread_id,
            r@.snapshot.revision == 0,
            r@.snapshot.last_seq == 0,
            r@.snapshot.active_turn_id.is_none(),
            r@.snapshot.turns.len() == 0,
            r@.snapshot.messages.len() == 0,
            r@.snapshot.tools.len() == 0,
            r@.snapshot.approvals.len() == 0,
            r@.snapshot.human_interactions.len() == 0,
            r@.snapshot.reasoning.len() == 0,
            r@.snapshot.plans.len() == 0,
            r@.snapshot.diffs.len() == 0,
            r@.events.len() == 0,
            r@.replay_capacity == replay_capacity,
            r@.next_turn_ordinal == 1,
            r@.next_message_ordinal == 1,
            r@ == empty_thread(thread_id, replay_capacity),
    {
        ThreadState {
            snapshot: ThreadSnapshot {
                thread_id,
                revision: 0,
                last_seq: 0,
                active_turn_id: None,
                turns: Vec::new(),
                messages: Vec::new(),
                tools: Vec::new(),
                approvals: Vec::new(),
                human_interactions: Vec::new(),
                reasoning: Vec::new(),
                plans: Vec::new(),
                diffs: Vec::new(),
            },
            events: Vec::new(),
            replay_capacity,
            next_turn_ordinal: 1,
            next_message_ordinal: 1,
        }
    }

    /// The thread's id.
    pub fn thread_id(&self) -> (r: ThreadId)
        ensures
            r == self@.snapshot.thread_id,
    {
        self.snapshot.thread_id
    }

    /// The configured replay capacity.
    pub fn replay_capacity(&self) -> (r: usize)
        ensures
            r == self@.replay_capacity,
    {
        self.replay_capacity
    }

    /// A copy of the thread snapshot.
    pub fn read_snapshot(&self) -> (r: ThreadSnapshot)
        ensures
            r@ == self@.snapshot,
    {
        self.snapshot.duplicate()
    }

    /// Emits the next event; see [`record_event`].
    fn record(
        &mut self,
        turn_id: Option<TurnId>,
        payload: AgentRuntimeEventPayload,
        now: i64,
    ) -> (e: AgentRuntimeEvent)
        requires
            old(self)@.snapshot.last_seq < u64::MAX,
        ensures
            final(self)@ == record_event(old(self)@, turn_id, payload@, now).0,
            e@ == record_event(old(self)@, turn_id, payload@, now).1,
    {
        let ghost old_events = seq_view(self.events@);
        self.snapshot.last_seq = self.snapshot.last_seq + 1;
        let event = AgentRuntimeEvent::new(
            self.snapshot.last_seq,
            self.snapshot.thread_id,
            turn_id,
            payload,
            now,
        );
        if self.replay_capacity > 0 {
            let ghost ev = event@;
            self.events.push(event.duplicate());
            proof {
                lemma_seq_view_push(self.events@.drop_last(), self.events@.last());
                assert(self.events@.drop_last() =~= old(self).events@);
                assert(seq_view(self.events@) == old_events.push(ev));
            }
            let ghost s = old_events.push(ev);
            let ghost snap = self.snapshot@;
            while self.events.len() > self.replay_capacity
                invariant
                    self.snapshot@ == snap,
                    self.next_turn_ordinal == old(self).next_turn_ordinal,
                    self.next_message_ordinal == old(self).next_message_ordinal,
                    self.replay_capacity > 0,
                    self.replay_capacity == old(self).replay_capacity,
                    1 <= self.events.len() <= s.len(),
                    self.events.len() >= self.replay_capacity || self.events.len() == s.len(),
                    seq_view(self.events@) == s.subrange(
                        s.len() - self.events.len(),
                        s.len() as int,
                    ),
                decreases self.events.len(),
            {
                let ghost before = self.events@;
                self.events.remove(0);
                proof {
                    assert(self.events@ =~= before.subrange(1, before.len() as int));
                    lemma_seq_view_subrange(before, 1, before.len() as int);
                    assert(seq_view(self.events@) =~= s.subrange(
                        s.len() - self.events.len(),
                        s.len() as int,
                    ));
                }
            }
            proof {
                if s.len() <= self.replay_capacity {
                    assert(s.subrange(0, s.len() as int) =~= s);
                }
            }
        }
        proof {
            let t2 = record_event(old(self)@, turn_id, payload@, now).0;
            assert(self@.snapshot =~= t2.snapshot);
            assert(self@.events =~= t2.events);
            assert(self@ =~= t2);
        }
        event
    }

    /// Position of turn `id` (first match).
    fn find_turn(&self, id: TurnId) -> (r: Option<usize>)
        ensures
            match r {
                Some(i) => i == turn_index(self@, id),
                None => turn_index(self@, id) == -1,
            },
    {
        let mut i: usize = 0;
        while i < self.snapshot.turns.len()
            invariant
                i <= self.snapshot.turns.len(),
                forall|j: int| 0 <= j < i ==> !turn_is(id)(self@.snapshot.turns[j]),
            decreases self.snapshot.turns.len() - i,
        {
            if self.snapshot.turns[i].turn_id == id {
                proof {
                    lemma_first_index_found(self@.snapshot.turns, turn_is(id), i as int);
                }
                return Some(i);
            }
            i = i + 1;
        }
        proof {
            lemma_first_index_absent(self@.snapshot.turns, turn_is(id));
        }
        None
    }

    fn stale_turn(&self, id: TurnId) -> (e: AgentRuntimeError)
        ensures
            e@ == stale_turn_error(self@, id),
    {
        AgentRuntimeError::StaleRuntime {
            thread_id: self.snapshot.thread_id,
            requested_seq: id.revision,
            oldest_available_seq: self.snapshot.revision,
            latest_seq: self.snapshot.revision,
        }
    }

    /// Looks turn `id` up under the current revision.
    fn turn_lookup(&self, id: TurnId) -> (r: Result<usize, AgentRuntimeError>)
        ensures
            match r {
                Ok(i) => turn_lookup_error(self@, id).is_none() && i == turn_index(self@, id),
                Err(e) => turn_lookup_error(self@, id) == Some(e@),
            },
    {
        if id.revision != self.snapshot.revision {
            return Err(self.stale_turn(id));
        }
        match self.find_turn(id) {
            Some(i) => Ok(i),
            None => Err(AgentRuntimeError::TurnNotFound { turn_id: id }),
        }
    }

    /// Looks turn `id` up and requires it not to be terminal.
    fn ensure_turn_can_project(&self, id: TurnId) -> (r: Result<usize, AgentRuntimeError>)
        ensures
            match r {
                Ok(i) => projectable_error(self@, id).is_none() && turn_lookup_error(
                    self@,
                    id,
                ).is_none() && i == turn_index(self@, id),
                Err(e) => projectable_error(self@, id) == Some(e@),
            },
    {
        let i = self.turn_lookup(id)?;
        proof {
            lemma_first_index_spec(self@.snapshot.turns, turn_is(id));
        }
        let status = self.snapshot.turns[i].status;
        if is_terminal(status) {
            return Err(AgentRuntimeError::AlreadyTerminal { turn_id: id, status });
        }
        Ok(i)
    }

    /// A copy of turn `id`'s snapshot.
    pub fn turn_snapshot_or_err(&self, id: TurnId) -> (r: Result<TurnSnapshot, AgentRuntimeError>)
        ensures
            match r {
                Ok(s) => turn_lookup_error(self@, id).is_none() && s@ == self@.snapshot.turns[turn_index(
                    self@,
                    id,
                )],
                Err(e) => turn_lookup_error(self@, id) == Some(e@),
            },
    {
        let i = self.turn_lookup(id)?;
        proof {
            lemma_first_index_spec(self@.snapshot.turns, turn_is(id));
        }
        Ok(self.snapshot.turns[i].duplicate())
    }

    /// Replaces the turn at `i`.
    fn put_turn(&mut self, i: usize, turn: TurnSnapshot)
        requires
            i < old(self).snapshot.turns.len(),
        ensures
            final(self)@ == set_turn(old(self)@, i as int, turn@),
    {
        proof {
            lemma_seq_view_update(self.snapshot.turns@, i as int, turn);
        }
        self.snapshot.turns.set(i, turn);
        proof {
            assert(self@.snapshot =~= (ThreadView {
                turns: old(self)@.snapshot.turns.update(i as int, turn@),
                ..old(self)@.snapshot
            }));
        }
    }

    /// Moves a queued turn to running.
    pub fn start_turn(&mut self, id: TurnId, now: i64) -> (r: Result<AgentRuntimeEvent, AgentRuntimeError>)
        requires
            old(self)@.snapshot.last_seq < u64::MAX,
        ensures
            final(self)@ == start_turn_spec(old(self)@, id, now).0,
            res_view(r) == start_turn_spec(old(self)@, id, now).1,
    {
        let i = self.turn_lookup(id)?;
        proof {
            lemma_first_index_spec(self@.snapshot.turns, turn_is(id));
        }
        let status = self.snapshot.turns[i].status;
        if is_terminal(status) {
            return Err(AgentRuntimeError::AlreadyTerminal { turn_id: id, status });
        }
        if status == TurnStatus::Running {
            let mut message = String::from_str("turn already running: ");
            let text = id.to_text();
            message.append(text.as_str());
            return Err(AgentRuntimeError::ProjectionFailed { message });
        }
        let mut turn = self.snapshot.turns[i].duplicate();
        turn.status = TurnStatus::Running;
        turn.started_at = Some(now);
        let payload_turn = turn.duplicate();
        self.put_turn(i, turn);
        self.snapshot.active_turn_id = Some(id);
        proof {
            assert(self@ =~= with_snapshot(
                old(self)@,
                ThreadView {
                    turns: old(self)@.snapshot.turns.update(i as int, payload_turn@),
                    active_turn_id: Some(id),
                    ..old(self)@.snapshot
                },
            ));
        }
        let e = self.record(Some(id), AgentRuntimeEventPayload::TurnStarted { turn: payload_turn }, now);
        Ok(e)
    }

    /// Marks every pending approval of turn `id` canceled.
    fn cancel_pending_approval_snapshots(&mut self, id: TurnId, now: i64)
        ensures
            final(self)@ == with_snapshot(
                old(self)@,
                ThreadView {
                    approvals: cancel_pending_approval_views(old(self)@.snapshot.approvals, id, now),
                    ..old(self)@.snapshot
                },
            ),
    {
        let ghost old_approvals = old(self)@.snapshot.approvals;
        let mut i: usize = 0;
        while i < self.snapshot.approvals.len()
            invariant
                i <= self.snapshot.approvals.len(),
                self.snapshot.approvals.len() == old_approvals.len(),
                self@ == with_snapshot(
                    old(self)@,
                    ThreadView { approvals: self@.snapshot.approvals, ..old(self)@.snapshot },
                ),
                forall|k: int|
                    0 <= k < i ==> self@.snapshot.approvals[k] == cancel_approval_if_pending(
                        #[trigger] old_approvals[k],
                        id,
                        now,
                    ),
                forall|k: int|
                    i <= k < old_approvals.len() ==> self@.snapshot.approvals[k] == #[trigger] old_approvals[k],
            decreases self.snapshot.approvals.len() - i,
        {
            if self.snapshot.approvals[i].turn_id == id && self.snapshot.approvals[i].status
                == ApprovalStatus::Pending {
                let mut a = self.snapshot.approvals[i].duplicate();
                a.status = ApprovalStatus::Canceled;
                a.decision = Some(ApprovalDecision::Cancel);
                a.resolved_at = Some(now);
                proof {
                    lemma_seq_view_update(self.snapshot.approvals@, i as int, a);
                }
                self.snapshot.approvals.set(i, a);
                proof {
                    assert(self@.snapshot =~= ThreadView {
                        approvals: self@.snapshot.approvals,
                        ..old(self)@.snapshot
                    });
                }
            }
            i = i + 1;
        }
        proof {
            assert(self@.snapshot.approvals =~= cancel_pending_approval_views(old_approvals, id, now));
        }
    }

    fn clear_active_if(&mut self, id: TurnId)
        ensures
            final(self)@ == with_snapshot(
                old(self)@,
                ThreadView {
                    active_turn_id: if old(self)@.snapshot.active_turn_id == Some(id) {
                        None
                    } else {
                        old(self)@.snapshot.active_turn_id
                    },
                    ..old(self)@.snapshot
                },
            ),
    {
        match self.snapshot.active_turn_id {
            Some(active) => {
                if active == id {
                    self.snapshot.active_turn_id = None;
                }
            },
            None => {},
        }
        proof {
            assert(self@.snapshot =~= ThreadView {
                active_turn_id: if old(self)@.snapshot.active_turn_id == Some(id) {
                    None
                } else {
                    old(self)@.snapshot.active_turn_id
                },
                ..old(self)@.snapshot
            });
        }
    }

    /// Moves turn `id` to a terminal status.
    fn terminal_turn(
        &mut self,
        id: TurnId,
        status: TurnStatus,
        error: Option<String>,
        now: i64,
    ) -> (r: Result<AgentRuntimeEvent, AgentRuntimeError>)
        requires
            old(self)@.snapshot.last_seq < u64::MAX,
            spec_is_terminal(status),
            status == TurnStatus::Failed ==> error.is_some(),
        ensures
            final(self)@ == terminal_turn_spec(old(self)@, id, status, opt_view(error), now).0,
            res_view(r) == terminal_turn_spec(old(self)@, id, status, opt_view(error), now).1,
    {
        let i = self.turn_lookup(id)?;
        proof {
            lemma_first_index_spec(self@.snapshot.turns, turn_is(id));
        }
        let current = self.snapshot.turns[i].status;
        if is_terminal(current) {
            return Err(AgentRuntimeError::AlreadyTerminal { turn_id: id, status: current });
        }
        let mut turn = self.snapshot.turns[i].duplicate();
        turn.status = status;
        turn.completed_at = Some(now);
        turn.error = crate::dup::duplicate_opt(&error);
        let payload_turn = turn.duplicate();
        let ghost done = turn@;
        self.put_turn(i, turn);
        self.clear_active_if(id);
        if status == TurnStatus::Canceled {
            self.cancel_pending_approval_snapshots(id, now);
        }
        proof {
            let t = old(self)@;
            assert(self@ =~= with_snapshot(
                t,
                ThreadView {
                    turns: t.snapshot.turns.update(i as int, done),
                    active_turn_id: if t.snapshot.active_turn_id == Some(id) {
                        None
                    } else {
                        t.snapshot.active_turn_id
                    },
                    approvals: if status == TurnStatus::Canceled {
                        cancel_pending_approval_views(t.snapshot.approvals, id, now)
                    } else {
                        t.snapshot.approvals
                    },
                    ..t.snapshot
                },
            ));
        }
        let payload = match status {
            TurnStatus::Completed => AgentRuntimeEventPayload::TurnCompleted { turn: payload_turn },
            TurnStatus::Failed => AgentRuntimeEventPayload::TurnFailed {
                turn: payload_turn,
                error: error.unwrap(),
            },
            _ => AgentRuntimeEventPayload::TurnCanceled { turn: payload_turn },
        };
        Ok(self.record(Some(id), payload, now))
    }

    /// Completes turn `id`.
    pub fn complete_turn(&mut self, id: TurnId, now: i64) -> (r: Result<AgentRuntimeEvent, AgentRuntimeError>)
        requires
            old(self)@.snapshot.last_seq < u64::MAX,
        ensures
            final(self)@ == terminal_turn_spec(old(self)@, id, TurnStatus::Completed, None, now).0,
            res_view(r) == terminal_turn_spec(old(self)@, id, TurnStatus::Completed, None, now).1,
    {
        self.terminal_turn(id, TurnStatus::Completed, None, now)
    }

    /// Fails turn `id` with `error`.
    pub fn fail_turn(&mut self, id: TurnId, error: String, now: i64) -> (r: Result<AgentRuntimeEvent, AgentRuntimeError>)
        requires
            old(self)@.snapshot.last_seq < u64::MAX,
        ensures
            final(self)@ == terminal_turn_spec(old(self)@, id, TurnStatus::Failed, Some(error@), now).0,
            res_view(r) == terminal_turn_spec(old(self)@, id, TurnStatus::Failed, Some(error@), now).1,
    {
        self.terminal_turn(id, TurnStatus::Failed, Some(error), now)
    }

    /// Cancels turn `id`; its pending approvals are canceled with it.
    pub fn cancel_turn(&mut self, id: TurnId, now: i64) -> (r: Result<AgentRuntimeEvent, AgentRuntimeError>)
        requires
            old(self)@.snapshot.last_seq < u64::MAX,
        ensures
            final(self)@ == terminal_turn_spec(old(self)@, id, TurnStatus::Canceled, None, now).0,
            res_view(r) == terminal_turn_spec(old(self)@, id, TurnStatus::Canceled, None, now).1,
    {
        self.terminal_turn(id, TurnStatus::Canceled, None, now)
    }

    /// Replay from `cursor`; see [`events_after_spec`].
    pub fn events_after(&self, cursor: RuntimeCursor) -> (r: Result<Vec<AgentRuntimeEvent>, AgentRuntimeError>)
        requires
            self@.snapshot.last_seq < u64::MAX,
        ensures
            match r {
                Ok(v) => events_after_spec(self@, cursor) == Ok::<Seq<EventView>, ErrorView>(seq_view(v@)),
                Err(e) => events_after_spec(self@, cursor) == Err::<Seq<EventView>, ErrorView>(e@),
            },
    {
        if cursor.thread_id != self.snapshot.thread_id {
            return Err(AgentRuntimeError::ThreadNotFound { thread_id: cursor.thread_id });
        }
        let oldest = if self.events.len() > 0 {
            self.events[0].seq
        } else {
            self.snapshot.last_seq + 1
        };
        let floor = if oldest == 0 { 0 } else { oldest - 1 };
        if cursor.seq < floor {
            return Err(AgentRuntimeError::StaleRuntime {
                thread_id: self.snapshot.thread_id,
                requested_seq: cursor.seq,
                oldest_available_seq: oldest,
                latest_seq: self.snapshot.last_seq,
            });
        }
        let ghost all = self@.events;
        let mut out: Vec<AgentRuntimeEvent> = Vec::new();
        let mut i: usize = 0;
        while i < self.events.len()
            invariant
                i <= self.events.len(),
                all == seq_view(self.events@),
                seq_view(out@) == events_newer_than(all.take(i as int), cursor.seq),
            decreases self.events.len() - i,
        {
            proof {
                lemma_events_newer_than_step(all, i as int, cursor.seq);
            }
            if self.events[i].seq > cursor.seq {
                let e = self.events[i].duplicate();
                proof {
                    lemma_seq_view_push(out@, e);
                }
                out.push(e);
            }
            i = i + 1;
        }
        proof {
            assert(all.take(all.len() as int) =~= all);
        }
        Ok(out)
    }

    /// Resumes projection from an imported snapshot; see [`from_snapshot_spec`].
    pub fn from_snapshot(snapshot: ThreadSnapshot, replay_capacity: usize) -> (r: Self)
        requires
            max_turn_ordinal(snapshot@.turns, snapshot@.thread_id) < u64::MAX,
            max_message_ordinal(snapshot@.messages, snapshot@.thread_id) < u64::MAX,
        ensures
            r@ == from_snapshot_spec(snapshot@, replay_capacity),
    {
        let thread_id = snapshot.thread_id;
        let ghost turns = snapshot@.turns;
        let mut max_turn: u64 = 0;
        let mut i: usize = 0;
        while i < snapshot.turns.len()
            invariant
                i <= snapshot.turns.len(),
                turns == seq_view(snapshot.turns@),
                thread_id == snapshot@.thread_id,
                max_turn == max_turn_ordinal(turns.take(i as int), thread_id),
            decreases snapshot.turns.len() - i,
        {
            proof {
                lemma_max_turn_step(turns, i as int, thread_id);
            }
            let id = snapshot.turns[i].turn_id;
            if id.thread_id == thread_id && id.ordinal > max_turn {
                max_turn = id.ordinal;
            }
            i = i + 1;
        }
        proof {
            assert(turns.take(turns.len() as int) =~= turns);
        }
        let ghost messages = snapshot@.messages;
        let mut max_message: u64 = 0;
        let mut j: usize = 0;
        while j < snapshot.messages.len()
            invariant
                j <= snapshot.messages.len(),
                messages == seq_view(snapshot.messages@),
                thread_id == snapshot@.thread_id,
                max_message == max_message_ordinal(messages.take(j as int), thread_id),
            decreases snapshot.messages.len() - j,
        {
            proof {
                lemma_max_message_step(messages, j as int, thread_id);
            }
            let id = snapshot.messages[j].message_id;
            if id.thread_id == thread_id && id.ordinal > max_message {
                max_message = id.ordinal;
            }
            j = j + 1;
        }
        proof {
            assert(messages.take(messages.len() as int) =~= messages);
        }
        let r = ThreadState {
            snapshot,
            events: Vec::new(),
            replay_capacity,
            next_turn_ordinal: max_turn + 1,
            next_message_ordinal: max_message + 1,
        };
        proof {
            lemma_seq_view_empty::<AgentRuntimeEvent>();
            assert(r@ =~= from_snapshot_spec(snapshot@, replay_capacity));
        }
        r
    }

    /// Replaces the thread history; see [`bootstrap_spec`].
    pub fn bootstrap_thread(&mut self, messages: Vec<ChatMessage>, now: i64) -> (r: ThreadSnapshot)
        requires
            old(self)@.snapshot.revision < u64::MAX,
            old(self)@.snapshot.last_seq < u64::MAX,
            messages.len() < u64::MAX,
        ensures
            final(self)@ == bootstrap_spec(old(self)@, seq_view(messages@), now),
            r@ == final(self)@.snapshot,
    {
        let ghost input = seq_view(messages@);
        let thread_id = self.snapshot.thread_id;
        self.snapshot.revision = self.snapshot.revision + 1;
        self.snapshot.last_seq = self.snapshot.last_seq + 1;
        self.snapshot.active_turn_id = None;
        self.snapshot.turns.clear();
        self.snapshot.messages.clear();
        self.snapshot.tools.clear();
        self.snapshot.approvals.clear();
        self.snapshot.human_interactions.clear();
        self.snapshot.reasoning.clear();
        self.snapshot.plans.clear();
        self.snapshot.diffs.clear();
        self.events.clear();
        self.next_turn_ordinal = 1;
        self.next_message_ordinal = 1;
        proof {
            lemma_seq_view_empty::<TurnSnapshot>();
            lemma_seq_view_empty::<MessageSnapshot>();
            lemma_seq_view_empty::<ToolExecutionSnapshot>();
            lemma_seq_view_empty::<ApprovalSnapshot>();
            lemma_seq_view_empty::<HumanInteractionSnapshot>();
            lemma_seq_view_empty::<ReasoningSnapshot>();
            lemma_seq_view_empty::<PlanSnapshot>();
            lemma_seq_view_empty::<DiffSnapshot>();
            lemma_seq_view_empty::<AgentRuntimeEvent>();
            assert(self@.snapshot =~= bootstrap_spec(old(self)@, Seq::empty(), now).snapshot);
            assert(self@ =~= bootstrap_spec(old(self)@, Seq::empty(), now));
        }
        if messages.len() == 0 {
            proof {
                assert(input =~= Seq::<ChatMessageView>::empty());
            }
            return self.read_snapshot();
        }
        let revision = self.snapshot.revision;
        let turn_id = TurnId::new(thread_id, revision, 1);
        self.next_turn_ordinal = 2;
        let mut ids: Vec<MessageId> = Vec::new();
        let mut imported: Vec<MessageSnapshot> = Vec::new();
        let mut i: usize = 0;
        while i < messages.len()
            invariant
                i <= messages.len(),
                messages.len() < u64::MAX,
                input == seq_view(messages@),
                ids@ == Seq::new(i as nat, |k: int| bootstrap_message_id(thread_id, revision, k)),
                seq_view(imported@) == Seq::new(
                    i as nat,
                    |k: int|
                        MessageView {
                            message_id: bootstrap_message_id(thread_id, revision, k),
                            thread_id,
                            turn_id,
                            status: MessageStatus::Completed,
                            payload: input[k],
                            created_at: now,
                            completed_at: Some(now),
                        },
                ),
            decreases messages.len() - i,
        {
            let message_id = MessageId::new(thread_id, revision, (i + 1) as u64);
            ids.push(message_id);
            let snap = MessageSnapshot {
                message_id,
                thread_id,
                turn_id,
                status: MessageStatus::Completed,
                payload: messages[i].duplicate(),
                created_at: now,
                completed_at: Some(now),
            };
            proof {
                lemma_seq_view_push(imported@, snap);
            }
            imported.push(snap);
            i = i + 1;
            proof {
                assert(ids@ =~= Seq::new(i as nat, |k: int| bootstrap_message_id(thread_id, revision, k)));
                assert(seq_view(imported@) =~= Seq::new(
                    i as nat,
                    |k: int|
                        MessageView {
                            message_id: bootstrap_message_id(thread_id, revision, k),
                            thread_id,
                            turn_id,
                            status: MessageStatus::Completed,
                            payload: input[k],
                            created_at: now,
                            completed_at: Some(now),
                        },
                ));
            }
        }
        self.next_message_ordinal = messages.len() as u64 + 1;
        let turn = TurnSnapshot {
            turn_id,
            thread_id,
            status: TurnStatus::Completed,
            message_ids: ids,
            active_tool_call_ids: Vec::new(),
            error: None,
            queued_at: now,
            started_at: Some(now),
            completed_at: Some(now),
        };
        proof {
            lemma_seq_view_empty::<String>();
            lemma_seq_view_push(self.snapshot.turns@, turn);
        }
        self.snapshot.turns.push(turn);
        self.snapshot.messages = imported;
        proof {
            let expected = bootstrap_spec(old(self)@, input, now);
            assert(self@.snapshot.turns =~= expected.snapshot.turns);
            assert(self@.snapshot =~= expected.snapshot);
            assert(self@ =~= expected);
        }
        self.read_snapshot()
    }

    /// Position of message `id` (first match).
    fn find_message(&self, id: MessageId) -> (r: Option<usize>)
        ensures
            match r {
                Some(i) => i == message_index(self@, id),
                None => message_index(self@, id) == -1,
            },
    {
        let mut i: usize = 0;
        while i < self.snapshot.messages.len()
            invariant
                i <= self.snapshot.messages.len(),
                forall|j: int| 0 <= j < i ==> !message_is(id)(self@.snapshot.messages[j]),
            decreases self.snapshot.messages.len() - i,
        {
            if self.snapshot.messages[i].message_id == id {
                proof {
                    lemma_first_index_found(self@.snapshot.messages, message_is(id), i as int);
                }
                return Some(i);
            }
            i = i + 1;
        }
        proof {
            lemma_first_index_absent(self@.snapshot.messages, message_is(id));
        }
        None
    }

    /// Replaces the message at `i`.
    fn put_message(&mut self, i: usize, message: MessageSnapshot)
        requires
            i < old(self).snapshot.messages.len(),
        ensures
            final(self)@ == with_snapshot(
                old(self)@,
                ThreadView {
                    messages: old(self)@.snapshot.messages.update(i as int, message@),
                    ..old(self)@.snapshot
                },
            ),
    {
        proof {
            lemma_seq_view_update(self.snapshot.messages@, i as int, message);
        }
        self.snapshot.messages.set(i, message);
        proof {
            assert(self@.snapshot =~= ThreadView {
                messages: old(self)@.snapshot.messages.update(i as int, message@),
                ..old(self)@.snapshot
            });
        }
    }

    /// Mints the next message id.
    fn mint_message_id(&mut self) -> (id: MessageId)
        requires
            old(self)@.next_message_ordinal < u64::MAX,
        ensures
            id == next_message_id(old(self)@),
            final(self)@ == (ThreadStateView {
                next_message_ordinal: (old(self)@.next_message_ordinal + 1) as u64,
                ..old(self)@
            }),
    {
        let id = MessageId::new(self.snapshot.thread_id, self.snapshot.revision, self.next_message_ordinal);
        self.next_message_ordinal = self.next_message_ordinal + 1;
        id
    }

    /// Appends a streaming message to turn `turn_id`; see [`add_streaming_message`].
    fn add_streaming_message(&mut self, turn_id: TurnId, payload: ChatMessage, now: i64) -> (id: MessageId)
        requires
            turn_index(old(self)@, turn_id) >= 0,
            old(self)@.next_message_ordinal < u64::MAX,
        ensures
            id == next_message_id(old(self)@),
            final(self)@ == add_streaming_message(old(self)@, turn_id, payload@, now),
    {
        let ghost t = self@;
        let message_id = self.mint_message_id();
        let started = MessageSnapshot {
            message_id,
            thread_id: self.snapshot.thread_id,
            turn_id,
            status: MessageStatus::Streaming,
            payload,
            created_at: now,
            completed_at: None,
        };
        proof {
            lemma_seq_view_push(self.snapshot.messages@, started);
        }
        self.snapshot.messages.push(started);
        let ti = match self.find_turn(turn_id) {
            Some(ti) => ti,
            None => {
                proof {
                    assert(false);
                }
                0
            },
        };
        proof {
            lemma_first_index_spec(self@.snapshot.turns, turn_is(turn_id));
        }
        let mut turn = self.snapshot.turns[ti].duplicate();
        turn.message_ids.push(message_id);
        self.put_turn(ti, turn);
        proof {
            assert(self@.snapshot =~= add_streaming_message(t, turn_id, payload@, now).snapshot);
            assert(self@ =~= add_streaming_message(t, turn_id, payload@, now));
        }
        message_id
    }

    /// One input message of a queued turn; see [`queue_message_step`].
    fn queue_message(&mut self, turn_id: TurnId, payload: ChatMessage, now: i64) -> (r: Vec<AgentRuntimeEvent>)
        requires
            turn_index(old(self)@, turn_id) >= 0,
            old(self)@.next_message_ordinal < u64::MAX,
            old(self)@.snapshot.last_seq + 2 <= u64::MAX,
        ensures
            final(self)@ == queue_message_step(old(self)@, turn_id, payload@, now).0,
            seq_view(r@) == queue_message_step(old(self)@, turn_id, payload@, now).1,
    {
        let ghost t = self@;
        let ghost m = payload@;
        let message_id = self.add_streaming_message(turn_id, payload, now);
        let ghost t1 = self@;
        proof {
            lemma_first_index_push(t.snapshot.messages, add_streaming_message(t, turn_id, m, now).snapshot.messages.last(), message_is(message_id));
            assert(t1.snapshot.messages =~= t.snapshot.messages.push(t1.snapshot.messages.last()));
        }
        let mi = match self.find_message(message_id) {
            Some(mi) => mi,
            None => {
                proof {
                    assert(message_is(message_id)(t1.snapshot.messages.last()));
                    lemma_first_index_push(t.snapshot.messages, t1.snapshot.messages.last(), message_is(message_id));
                    assert(false);
                }
                0
            },
        };
        let started = self.snapshot.messages[mi].duplicate();
        let e1 = self.record(Some(turn_id), AgentRuntimeEventPayload::MessageStarted { message: started }, now);
        let mut done = self.snapshot.messages[mi].duplicate();
        done.status = MessageStatus::Completed;
        done.completed_at = Some(now);
        let payload_done = done.duplicate();
        self.put_message(mi, done);
        let e2 = self.record(Some(turn_id), AgentRuntimeEventPayload::MessageCompleted { message: payload_done }, now);
        let mut events: Vec<AgentRuntimeEvent> = Vec::new();
        events.push(e1);
        events.push(e2);
        proof {
            assert(seq_view(events@) =~= queue_message_step(t, turn_id, m, now).1);
        }
        events
    }

    /// Queues a turn with `input` messages; see [`queue_turn_spec`].
    pub fn queue_turn(&mut self, input: Vec<ChatMessage>, now: i64) -> (r: TurnProjection)
        requires
            can_queue_turn(old(self)@, input.len() as nat),
        ensures
            final(self)@ == queue_turn_spec(old(self)@, seq_view(input@), now).0,
            final(self)@.snapshot.thread_id == old(self)@.snapshot.thread_id,
            r.turn_id == queue_turn_spec(old(self)@, seq_view(input@), now).1,
            seq_view(r.events@) == queue_turn_spec(old(self)@, seq_view(input@), now).2,
    {
        let ghost t = self@;
        let ghost msgs = seq_view(input@);
        let turn_id = TurnId::new(self.snapshot.thread_id, self.snapshot.revision, self.next_turn_ordinal);
        self.next_turn_ordinal = self.next_turn_ordinal + 1;
        let turn = TurnSnapshot {
            turn_id,
            thread_id: self.snapshot.thread_id,
            status: TurnStatus::Queued,
            message_ids: Vec::new(),
            active_tool_call_ids: Vec::new(),
            error: None,
            queued_at: now,
            started_at: None,
            completed_at: None,
        };
        proof {
            lemma_seq_view_empty::<String>();
            lemma_seq_view_push(self.snapshot.turns@, turn);
        }
        self.snapshot.turns.push(turn);
        if self.snapshot.active_turn_id.is_none() {
            self.snapshot.active_turn_id = Some(turn_id);
        }
        let ghost t1 = self@;
        proof {
            assert(t1.snapshot =~= add_queued_turn(t, now).snapshot);
            assert(t1 =~= add_queued_turn(t, now));
            lemma_first_index_push(t.snapshot.turns, queued_turn(t, now), turn_is(turn_id));
        }
        let ti = match self.find_turn(turn_id) {
            Some(ti) => ti,
            None => {
                proof {
                    assert(false);
                }
                0
            },
        };
        let queued = self.snapshot.turns[ti].duplicate();
        let e0 = self.record(Some(turn_id), AgentRuntimeEventPayload::TurnQueued { turn: queued }, now);
        let ghost t2 = self@;
        proof {
            assert(turn_index(t2, turn_id) == turn_index(t1, turn_id));
        }
        let mut events: Vec<AgentRuntimeEvent> = Vec::new();
        proof {
            lemma_seq_view_push(events@, e0);
        }
        events.push(e0);
        proof {
            lemma_seq_view_empty::<AgentRuntimeEvent>();
            assert(seq_view(events@) =~= seq![e0@] + queue_messages(t2, turn_id, msgs.take(0), now).1);
        }
        let mut i: usize = 0;
        while i < input.len()
            invariant
                i <= input.len(),
                msgs == seq_view(input@),
                can_queue_turn(t, msgs.len()),
                turn_index(t2, turn_id) >= 0,
                t2.snapshot.last_seq == t.snapshot.last_seq + 1,
                t2.next_message_ordinal == t.next_message_ordinal,
                t2.snapshot.thread_id == t.snapshot.thread_id,
                self@ == queue_messages(t2, turn_id, msgs.take(i as int), now).0,
                seq_view(events@) == seq![e0@] + queue_messages(t2, turn_id, msgs.take(i as int), now).1,
            decreases input.len() - i,
        {
            proof {
                lemma_queue_messages(t2, turn_id, msgs.take(i as int), now);
                assert(msgs.take(i + 1).drop_last() =~= msgs.take(i as int));
            }
            let m = input[i].duplicate();
            let step = self.queue_message(turn_id, m, now);
            append_duplicates(&mut events, &step);
            i = i + 1;
            proof {
                assert(seq_view(events@) =~= seq![e0@] + queue_messages(t2, turn_id, msgs.take(i as int), now).1);
            }
        }
        proof {
            assert(msgs.take(msgs.len() as int) =~= msgs);
            lemma_queue_messages(t2, turn_id, msgs, now);
        }
        TurnProjection { turn_id, events }
    }

    /// Starts a streaming message in turn `turn_id`; see [`start_message_spec`].
    pub fn start_message(&mut self, turn_id: TurnId, payload: ChatMessage, now: i64) -> (r: Result<MessageProjection, AgentRuntimeError>)
        requires
            old(self)@.snapshot.last_seq < u64::MAX,
            old(self)@.next_message_ordinal < u64::MAX,
        ensures
            final(self)@ == start_message_spec(old(self)@, turn_id, payload@, now).0,
            match r {
                Ok(p) => start_message_spec(old(self)@, turn_id, payload@, now).1 == Ok::<(MessageId, EventView), ErrorView>((p.message_id, p.event@)),
                Err(e) => start_message_spec(old(self)@, turn_id, payload@, now).1 == Err::<(MessageId, EventView), ErrorView>(e@),
            },
    {
        let ghost t = self@;
        let ghost m = payload@;
        self.ensure_turn_can_project(turn_id)?;
        let message_id = self.add_streaming_message(turn_id, payload, now);
        let ghost t1 = self@;
        proof {
            lemma_first_index_push(t.snapshot.messages, t1.snapshot.messages.last(), message_is(message_id));
            assert(t1.snapshot.messages =~= t.snapshot.messages.push(t1.snapshot.messages.last()));
        }
        let mi = match self.find_message(message_id) {
            Some(mi) => mi,
            None => {
                proof {
                    assert(false);
                }
                0
            },
        };
        let started = self.snapshot.messages[mi].duplicate();
        let event = self.record(Some(turn_id), AgentRuntimeEventPayload::MessageStarted { message: started }, now);
        Ok(MessageProjection { message_id, event })
    }

    fn message_not_found(id: MessageId) -> (e: AgentRuntimeError)
        ensures
            e@ == message_not_found(id),
    {
        let mut message = String::from_str("message not found: ");
        let text = id.to_text();
        message.append(text.as_str());
        AgentRuntimeError::ProjectionFailed { message }
    }

    fn change_message(&mut self, id: MessageId, payload: ChatMessage, complete: bool, now: i64) -> (r: Result<AgentRuntimeEvent, AgentRuntimeError>)
        requires
            old(self)@.snapshot.last_seq < u64::MAX,
        ensures
            final(self)@ == change_message_spec(old(self)@, id, payload@, complete, now).0,
            res_view(r) == change_message_spec(old(self)@, id, payload@, complete, now).1,
    {
        let mi = match self.find_message(id) {
            Some(mi) => mi,
            None => {
                return Err(Self::message_not_found(id));
            },
        };
        proof {
            lemma_first_index_spec(self@.snapshot.messages, message_is(id));
        }
        let turn_id = self.snapshot.messages[mi].turn_id;
        self.ensure_turn_can_project(turn_id)?;
        let mut message = self.snapshot.messages[mi].duplicate();
        message.payload = payload;
        if complete {
            message.status = MessageStatus::Completed;
            message.completed_at = Some(now);
        }
        let changed = message.duplicate();
        self.put_message(mi, message);
        let event_payload = if complete {
            AgentRuntimeEventPayload::MessageCompleted { message: changed }
        } else {
            AgentRuntimeEventPayload::MessageUpdated { message: changed }
        };
        Ok(self.record(Some(turn_id), event_payload, now))
    }

    /// Replaces the payload of a streaming message; see [`change_message_spec`].
    pub fn update_message(&mut self, id: MessageId, payload: ChatMessage, now: i64) -> (r: Result<AgentRuntimeEvent, AgentRuntimeError>)
        requires
            old(self)@.snapshot.last_seq < u64::MAX,
        ensures
            final(self)@ == change_message_spec(old(self)@, id, payload@, false, now).0,
            res_view(r) == change_message_spec(old(self)@, id, payload@, false, now).1,
    {
        self.change_message(id, payload, false, now)
    }

    /// Completes a message with its final payload; see [`change_message_spec`].
    pub fn complete_message(&mut self, id: MessageId, payload: ChatMessage, now: i64) -> (r: Result<AgentRuntimeEvent, AgentRuntimeError>)
        requires
            old(self)@.snapshot.last_seq < u64::MAX,
        ensures
            final(self)@ == change_message_spec(old(self)@, id, payload@, true, now).0,
            res_view(r) == change_message_spec(old(self)@, id, payload@, true, now).1,
    {
        self.change_message(id, payload, true, now)
    }

    /// Position of tool call `call_id` of turn `turn_id` (first match).
    fn find_tool(&self, turn_id: TurnId, call_id: &String) -> (r: Option<usize>)
        ensures
            match r {
                Some(i) => i == tool_index(self@, turn_id, call_id@),
                None => tool_index(self@, turn_id, call_id@) == -1,
            },
    {
        let mut i: usize = 0;
        while i < self.snapshot.tools.len()
            invariant
                i <= self.snapshot.tools.len(),
                forall|j: int| 0 <= j < i ==> !tool_is(turn_id, call_id@)(self@.snapshot.tools[j]),
            decreases self.snapshot.tools.len() - i,
        {
            if self.snapshot.tools[i].turn_id == turn_id && self.snapshot.tools[i].tool_call_id == *call_id {
                proof {
                    lemma_first_index_found(self@.snapshot.tools, tool_is(turn_id, call_id@), i as int);
                }
                return Some(i);
            }
            i = i + 1;
        }
        proof {
            lemma_first_index_absent(self@.snapshot.tools, tool_is(turn_id, call_id@));
        }
        None
    }

    fn put_tool(&mut self, i: usize, tool: ToolExecutionSnapshot)
        requires
            i < old(self).snapshot.tools.len(),
        ensures
            final(self)@ == with_snapshot(
                old(self)@,
                ThreadView { tools: old(self)@.snapshot.tools.update(i as int, tool@), ..old(self)@.snapshot },
            ),
    {
        proof {
            lemma_seq_view_update(self.snapshot.tools@, i as int, tool);
        }
        self.snapshot.tools.set(i, tool);
        proof {
            assert(self@.snapshot =~= ThreadView {
                tools: old(self)@.snapshot.tools.update(i as int, tool@),
                ..old(self)@.snapshot
            });
        }
    }

    fn tool_not_found(call_id: &String) -> (e: AgentRuntimeError)
        ensures
            e@ == tool_not_found(call_id@),
    {
        let mut message = String::from_str("tool not found: ");
        message.append(call_id.as_str());
        AgentRuntimeError::ProjectionFailed { message }
    }

    /// Starts tool call `call_id`; see [`start_tool_spec`].
    pub fn start_tool(&mut self, turn_id: TurnId, call_id: &str, name: &str, args: &str, now: i64) -> (r: Result<AgentRuntimeEvent, AgentRuntimeError>)
        requires
            old(self)@.snapshot.last_seq < u64::MAX,
        ensures
            final(self)@ == start_tool_spec(old(self)@, turn_id, call_id@, name@, args@, now).0,
            res_view(r) == start_tool_spec(old(self)@, turn_id, call_id@, name@, args@, now).1,
    {
        let ghost t = self@;
        let ti = self.ensure_turn_can_project(turn_id)?;
        proof {
            lemma_first_index_spec(self@.snapshot.turns, turn_is(turn_id));
        }
        let key = String::from_str(call_id);
        match self.find_tool(turn_id, &key) {
            Some(_) => {
                let mut message = String::from_str("tool already started: ");
                message.append(call_id);
                return Err(AgentRuntimeError::ProjectionFailed { message });
            },
            None => {},
        }
        let tool = ToolExecutionSnapshot {
            tool_call_id: key.duplicate(),
            thread_id: self.snapshot.thread_id,
            turn_id,
            tool_name: String::from_str(name),
            args: String::from_str(args),
            status: ToolStatus::Running,
            partial_result: None,
            final_result: None,
            started_at: now,
            completed_at: None,
        };
        let ghost tool_view = tool@;
        proof {
            lemma_seq_view_push(self.snapshot.tools@, tool);
        }
        self.snapshot.tools.push(tool);
        let mut turn = self.snapshot.turns[ti].duplicate();
        proof {
            lemma_seq_view_push(turn.active_tool_call_ids@, key);
        }
        turn.active_tool_call_ids.push(key);
        self.put_turn(ti, turn);
        let ghost t1 = self@;
        proof {
            let turn0 = t.snapshot.turns[ti as int];
            assert(t1.snapshot =~= ThreadView {
                tools: t.snapshot.tools.push(tool_view),
                turns: t.snapshot.turns.update(
                    ti as int,
                    TurnView { active_tool_call_ids: turn0.active_tool_call_ids.push(call_id@), ..turn0 },
                ),
                ..t.snapshot
            });
            lemma_first_index_push(t.snapshot.tools, tool_view, tool_is(turn_id, call_id@));
        }
        let key2 = String::from_str(call_id);
        let k = match self.find_tool(turn_id, &key2) {
            Some(k) => k,
            None => {
                proof {
                    assert(false);
                }
                0
            },
        };
        let started = self.snapshot.tools[k].duplicate();
        Ok(self.record(Some(turn_id), AgentRuntimeEventPayload::ToolStarted { tool: started }, now))
    }

    /// Records a streaming update of tool call `call_id`; see [`update_tool_spec`].
    pub fn update_tool(&mut self, turn_id: TurnId, call_id: &str, partial: ToolUpdatePayload, now: i64) -> (r: Result<AgentRuntimeEvent, AgentRuntimeError>)
        requires
            old(self)@.snapshot.last_seq < u64::MAX,
        ensures
            final(self)@ == update_tool_spec(old(self)@, turn_id, call_id@, partial@, now).0,
            res_view(r) == update_tool_spec(old(self)@, turn_id, call_id@, partial@, now).1,
    {
        self.ensure_turn_can_project(turn_id)?;
        let key = String::from_str(call_id);
        let k = match self.find_tool(turn_id, &key) {
            Some(k) => k,
            None => {
                return Err(Self::tool_not_found(&key));
            },
        };
        let mut tool = self.snapshot.tools[k].duplicate();
        tool.partial_result = Some(partial);
        let updated = tool.duplicate();
        self.put_tool(k, tool);
        Ok(self.record(Some(turn_id), AgentRuntimeEventPayload::ToolUpdated { tool: updated }, now))
    }

    /// `ids` without any occurrence of `x`.
    fn without_id(ids: &Vec<String>, x: &String) -> (r: Vec<String>)
        ensures
            seq_view(r@) == without(seq_view(ids@), x@),
    {
        let ghost all = seq_view(ids@);
        let mut r: Vec<String> = Vec::new();
        let mut i: usize = 0;
        while i < ids.len()
            invariant
                i <= ids.len(),
                all == seq_view(ids@),
                seq_view(r@) == without(all.take(i as int), x@),
            decreases ids.len() - i,
        {
            proof {
                lemma_without_step(all, i as int, x@);
            }
            if ids[i] != *x {
                let id = ids[i].duplicate();
                proof {
                    lemma_seq_view_push(r@, id);
                }
                r.push(id);
            }
            i = i + 1;
        }
        proof {
            assert(all.take(all.len() as int) =~= all);
        }
        r
    }

    /// Completes tool call `call_id`; see [`complete_tool_spec`].
    pub fn complete_tool(&mut self, turn_id: TurnId, call_id: &str, result: AgentToolResult, now: i64) -> (r: Result<AgentRuntimeEvent, AgentRuntimeError>)
        requires
            old(self)@.snapshot.last_seq < u64::MAX,
        ensures
            final(self)@ == complete_tool_spec(old(self)@, turn_id, call_id@, result@, now).0,
            res_view(r) == complete_tool_spec(old(self)@, turn_id, call_id@, result@, now).1,
    {
        let ghost t = self@;
        let ti = self.ensure_turn_can_project(turn_id)?;
        proof {
            lemma_first_index_spec(self@.snapshot.turns, turn_is(turn_id));
        }
        let key = String::from_str(call_id);
        let k = match self.find_tool(turn_id, &key) {
            Some(k) => k,
            None => {
                return Err(Self::tool_not_found(&key));
            },
        };
        let mut tool = self.snapshot.tools[k].duplicate();
        tool.status = ToolStatus::Completed;
        tool.final_result = Some(result);
        tool.completed_at = Some(now);
        let completed = tool.duplicate();
        let ghost tool_view = tool@;
        self.put_tool(k, tool);
        let mut turn = self.snapshot.turns[ti].duplicate();
        turn.active_tool_call_ids = Self::without_id(&turn.active_tool_call_ids, &key);
        self.put_turn(ti, turn);
        proof {
            let turn0 = t.snapshot.turns[ti as int];
            assert(self@.snapshot =~= ThreadView {
                tools: t.snapshot.tools.update(k as int, tool_view),
                turns: t.snapshot.turns.update(
                    ti as int,
                    TurnView { active_tool_call_ids: without(turn0.active_tool_call_ids, call_id@), ..turn0 },
                ),
                ..t.snapshot
            });
        }
        Ok(self.record(Some(turn_id), AgentRuntimeEventPayload::ToolCompleted { tool: completed }, now))
    }

    /// Position of approval `id` of turn `turn_id` (first match).
    fn find_approval(&self, turn_id: TurnId, id: &String) -> (r: Option<usize>)
        ensures
            match r {
                Some(i) => i == approval_index(self@, turn_id, id@),
                None => approval_index(self@, turn_id, id@) == -1,
            },
    {
        let mut i: usize = 0;
        while i < self.snapshot.approvals.len()
            invariant
                i <= self.snapshot.approvals.len(),
                forall|j: int| 0 <= j < i ==> !approval_is(turn_id, id@)(self@.snapshot.approvals[j]),
            decreases self.snapshot.approvals.len() - i,
        {
            if self.snapshot.approvals[i].turn_id == turn_id && self.snapshot.approvals[i].request.id == *id {
                proof {
                    lemma_first_index_found(self@.snapshot.approvals, approval_is(turn_id, id@), i as int);
                }
                return Some(i);
            }
            i = i + 1;
        }
        proof {
            lemma_first_index_absent(self@.snapshot.approvals, approval_is(turn_id, id@));
        }
        None
    }

    fn put_approval(&mut self, i: usize, approval: ApprovalSnapshot)
        requires
            i < old(self).snapshot.approvals.len(),
        ensures
            final(self)@ == with_snapshot(
                old(self)@,
                ThreadView { approvals: old(self)@.snapshot.approvals.update(i as int, approval@), ..old(self)@.snapshot },
            ),
    {
        proof {
            lemma_seq_view_update(self.snapshot.approvals@, i as int, approval);
        }
        self.snapshot.approvals.set(i, approval);
        proof {
            assert(self@.snapshot =~= ThreadView {
                approvals: old(self)@.snapshot.approvals.update(i as int, approval@),
                ..old(self)@.snapshot
            });
        }
    }

    /// Raises an approval request in turn `turn_id`; see [`require_approval_spec`].
    pub fn require_approval(&mut self, turn_id: TurnId, request: ApprovalRequest, now: i64) -> (r: Result<AgentRuntimeEvent, AgentRuntimeError>)
        requires
            old(self)@.snapshot.last_seq < u64::MAX,
        ensures
            final(self)@ == require_approval_spec(old(self)@, turn_id, request@, now).0,
            res_view(r) == require_approval_spec(old(self)@, turn_id, request@, now).1,
    {
        let ghost t = self@;
        self.ensure_turn_can_project(turn_id)?;
        let key = request.id.duplicate();
        match self.find_approval(turn_id, &key) {
            Some(_) => {
                let mut message = String::from_str("approval already requested: ");
                message.append(key.as_str());
                return Err(AgentRuntimeError::ProjectionFailed { message });
            },
            None => {},
        }
        let approval = ApprovalSnapshot {
            request,
            thread_id: self.snapshot.thread_id,
            turn_id,
            status: ApprovalStatus::Pending,
            decision: None,
            requested_at: now,
            resolved_at: None,
        };
        let ghost approval_view = approval@;
        proof {
            lemma_seq_view_push(self.snapshot.approvals@, approval);
        }
        self.snapshot.approvals.push(approval);
        proof {
            assert(self@.snapshot =~= ThreadView { approvals: t.snapshot.approvals.push(approval_view), ..t.snapshot });
            lemma_first_index_push(t.snapshot.approvals, approval_view, approval_is(turn_id, key@));
        }
        let k = match self.find_approval(turn_id, &key) {
            Some(k) => k,
            None => {
                proof {
                    assert(false);
                }
                0
            },
        };
        let required = self.snapshot.approvals[k].duplicate();
        Ok(self.record(Some(turn_id), AgentRuntimeEventPayload::ApprovalRequired { approval: required }, now))
    }

    fn settle_approval(&mut self, turn_id: TurnId, id: &str, decision: Option<ApprovalDecision>, now: i64) -> (r: Result<AgentRuntimeEvent, AgentRuntimeError>)
        requires
            old(self)@.snapshot.last_seq < u64::MAX,
        ensures
            final(self)@ == settle_approval_spec(old(self)@, turn_id, id@, decision, now).0,
            res_view(r) == settle_approval_spec(old(self)@, turn_id, id@, decision, now).1,
    {
        self.ensure_turn_can_project(turn_id)?;
        let key = String::from_str(id);
        let k = match self.find_approval(turn_id, &key) {
            Some(k) => k,
            None => {
                let mut message = String::from_str("approval not found: ");
                message.append(id);
                return Err(AgentRuntimeError::ProjectionFailed { message });
            },
        };
        let mut approval = self.snapshot.approvals[k].duplicate();
        match decision {
            Some(d) => {
                approval.status = ApprovalStatus::Resolved;
                approval.decision = Some(d);
            },
            None => {
                approval.status = ApprovalStatus::Canceled;
                approval.decision = Some(ApprovalDecision::Cancel);
            },
        }
        approval.resolved_at = Some(now);
        let settled = approval.duplicate();
        self.put_approval(k, approval);
        let payload = match decision {
            Some(_) => AgentRuntimeEventPayload::ApprovalResolved { approval: settled },
            None => AgentRuntimeEventPayload::ApprovalCanceled { approval: settled },
        };
        Ok(self.record(Some(turn_id), payload, now))
    }

    /// Resolves approval `id` with `decision`; see [`settle_approval_spec`].
    pub fn resolve_approval(&mut self, turn_id: TurnId, id: &str, decision: ApprovalDecision, now: i64) -> (r: Result<AgentRuntimeEvent, AgentRuntimeError>)
        requires
            old(self)@.snapshot.last_seq < u64::MAX,
        ensures
            final(self)@ == settle_approval_spec(old(self)@, turn_id, id@, Some(decision), now).0,
            res_view(r) == settle_approval_spec(old(self)@, turn_id, id@, Some(decision), now).1,
    {
        self.settle_approval(turn_id, id, Some(decision), now)
    }

    /// Cancels approval `id`; see [`settle_approval_spec`].
    pub fn cancel_approval(&mut self, turn_id: TurnId, id: &str, now: i64) -> (r: Result<AgentRuntimeEvent, AgentRuntimeError>)
        requires
            old(self)@.snapshot.last_seq < u64::MAX,
        ensures
            final(self)@ == settle_approval_spec(old(self)@, turn_id, id@, None, now).0,
            res_view(r) == settle_approval_spec(old(self)@, turn_id, id@, None, now).1,
    {
        self.settle_approval(turn_id, id, None, now)
    }

    /// Cancels every pending approval of turn `turn_id`; see [`cancel_pending_approvals_spec`].
    pub fn cancel_pending_approvals(&mut self, turn_id: TurnId, now: i64) -> (r: Result<Vec<AgentRuntimeEvent>, AgentRuntimeError>)
        requires
            old(self)@.snapshot.last_seq + old(self)@.snapshot.approvals.len() <= u64::MAX,
        ensures
            final(self)@ == cancel_pending_approvals_spec(old(self)@, turn_id, now).0,
            final(self)@.snapshot.thread_id == old(self)@.snapshot.thread_id,
            final(self)@.snapshot.last_seq <= old(self)@.snapshot.last_seq + old(self)@.snapshot.approvals.len(),
            final(self)@.snapshot.human_interactions == old(self)@.snapshot.human_interactions,
            match r {
                Ok(v) => cancel_pending_approvals_spec(old(self)@, turn_id, now).1 == Ok::<Seq<EventView>, ErrorView>(seq_view(v@)),
                Err(e) => cancel_pending_approvals_spec(old(self)@, turn_id, now).1 == Err::<Seq<EventView>, ErrorView>(e@),
            },
    {
        let ghost t = self@;
        self.ensure_turn_can_project(turn_id)?;
        let ghost approvals = t.snapshot.approvals;
        let mut ids: Vec<String> = Vec::new();
        let mut i: usize = 0;
        while i < self.snapshot.approvals.len()
            invariant
                i <= self.snapshot.approvals.len(),
                self@ == t,
                approvals == self@.snapshot.approvals,
                seq_view(ids@) == pending_approval_ids(approvals.take(i as int), turn_id),
                ids.len() <= i,
            decreases self.snapshot.approvals.len() - i,
        {
            proof {
                lemma_pending_approval_ids_step(approvals, i as int, turn_id);
            }
            if self.snapshot.approvals[i].turn_id == turn_id && self.snapshot.approvals[i].status == ApprovalStatus::Pending {
                let id = self.snapshot.approvals[i].request.id.duplicate();
                proof {
                    lemma_seq_view_push(ids@, id);
                }
                ids.push(id);
            }
            i = i + 1;
        }
        proof {
            assert(approvals.take(approvals.len() as int) =~= approvals);
        }
        let ghost all_ids = seq_view(ids@);
        let mut events: Vec<AgentRuntimeEvent> = Vec::new();
        let mut j: usize = 0;
        proof {
            lemma_seq_view_empty::<AgentRuntimeEvent>();
        }
        while j < ids.len()
            invariant
                j <= ids.len(),
                all_ids == seq_view(ids@),
                all_ids == pending_approval_ids(t.snapshot.approvals, turn_id),
                projectable_error(t, turn_id).is_none(),
                t == old(self)@,
                self@.snapshot.thread_id == t.snapshot.thread_id,
                self@.snapshot.human_interactions == t.snapshot.human_interactions,
                approvals == t.snapshot.approvals,
                ids.len() <= approvals.len(),
                t.snapshot.last_seq + approvals.len() <= u64::MAX,
                events.len() == j,
                self@.snapshot.last_seq == t.snapshot.last_seq + j,
                cancel_approvals_fold(t, turn_id, all_ids.take(j as int), now) == (self@, Ok::<Seq<EventView>, ErrorView>(seq_view(events@))),
            decreases ids.len() - j,
        {
            proof {
                assert(all_ids.take(j + 1).drop_last() =~= all_ids.take(j as int));
            }
            let ghost before = self@;
            let event = match self.cancel_approval(turn_id, ids[j].as_str(), now) {
                Ok(event) => event,
                Err(e) => {
                    proof {
                        assert(self@ == before);
                        assert(all_ids.take(j + 1).drop_last() =~= all_ids.take(j as int));
                        assert(all_ids.take(j + 1).last() == all_ids[j as int]);
                        let cur = cancel_approvals_fold(t, turn_id, all_ids.take(j + 1), now);
                        assert(cur.0 == self@);
                        assert(cur.1 == Err::<Seq<EventView>, ErrorView>(e@));
                        lemma_cancel_approvals_fold_err(t, turn_id, all_ids, j + 1, now);
                    }
                    return Err(e);
                },
            };
            proof {
                lemma_seq_view_push(events@, event);
            }
            events.push(event);
            j = j + 1;
        }
        proof {
            assert(all_ids.take(all_ids.len() as int) =~= all_ids);
        }
        Ok(events)
    }

    /// Position of interaction `id` of turn `turn_id` (first match).
    fn find_interaction(&self, turn_id: TurnId, id: u128) -> (r: Option<usize>)
        ensures
            match r {
                Some(i) => i == interaction_index(self@, turn_id, id),
                None => interaction_index(self@, turn_id, id) == -1,
            },
    {
        let mut i: usize = 0;
        while i < self.snapshot.human_interactions.len()
            invariant
                i <= self.snapshot.human_interactions.len(),
                forall|j: int| 0 <= j < i ==> !interaction_is(turn_id, id)(self@.snapshot.human_interactions[j]),
            decreases self.snapshot.human_interactions.len() - i,
        {
            if self.snapshot.human_interactions[i].turn_id == turn_id
                && self.snapshot.human_interactions[i].request.request_id == id {
                proof {
                    lemma_first_index_found(self@.snapshot.human_interactions, interaction_is(turn_id, id), i as int);
                }
                return Some(i);
            }
            i = i + 1;
        }
        proof {
            lemma_first_index_absent(self@.snapshot.human_interactions, interaction_is(turn_id, id));
        }
        None
    }

    fn put_interaction(&mut self, i: usize, interaction: HumanInteractionSnapshot)
        requires
            i < old(self).snapshot.human_interactions.len(),
        ensures
            final(self)@ == with_snapshot(
                old(self)@,
                ThreadView {
                    human_interactions: old(self)@.snapshot.human_interactions.update(i as int, interaction@),
                    ..old(self)@.snapshot
                },
            ),
    {
        proof {
            lemma_seq_view_update(self.snapshot.human_interactions@, i as int, interaction);
        }
        self.snapshot.human_interactions.set(i, interaction);
        proof {
            assert(self@.snapshot =~= ThreadView {
                human_interactions: old(self)@.snapshot.human_interactions.update(i as int, interaction@),
                ..old(self)@.snapshot
            });
        }
    }

    /// Puts a question to the human in turn `turn_id`; see [`request_interaction_spec`].
    pub fn request_human_interaction(&mut self, turn_id: TurnId, request: HumanInteractionRequest, now: i64) -> (r: Result<AgentRuntimeEvent, AgentRuntimeError>)
        requires
            old(self)@.snapshot.last_seq < u64::MAX,
        ensures
            final(self)@ == request_interaction_spec(old(self)@, turn_id, request@, now).0,
            res_view(r) == request_interaction_spec(old(self)@, turn_id, request@, now).1,
    {
        let ghost t = self@;
        self.ensure_turn_can_project(turn_id)?;
        let id = request.request_id;
        match self.find_interaction(turn_id, id) {
            Some(_) => {
                let mut message = String::from_str("human interaction already requested: ");
                let text = crate::ids::uuid_hyphenated(id);
                message.append(text.as_str());
                return Err(AgentRuntimeError::ProjectionFailed { message });
            },
            None => {},
        }
        let interaction = HumanInteractionSnapshot {
            request,
            thread_id: self.snapshot.thread_id,
            turn_id,
            status: HumanInteractionStatus::Pending,
            response: None,
            error: None,
            requested_at: now,
            resolved_at: None,
        };
        let ghost interaction_view = interaction@;
        proof {
            lemma_seq_view_push(self.snapshot.human_interactions@, interaction);
        }
        self.snapshot.human_interactions.push(interaction);
        proof {
            assert(self@.snapshot =~= ThreadView {
                human_interactions: t.snapshot.human_interactions.push(interaction_view),
                ..t.snapshot
            });
            lemma_first_index_push(t.snapshot.human_interactions, interaction_view, interaction_is(turn_id, id));
        }
        let k = match self.find_interaction(turn_id, id) {
            Some(k) => k,
            None => {
                proof {
                    assert(false);
                }
                0
            },
        };
        let requested = self.snapshot.human_interactions[k].duplicate();
        Ok(self.record(Some(turn_id), AgentRuntimeEventPayload::HumanInteractionRequested { interaction: requested }, now))
    }

    fn settle_interaction(
        &mut self,
        turn_id: TurnId,
        id: u128,
        response: Option<HumanInteractionResponse>,
        reason: Option<String>,
        now: i64,
    ) -> (r: Result<AgentRuntimeEvent, AgentRuntimeError>)
        requires
            old(self)@.snapshot.last_seq < u64::MAX,
        ensures
            final(self)@ == settle_interaction_spec(old(self)@, turn_id, id, opt_view(response), opt_view(reason), now).0,
            res_view(r) == settle_interaction_spec(old(self)@, turn_id, id, opt_view(response), opt_view(reason), now).1,
    {
        self.ensure_turn_can_project(turn_id)?;
        let k = match self.find_interaction(turn_id, id) {
            Some(k) => k,
            None => {
                let mut message = String::from_str("human interaction not found: ");
                let text = crate::ids::uuid_hyphenated(id);
                message.append(text.as_str());
                return Err(AgentRuntimeError::ProjectionFailed { message });
            },
        };
        let mut interaction = self.snapshot.human_interactions[k].duplicate();
        let resolved = response.is_some();
        match response {
            Some(resp) => {
                interaction.status = HumanInteractionStatus::Resolved;
                interaction.response = Some(resp);
                interaction.error = None;
            },
            None => {
                interaction.status = HumanInteractionStatus::Canceled;
                interaction.error = reason;
            },
        }
        interaction.resolved_at = Some(now);
        let settled = interaction.duplicate();
        self.put_interaction(k, interaction);
        let payload = if resolved {
            AgentRuntimeEventPayload::HumanInteractionResolved { interaction: settled }
        } else {
            AgentRuntimeEventPayload::HumanInteractionCanceled { interaction: settled }
        };
        Ok(self.record(Some(turn_id), payload, now))
    }

    /// Records the human's answer; see [`settle_interaction_spec`].
    pub fn resolve_human_interaction(&mut self, turn_id: TurnId, response: HumanInteractionResponse, now: i64) -> (r: Result<AgentRuntimeEvent, AgentRuntimeError>)
        requires
            old(self)@.snapshot.last_seq < u64::MAX,
        ensures
            final(self)@ == settle_interaction_spec(old(self)@, turn_id, response@.request_id, Some(response@), None, now).0,
            res_view(r) == settle_interaction_spec(old(self)@, turn_id, response@.request_id, Some(response@), None, now).1,
    {
        let id = response.request_id;
        self.settle_interaction(turn_id, id, Some(response), None, now)
    }

    /// Cancels interaction `id` with an optional `reason`; see [`settle_interaction_spec`].
    pub fn cancel_human_interaction(&mut self, turn_id: TurnId, id: u128, reason: Option<String>, now: i64) -> (r: Result<AgentRuntimeEvent, AgentRuntimeError>)
        requires
            old(self)@.snapshot.last_seq < u64::MAX,
        ensures
            final(self)@ == settle_interaction_spec(old(self)@, turn_id, id, None, opt_view(reason), now).0,
            res_view(r) == settle_interaction_spec(old(self)@, turn_id, id, None, opt_view(reason), now).1,
    {
        self.settle_interaction(turn_id, id, None, reason, now)
    }

    /// Cancels every pending interaction of turn `turn_id`; see [`cancel_pending_interactions_spec`].
    pub fn cancel_pending_human_interactions(&mut self, turn_id: TurnId, now: i64) -> (r: Result<Vec<AgentRuntimeEvent>, AgentRuntimeError>)
        requires
            old(self)@.snapshot.last_seq + old(self)@.snapshot.human_interactions.len() <= u64::MAX,
        ensures
            final(self)@ == cancel_pending_interactions_spec(old(self)@, turn_id, now).0,
            final(self)@.snapshot.thread_id == old(self)@.snapshot.thread_id,
            final(self)@.snapshot.last_seq <= old(self)@.snapshot.last_seq + old(self)@.snapshot.human_interactions.len(),
            match r {
                Ok(v) => cancel_pending_interactions_spec(old(self)@, turn_id, now).1 == Ok::<Seq<EventView>, ErrorView>(seq_view(v@)),
                Err(e) => cancel_pending_interactions_spec(old(self)@, turn_id, now).1 == Err::<Seq<EventView>, ErrorView>(e@),
            },
    {
        let ghost t = self@;
        self.ensure_turn_can_project(turn_id)?;
        let ghost hs = t.snapshot.human_interactions;
        let mut ids: Vec<u128> = Vec::new();
        let mut i: usize = 0;
        while i < self.snapshot.human_interactions.len()
            invariant
                i <= self.snapshot.human_interactions.len(),
                self@ == t,
                hs == self@.snapshot.human_interactions,
                ids@ == pending_interaction_ids(hs.take(i as int), turn_id),
                ids.len() <= i,
            decreases self.snapshot.human_interactions.len() - i,
        {
            proof {
                lemma_pending_interaction_ids_step(hs, i as int, turn_id);
            }
            if self.snapshot.human_interactions[i].turn_id == turn_id
                && self.snapshot.human_interactions[i].status == HumanInteractionStatus::Pending {
                ids.push(self.snapshot.human_interactions[i].request.request_id);
            }
            i = i + 1;
        }
        proof {
            assert(hs.take(hs.len() as int) =~= hs);
        }
        let ghost all_ids = ids@;
        let mut events: Vec<AgentRuntimeEvent> = Vec::new();
        let mut j: usize = 0;
        proof {
            lemma_seq_view_empty::<AgentRuntimeEvent>();
        }
        while j < ids.len()
            invariant
                j <= ids.len(),
                all_ids == ids@,
                all_ids == pending_interaction_ids(t.snapshot.human_interactions, turn_id),
                projectable_error(t, turn_id).is_none(),
                t == old(self)@,
                self@.snapshot.thread_id == t.snapshot.thread_id,
                hs == t.snapshot.human_interactions,
                ids.len() <= hs.len(),
                t.snapshot.last_seq + hs.len() <= u64::MAX,
                events.len() == j,
                self@.snapshot.last_seq == t.snapshot.last_seq + j,
                cancel_interactions_fold(t, turn_id, all_ids.take(j as int), now) == (self@, Ok::<Seq<EventView>, ErrorView>(seq_view(events@))),
            decreases ids.len() - j,
        {
            proof {
                assert(all_ids.take(j + 1).drop_last() =~= all_ids.take(j as int));
            }
            let ghost before = self@;
            let event = match self.cancel_human_interaction(turn_id, ids[j], None, now) {
                Ok(event) => event,
                Err(e) => {
                    proof {
                        assert(self@ == before);
                        assert(all_ids.take(j + 1).drop_last() =~= all_ids.take(j as int));
                        assert(all_ids.take(j + 1).last() == all_ids[j as int]);
                        let cur = cancel_interactions_fold(t, turn_id, all_ids.take(j + 1), now);
                        assert(cur.0 == self@);
                        assert(cur.1 == Err::<Seq<EventView>, ErrorView>(e@));
                        lemma_cancel_interactions_fold_err(t, turn_id, all_ids, j + 1, now);
                    }
                    return Err(e);
                },
            };
            proof {
                lemma_seq_view_push(events@, event);
            }
            events.push(event);
            j = j + 1;
        }
        proof {
            assert(all_ids.take(all_ids.len() as int) =~= all_ids);
        }
        Ok(events)
    }

    fn find_reasoning(&self, turn_id: TurnId, message_id: Option<MessageId>) -> (r: Option<usize>)
        ensures
            match r {
                Some(i) => i == reasoning_index(self@, turn_id, message_id),
                None => reasoning_index(self@, turn_id, message_id) == -1,
            },
    {
        let mut i: usize = 0;
        while i < self.snapshot.reasoning.len()
            invariant
                i <= self.snapshot.reasoning.len(),
                forall|j: int| 0 <= j < i ==> !reasoning_is(turn_id, message_id)(self@.snapshot.reasoning[j]),
            decreases self.snapshot.reasoning.len() - i,
        {
            if self.snapshot.reasoning[i].turn_id == turn_id && self.snapshot.reasoning[i].message_id == message_id {
                proof {
                    lemma_first_index_found(self@.snapshot.reasoning, reasoning_is(turn_id, message_id), i as int);
                }
                return Some(i);
            }
            i = i + 1;
        }
        proof {
            lemma_first_index_absent(self@.snapshot.reasoning, reasoning_is(turn_id, message_id));
        }
        None
    }

    /// Appends `delta` to the reasoning of turn `turn_id`; see [`update_reasoning_spec`].
    pub fn update_reasoning(&mut self, turn_id: TurnId, message_id: Option<MessageId>, delta: String, now: i64) -> (r: Result<AgentRuntimeEvent, AgentRuntimeError>)
        requires
            old(self)@.snapshot.last_seq < u64::MAX,
        ensures
            final(self)@ == update_reasoning_spec(old(self)@, turn_id, message_id, delta@, now).0,
            res_view(r) == update_reasoning_spec(old(self)@, turn_id, message_id, delta@, now).1,
    {
        let ghost t = self@;
        self.ensure_turn_can_project(turn_id)?;
        match message_id {
            Some(mid) => {
                let mi = match self.find_message(mid) {
                    Some(mi) => mi,
                    None => {
                        return Err(Self::message_not_found(mid));
                    },
                };
                if self.snapshot.messages[mi].turn_id != turn_id {
                    let mut message = String::from_str("message ");
                    let mtext = mid.to_text();
                    message.append(mtext.as_str());
                    message.append(" does not belong to turn ");
                    let ttext = turn_id.to_text();
                    message.append(ttext.as_str());
                    return Err(AgentRuntimeError::ProjectionFailed { message });
                }
            },
            None => {},
        }
        let ghost d = delta@;
        let echo = delta.duplicate();
        match self.find_reasoning(turn_id, message_id) {
            Some(k) => {
                proof {
                    lemma_first_index_spec(t.snapshot.reasoning, reasoning_is(turn_id, message_id));
                }
                let mut reasoning = self.snapshot.reasoning[k].duplicate();
                reasoning.text.append(delta.as_str());
                reasoning.updated_at = now;
                let ghost rv = reasoning@;
                proof {
                    lemma_seq_view_update(self.snapshot.reasoning@, k as int, reasoning);
                    lemma_first_index_update(t.snapshot.reasoning, k as int, rv, reasoning_is(turn_id, message_id));
                }
                self.snapshot.reasoning.set(k, reasoning);
                proof {
                    assert(self@.snapshot =~= ThreadView {
                        reasoning: t.snapshot.reasoning.update(k as int, rv),
                        ..t.snapshot
                    });
                }
            },
            None => {
                let reasoning = ReasoningSnapshot {
                    thread_id: self.snapshot.thread_id,
                    turn_id,
                    message_id,
                    text: delta,
                    updated_at: now,
                };
                let ghost rv = reasoning@;
                proof {
                    lemma_seq_view_push(self.snapshot.reasoning@, reasoning);
                    lemma_first_index_push(t.snapshot.reasoning, rv, reasoning_is(turn_id, message_id));
                }
                self.snapshot.reasoning.push(reasoning);
                proof {
                    assert(self@.snapshot =~= ThreadView {
                        reasoning: t.snapshot.reasoning.push(rv),
                        ..t.snapshot
                    });
                }
            },
        }
        let k = match self.find_reasoning(turn_id, message_id) {
            Some(k) => k,
            None => {
                proof {
                    assert(false);
                }
                0
            },
        };
        let updated = self.snapshot.reasoning[k].duplicate();
        Ok(self.record(Some(turn_id), AgentRuntimeEventPayload::ReasoningUpdated { reasoning: updated, delta: echo }, now))
    }

    fn find_plan(&self, turn_id: TurnId) -> (r: Option<usize>)
        ensures
            match r {
                Some(i) => i == first_index(self@.snapshot.plans, plan_is(turn_id)),
                None => first_index(self@.snapshot.plans, plan_is(turn_id)) == -1,
            },
    {
        let mut i: usize = 0;
        while i < self.snapshot.plans.len()
            invariant
                i <= self.snapshot.plans.len(),
                forall|j: int| 0 <= j < i ==> !plan_is(turn_id)(self@.snapshot.plans[j]),
            decreases self.snapshot.plans.len() - i,
        {
            if self.snapshot.plans[i].turn_id == turn_id {
                proof {
                    lemma_first_index_found(self@.snapshot.plans, plan_is(turn_id), i as int);
                }
                return Some(i);
            }
            i = i + 1;
        }
        proof {
            lemma_first_index_absent(self@.snapshot.plans, plan_is(turn_id));
        }
        None
    }

    /// Replaces the plan of turn `turn_id`; see [`update_plan_spec`].
    pub fn update_plan(&mut self, turn_id: TurnId, plan: String, now: i64) -> (r: Result<AgentRuntimeEvent, AgentRuntimeError>)
        requires
            old(self)@.snapshot.last_seq < u64::MAX,
        ensures
            final(self)@ == update_plan_spec(old(self)@, turn_id, plan@, now).0,
            res_view(r) == update_plan_spec(old(self)@, turn_id, plan@, now).1,
    {
        let ghost t = self@;
        self.ensure_turn_can_project(turn_id)?;
        match self.find_plan(turn_id) {
            Some(k) => {
                proof {
                    lemma_first_index_spec(t.snapshot.plans, plan_is(turn_id));
                }
                let mut snapshot = self.snapshot.plans[k].duplicate();
                snapshot.plan = plan;
                snapshot.updated_at = now;
                let ghost pv = snapshot@;
                proof {
                    lemma_seq_view_update(self.snapshot.plans@, k as int, snapshot);
                    lemma_first_index_update(t.snapshot.plans, k as int, pv, plan_is(turn_id));
                }
                self.snapshot.plans.set(k, snapshot);
                proof {
                    assert(self@.snapshot =~= ThreadView { plans: t.snapshot.plans.update(k as int, pv), ..t.snapshot });
                }
            },
            None => {
                let snapshot = PlanSnapshot { thread_id: self.snapshot.thread_id, turn_id, plan, updated_at: now };
                let ghost pv = snapshot@;
                proof {
                    lemma_seq_view_push(self.snapshot.plans@, snapshot);
                    lemma_first_index_push(t.snapshot.plans, pv, plan_is(turn_id));
                }
                self.snapshot.plans.push(snapshot);
                proof {
                    assert(self@.snapshot =~= ThreadView { plans: t.snapshot.plans.push(pv), ..t.snapshot });
                }
            },
        }
        let k = match self.find_plan(turn_id) {
            Some(k) => k,
            None => {
                proof {
                    assert(false);
                }
                0
            },
        };
        let updated = self.snapshot.plans[k].duplicate();
        Ok(self.record(Some(turn_id), AgentRuntimeEventPayload::PlanUpdated { plan: updated }, now))
    }

    fn find_diff(&self, turn_id: TurnId) -> (r: Option<usize>)
        ensures
            match r {
                Some(i) => i == first_index(self@.snapshot.diffs, diff_is(turn_id)),
                None => first_index(self@.snapshot.diffs, diff_is(turn_id)) == -1,
            },
    {
        let mut i: usize = 0;
        while i < self.snapshot.diffs.len()
            invariant
                i <= self.snapshot.diffs.len(),
                forall|j: int| 0 <= j < i ==> !diff_is(turn_id)(self@.snapshot.diffs[j]),
            decreases self.snapshot.diffs.len() - i,
        {
            if self.snapshot.diffs[i].turn_id == turn_id {
                proof {
                    lemma_first_index_found(self@.snapshot.diffs, diff_is(turn_id), i as int);
                }
                return Some(i);
            }
            i = i + 1;
        }
        proof {
            lemma_first_index_absent(self@.snapshot.diffs, diff_is(turn_id));
        }
        None
    }

    /// Replaces the diff of turn `turn_id`; see [`update_diff_spec`].
    pub fn update_diff(&mut self, turn_id: TurnId, diff: String, now: i64) -> (r: Result<AgentRuntimeEvent, AgentRuntimeError>)
        requires
            old(self)@.snapshot.last_seq < u64::MAX,
        ensures
            final(self)@ == update_diff_spec(old(self)@, turn_id, diff@, now).0,
            res_view(r) == update_diff_spec(old(self)@, turn_id, diff@, now).1,
    {
        let ghost t = self@;
        self.ensure_turn_can_project(turn_id)?;
        match self.find_diff(turn_id) {
            Some(k) => {
                proof {
                    lemma_first_index_spec(t.snapshot.diffs, diff_is(turn_id));
                }
                let mut snapshot = self.snapshot.diffs[k].duplicate();
                snapshot.diff = diff;
                snapshot.updated_at = now;
                let ghost dv = snapshot@;
                proof {
                    lemma_seq_view_update(self.snapshot.diffs@, k as int, snapshot);
                    lemma_first_index_update(t.snapshot.diffs, k as int, dv, diff_is(turn_id));
                }
                self.snapshot.diffs.set(k, snapshot);
                proof {
                    assert(self@.snapshot =~= ThreadView { diffs: t.snapshot.diffs.update(k as int, dv), ..t.snapshot });
                }
            },
            None => {
                let snapshot = DiffSnapshot { thread_id: self.snapshot.thread_id, turn_id, diff, updated_at: now };
                let ghost dv = snapshot@;
                proof {
                    lemma_seq_view_push(self.snapshot.diffs@, snapshot);
                    lemma_first_index_push(t.snapshot.diffs, dv, diff_is(turn_id));
                }
                self.snapshot.diffs.push(snapshot);
                proof {
                    assert(self@.snapshot =~= ThreadView { diffs: t.snapshot.diffs.push(dv), ..t.snapshot });
                }
            },
        }
        let k = match self.find_diff(turn_id) {
            Some(k) => k,
            None => {
                proof {
                    assert(false);
                }
                0
            },
        };
        let updated = self.snapshot.diffs[k].duplicate();
        Ok(self.record(Some(turn_id), AgentRuntimeEventPayload::DiffUpdated { diff: updated }, now))
    }
}

} // verus!
