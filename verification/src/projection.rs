//! Projection of the agent loop's events onto one chat thread: which loop
//! events start the turn, open, update and close messages and tools, and which
//! ones belong to the context replayed at the start of a run and are skipped.

use vstd::prelude::*;

use crate::domain::{AgentToolResult, ChatMessage, ToolUpdatePayload};
use crate::dup::{lemma_seq_view_empty, lemma_seq_view_push, seq_view, Duplicate};
use crate::error::{AgentRuntimeError, ErrorView};
use crate::event::{events_res, AgentRuntimeEvent, EventView};
use crate::ids::{MessageId, TurnId};
use crate::thread::{
    change_message_spec, complete_tool_spec, lemma_record_keeps_replay, replay_kept, start_message_spec,
    start_tool_spec, start_turn_spec, update_tool_spec, ThreadState, ThreadStateView,
};

verus! {

/// An event of the agent loop, carrying what the projection reads of it.
/// Tool arguments and structured results travel as JSON text.
pub enum AgentEvent {
    AgentStart,
    AgentEnd,
    TurnStart { turn_index: usize },
    TurnEnd,
    MessageStart { message: ChatMessage },
    MessageUpdate { message: ChatMessage },
    MessageEnd { message: ChatMessage },
    ToolExecutionStart { tool_call_id: String, tool_name: String, args: String },
    ToolExecutionUpdate {
        tool_call_id: String,
        tool_name: String,
        args: String,
        partial_result: ToolUpdatePayload,
    },
    ToolExecutionEnd { tool_call_id: String, tool_name: String, result: AgentToolResult },
    UserInputRequested,
    Approval,
    Reasoning,
    Error,
    System,
}

/// What one run has projected so far.
#[derive(Debug, Clone, Copy)]
pub struct ChatProjectionRunState {
    /// The run's turn has been started.
    pub turn_started: bool,
    /// The message currently streaming, if any.
    pub active_message_id: Option<MessageId>,
    /// Message lifecycles still to skip: the context messages the loop replays first.
    pub remaining_context_message_lifecycles: usize,
    /// A skipped context message is between its start and its end.
    pub skipping_context_message: bool,
}

impl ChatProjectionRunState {
    /// The state at the start of a run whose context holds `initial_message_count` messages.
    pub fn new(initial_message_count: usize) -> (r: Self)
        ensures
            !r.turn_started,
            r.active_message_id.is_none(),
            r.remaining_context_message_lifecycles == initial_message_count,
            !r.skipping_context_message,
    {
        ChatProjectionRunState {
            turn_started: false,
            active_message_id: None,
            remaining_context_message_lifecycles: initial_message_count,
            skipping_context_message: false,
        }
    }

    /// The active message, if any, belongs to thread of `turn_id`.
    pub open spec fn belongs_to(self, turn_id: TurnId) -> bool {
        self.active_message_id matches Some(m) ==> m.thread_id == turn_id.thread_id
    }
}

impl Default for ChatProjectionRunState {
    fn default() -> (r: Self)
        ensures
            !r.turn_started,
            r.active_message_id.is_none(),
            r.remaining_context_message_lifecycles == 0,
            !r.skipping_context_message,
    {
        ChatProjectionRunState::new(0)
    }
}

pub type Projected = (ThreadStateView, ChatProjectionRunState, Result<Seq<EventView>, ErrorView>);

/// Starts the run's turn unless it already is.
#[verifier::opaque]
pub open spec fn ensure_started_spec(
    t: ThreadStateView,
    rs: ChatProjectionRunState,
    turn_id: TurnId,
    now: i64,
) -> Projected {
    if rs.turn_started {
        (t, rs, Ok(Seq::empty()))
    } else {
        let (t1, r) = start_turn_spec(t, turn_id, now);
        match r {
            Ok(e) => (t1, ChatProjectionRunState { turn_started: true, ..rs }, Ok(seq![e])),
            Err(e) => (t1, rs, Err(e)),
        }
    }
}

/// Continues after the turn was ensured started: runs `step` on the new state
/// unless ensuring failed, and puts the events ensured before the step's.
pub open spec fn after_start(first: Projected, step: Projected) -> Projected {
    match first.2 {
        Err(e) => (first.0, first.1, Err(e)),
        Ok(es) => match step.2 {
            Err(e) => (step.0, step.1, Err(e)),
            Ok(more) => (step.0, step.1, Ok(es + more)),
        },
    }
}

/// Starts a message for `message` and then updates or completes it.
pub open spec fn open_then_change(
    t: ThreadStateView,
    rs: ChatProjectionRunState,
    turn_id: TurnId,
    message: ChatMessage,
    complete: bool,
    keep_active: bool,
    now: i64,
) -> Projected {
    let (t2, r2) = start_message_spec(t, turn_id, message@, now);
    match r2 {
        Err(e) => (t2, rs, Err(e)),
        Ok((mid, e)) => {
            let rs2 = if keep_active {
                ChatProjectionRunState { active_message_id: Some(mid), ..rs }
            } else {
                rs
            };
            let (t3, r3) = change_message_spec(t2, mid, message@, complete, now);
            match r3 {
                Err(e3) => (t3, rs2, Err(e3)),
                Ok(e3) => (t3, rs2, Ok(seq![e, e3])),
            }
        },
    }
}

/// Updates (or completes) message `mid`.
pub open spec fn change_step(
    t: ThreadStateView,
    rs: ChatProjectionRunState,
    mid: MessageId,
    message: ChatMessage,
    complete: bool,
    now: i64,
) -> Projected {
    let (t2, r2) = change_message_spec(t, mid, message@, complete, now);
    match r2 {
        Err(e) => (t2, rs, Err(e)),
        Ok(e) => (t2, rs, Ok(seq![e])),
    }
}

/// Applies a tool step `op` on an already started tool, and when it fails
/// starts the tool with `args` first and applies `op` once more.
#[verifier::opaque]
pub open spec fn tool_step(
    t: ThreadStateView,
    turn_id: TurnId,
    call_id: Seq<char>,
    name: Seq<char>,
    args: Seq<char>,
    op: spec_fn(ThreadStateView) -> (ThreadStateView, Result<EventView, ErrorView>),
    now: i64,
) -> (ThreadStateView, Result<Seq<EventView>, ErrorView>) {
    let (t2, r2) = op(t);
    match r2 {
        Ok(e) => (t2, Ok(seq![e])),
        Err(_) => {
            let (t3, r3) = start_tool_spec(t2, turn_id, call_id, name, args, now);
            match r3 {
                Err(e3) => (t3, Err(e3)),
                Ok(e3) => {
                    let (t4, r4) = op(t3);
                    match r4 {
                        Err(e4) => (t4, Err(e4)),
                        Ok(e4) => (t4, Ok(seq![e3, e4])),
                    }
                },
            }
        },
    }
}

/// A context message starts: skipped while context lifecycles remain,
/// otherwise the run's turn is started and the message opened as active.
pub open spec fn message_start_spec(
    t: ThreadStateView,
    rs: ChatProjectionRunState,
    turn_id: TurnId,
    message: ChatMessage,
    now: i64,
) -> Projected {
    if rs.remaining_context_message_lifecycles > 0 {
        (
            t,
            ChatProjectionRunState {
                remaining_context_message_lifecycles: (rs.remaining_context_message_lifecycles - 1) as usize,
                skipping_context_message: true,
                ..rs
            },
            Ok(Seq::empty()),
        )
    } else {
        let started = ensure_started_spec(t, rs, turn_id, now);
        let (t2, r2) = start_message_spec(started.0, turn_id, message@, now);
        let step = match r2 {
            Err(e) => (t2, started.1, Err(e)),
            Ok((mid, e)) => (t2, ChatProjectionRunState { active_message_id: Some(mid), ..started.1 }, Ok(seq![e])),
        };
        after_start(started, step)
    }
}

/// A message streams: the active message is updated, or a new one is opened
/// (and becomes active) and updated.
pub open spec fn message_update_spec(
    t: ThreadStateView,
    rs: ChatProjectionRunState,
    turn_id: TurnId,
    message: ChatMessage,
    now: i64,
) -> Projected {
    let started = ensure_started_spec(t, rs, turn_id, now);
    after_start(
        started,
        match started.1.active_message_id {
            Some(mid) => change_step(started.0, started.1, mid, message, false, now),
            None => open_then_change(started.0, started.1, turn_id, message, false, true, now),
        },
    )
}

/// A message ends: the end of a skipped context message is consumed;
/// otherwise the active message (cleared) or a new one is completed.
pub open spec fn message_end_spec(
    t: ThreadStateView,
    rs: ChatProjectionRunState,
    turn_id: TurnId,
    message: ChatMessage,
    now: i64,
) -> Projected {
    if rs.skipping_context_message {
        (t, ChatProjectionRunState { skipping_context_message: false, ..rs }, Ok(Seq::empty()))
    } else {
        let started = ensure_started_spec(t, rs, turn_id, now);
        let rs2 = ChatProjectionRunState { active_message_id: None, ..started.1 };
        after_start(
            started,
            match started.1.active_message_id {
                Some(mid) => change_step(started.0, rs2, mid, message, true, now),
                None => open_then_change(started.0, rs2, turn_id, message, true, false, now),
            },
        )
    }
}

/// A tool starts.
pub open spec fn tool_start_spec(
    t: ThreadStateView,
    rs: ChatProjectionRunState,
    turn_id: TurnId,
    call_id: Seq<char>,
    name: Seq<char>,
    args: Seq<char>,
    now: i64,
) -> Projected {
    let started = ensure_started_spec(t, rs, turn_id, now);
    let (t2, r2) = start_tool_spec(started.0, turn_id, call_id, name, args, now);
    after_start(
        started,
        match r2 {
            Err(e) => (t2, started.1, Err(e)),
            Ok(e) => (t2, started.1, Ok(seq![e])),
        },
    )
}

/// A tool streams a partial result; a tool not yet started is started first.
pub open spec fn tool_update_spec(
    t: ThreadStateView,
    rs: ChatProjectionRunState,
    turn_id: TurnId,
    call_id: Seq<char>,
    name: Seq<char>,
    args: Seq<char>,
    partial: crate::domain::ToolUpdateView,
    now: i64,
) -> Projected {
    let started = ensure_started_spec(t, rs, turn_id, now);
    let step = tool_step(
        started.0,
        turn_id,
        call_id,
        name,
        args,
        |s: ThreadStateView| update_tool_spec(s, turn_id, call_id, partial, now),
        now,
    );
    after_start(started, (step.0, started.1, step.1))
}

/// A tool ends; a tool never started is started (with `null` arguments) first.
pub open spec fn tool_end_spec(
    t: ThreadStateView,
    rs: ChatProjectionRunState,
    turn_id: TurnId,
    call_id: Seq<char>,
    name: Seq<char>,
    result: crate::domain::ToolResultView,
    now: i64,
) -> Projected {
    let started = ensure_started_spec(t, rs, turn_id, now);
    let step = tool_step(
        started.0,
        turn_id,
        call_id,
        name,
        "null"@,
        |s: ThreadStateView| complete_tool_spec(s, turn_id, call_id, result, now),
        now,
    );
    after_start(started, (step.0, started.1, step.1))
}

/// Effect of projecting loop event `ev` of the run of turn `turn_id`.
pub open spec fn project_spec(
    t: ThreadStateView,
    rs: ChatProjectionRunState,
    turn_id: TurnId,
    ev: AgentEvent,
    now: i64,
) -> Projected {
    match ev {
        AgentEvent::TurnStart { .. } => ensure_started_spec(t, rs, turn_id, now),
        AgentEvent::MessageStart { message } => message_start_spec(t, rs, turn_id, message, now),
        AgentEvent::MessageUpdate { message } => message_update_spec(t, rs, turn_id, message, now),
        AgentEvent::MessageEnd { message } => message_end_spec(t, rs, turn_id, message, now),
        AgentEvent::ToolExecutionStart { tool_call_id, tool_name, args } => tool_start_spec(
            t,
            rs,
            turn_id,
            tool_call_id@,
            tool_name@,
            args@,
            now,
        ),
        AgentEvent::ToolExecutionUpdate { tool_call_id, tool_name, args, partial_result } => tool_update_spec(
            t,
            rs,
            turn_id,
            tool_call_id@,
            tool_name@,
            args@,
            partial_result@,
            now,
        ),
        AgentEvent::ToolExecutionEnd { tool_call_id, tool_name, result } => tool_end_spec(
            t,
            rs,
            turn_id,
            tool_call_id@,
            tool_name@,
            result@,
            now,
        ),
        _ => (t, rs, Ok(Seq::empty())),
    }
}

/// Effect of projecting loop event `ev` when the run's thread is not
/// projected: every step that reaches the projector fails with
/// `ThreadNotFound`, after the run state changes made before it.
pub open spec fn missing_thread_spec(
    rs: ChatProjectionRunState,
    turn_id: TurnId,
    ev: AgentEvent,
) -> (ChatProjectionRunState, Result<Seq<EventView>, ErrorView>) {
    let not_found = Err(ErrorView::ThreadNotFound { thread_id: turn_id.thread_id });
    match ev {
        AgentEvent::TurnStart { .. } => if rs.turn_started {
            (rs, Ok(Seq::empty()))
        } else {
            (rs, not_found)
        },
        AgentEvent::MessageStart { .. } => if rs.remaining_context_message_lifecycles > 0 {
            (
                ChatProjectionRunState {
                    remaining_context_message_lifecycles: (rs.remaining_context_message_lifecycles - 1) as usize,
                    skipping_context_message: true,
                    ..rs
                },
                Ok(Seq::empty()),
            )
        } else {
            (rs, not_found)
        },
        AgentEvent::MessageEnd { .. } => if rs.skipping_context_message {
            (ChatProjectionRunState { skipping_context_message: false, ..rs }, Ok(Seq::empty()))
        } else if rs.turn_started {
            (ChatProjectionRunState { active_message_id: None, ..rs }, not_found)
        } else {
            (rs, not_found)
        },
        AgentEvent::MessageUpdate { .. } => (rs, not_found),
        AgentEvent::ToolExecutionStart { .. } => (rs, not_found),
        AgentEvent::ToolExecutionUpdate { .. } => (rs, not_found),
        AgentEvent::ToolExecutionEnd { .. } => (rs, not_found),
        _ => (rs, Ok(Seq::empty())),
    }
}

proof fn lemma_started_keeps(t: ThreadStateView, rs: ChatProjectionRunState, turn_id: TurnId, now: i64)
    ensures
        ensure_started_spec(t, rs, turn_id, now).0.snapshot.thread_id == t.snapshot.thread_id,
        ensure_started_spec(t, rs, turn_id, now).1.active_message_id == rs.active_message_id,
{
    reveal(ensure_started_spec);
}

proof fn lemma_message_steps_keep(t: ThreadStateView, turn_id: TurnId, mid: MessageId, m: crate::domain::ChatMessageView, c: bool, now: i64)
    ensures
        start_message_spec(t, turn_id, m, now).0.snapshot.thread_id == t.snapshot.thread_id,
        start_message_spec(t, turn_id, m, now).1 matches Ok((id, _)) ==> id.thread_id == t.snapshot.thread_id,
        change_message_spec(t, mid, m, c, now).0.snapshot.thread_id == t.snapshot.thread_id,
{
}

proof fn lemma_tool_steps_keep(
    t: ThreadStateView,
    turn_id: TurnId,
    call_id: Seq<char>,
    name: Seq<char>,
    args: Seq<char>,
    partial: crate::domain::ToolUpdateView,
    result: crate::domain::ToolResultView,
    now: i64,
)
    ensures
        tool_step(t, turn_id, call_id, name, args, |s: ThreadStateView| update_tool_spec(s, turn_id, call_id, partial, now), now).0.snapshot.thread_id
            == t.snapshot.thread_id,
        tool_step(t, turn_id, call_id, name, args, |s: ThreadStateView| complete_tool_spec(s, turn_id, call_id, result, now), now).0.snapshot.thread_id
            == t.snapshot.thread_id,
{
    reveal(tool_step);
    let (t2, r2) = update_tool_spec(t, turn_id, call_id, partial, now);
    assert(t2.snapshot.thread_id == t.snapshot.thread_id);
    let (t3, r3) = start_tool_spec(t2, turn_id, call_id, name, args, now);
    assert(t3.snapshot.thread_id == t.snapshot.thread_id);
    let (t4, r4) = update_tool_spec(t3, turn_id, call_id, partial, now);
    assert(t4.snapshot.thread_id == t.snapshot.thread_id);
    let (u2, q2) = complete_tool_spec(t, turn_id, call_id, result, now);
    assert(u2.snapshot.thread_id == t.snapshot.thread_id);
    let (u3, q3) = start_tool_spec(u2, turn_id, call_id, name, args, now);
    assert(u3.snapshot.thread_id == t.snapshot.thread_id);
    let (u4, q4) = complete_tool_spec(u3, turn_id, call_id, result, now);
    assert(u4.snapshot.thread_id == t.snapshot.thread_id);
}

/// Projecting keeps the thread's id, and the run's active message on the run's thread.
pub proof fn lemma_project_keeps_thread(
    t: ThreadStateView,
    rs: ChatProjectionRunState,
    turn_id: TurnId,
    ev: AgentEvent,
    now: i64,
)
    requires
        t.snapshot.thread_id == turn_id.thread_id,
        rs.belongs_to(turn_id),
    ensures
        project_spec(t, rs, turn_id, ev, now).1.belongs_to(turn_id),
        project_spec(t, rs, turn_id, ev, now).0.snapshot.thread_id == t.snapshot.thread_id,
{
    lemma_started_keeps(t, rs, turn_id, now);
    let started = ensure_started_spec(t, rs, turn_id, now);
    match ev {
        AgentEvent::MessageStart { message } => {
            lemma_message_steps_keep(started.0, turn_id, turn_id_message(turn_id), message@, false, now);
        },
        AgentEvent::MessageUpdate { message } => {
            lemma_message_steps_keep(started.0, turn_id, turn_id_message(turn_id), message@, false, now);
            match started.1.active_message_id {
                Some(mid) => lemma_message_steps_keep(started.0, turn_id, mid, message@, false, now),
                None => {
                    let (t2, r2) = start_message_spec(started.0, turn_id, message@, now);
                    if let Ok((mid, _)) = r2 {
                        lemma_message_steps_keep(t2, turn_id, mid, message@, false, now);
                    }
                },
            }
        },
        AgentEvent::MessageEnd { message } => {
            lemma_message_steps_keep(started.0, turn_id, turn_id_message(turn_id), message@, true, now);
            match started.1.active_message_id {
                Some(mid) => lemma_message_steps_keep(started.0, turn_id, mid, message@, true, now),
                None => {
                    let (t2, r2) = start_message_spec(started.0, turn_id, message@, now);
                    if let Ok((mid, _)) = r2 {
                        lemma_message_steps_keep(t2, turn_id, mid, message@, true, now);
                    }
                },
            }
        },
        AgentEvent::ToolExecutionStart { tool_call_id, tool_name, args } => {
            assert(start_tool_spec(started.0, turn_id, tool_call_id@, tool_name@, args@, now).0.snapshot.thread_id
                == t.snapshot.thread_id);
        },
        AgentEvent::ToolExecutionUpdate { tool_call_id, tool_name, args, partial_result } => {
            lemma_tool_steps_keep(started.0, turn_id, tool_call_id@, tool_name@, args@, partial_result@, arbitrary(), now);
        },
        AgentEvent::ToolExecutionEnd { tool_call_id, tool_name, result } => {
            lemma_tool_steps_keep(started.0, turn_id, tool_call_id@, tool_name@, "null"@, arbitrary(), result@, now);
        },
        _ => {},
    }
}

/// Some message id of the thread of `turn_id`.
spec fn turn_id_message(turn_id: TurnId) -> MessageId {
    MessageId { thread_id: turn_id.thread_id, revision: turn_id.revision, ordinal: 0 }
}

/// Room for the at most three events one loop event projects.
pub open spec fn projection_room(t: ThreadStateView) -> bool {
    &&& t.snapshot.last_seq + 3 <= u64::MAX
    &&& t.next_message_ordinal < u64::MAX
}

proof fn lemma_tool_step_keeps_replay(
    t: ThreadStateView,
    turn_id: TurnId,
    call_id: Seq<char>,
    name: Seq<char>,
    args: Seq<char>,
    op: spec_fn(ThreadStateView) -> (ThreadStateView, Result<EventView, ErrorView>),
    now: i64,
)
    requires
        replay_kept(t),
        t.snapshot.last_seq + 2 <= u64::MAX,
        forall|s: ThreadStateView|
            replay_kept(s) && s.snapshot.last_seq < u64::MAX ==> replay_kept(#[trigger] op(s).0) && op(s).0.snapshot.last_seq
                <= s.snapshot.last_seq + 1 && (op(s).1 is Err ==> op(s).0 == s),
    ensures
        replay_kept(tool_step(t, turn_id, call_id, name, args, op, now).0),
{
    broadcast use lemma_record_keeps_replay;

    reveal(tool_step);
    let (t2, r2) = op(t);
    if r2 is Err {
        assert(t2 == t);
        let (t3, r3) = start_tool_spec(t2, turn_id, call_id, name, args, now);
        if r3 is Ok {
            assert(t3.snapshot.last_seq <= t.snapshot.last_seq + 1);
            let (t4, r4) = op(t3);
        }
    }
}

proof fn lemma_ensure_started_keeps_replay(t: ThreadStateView, rs: ChatProjectionRunState, turn_id: TurnId, now: i64)
    requires
        replay_kept(t),
        t.snapshot.last_seq < u64::MAX,
    ensures
        replay_kept(ensure_started_spec(t, rs, turn_id, now).0),
        ensure_started_spec(t, rs, turn_id, now).0.snapshot.last_seq <= t.snapshot.last_seq + 1,
        ensure_started_spec(t, rs, turn_id, now).0.next_message_ordinal == t.next_message_ordinal,
{
    broadcast use lemma_record_keeps_replay;

    reveal(ensure_started_spec);
}

proof fn lemma_open_then_change_keeps_replay(
    t: ThreadStateView,
    rs: ChatProjectionRunState,
    turn_id: TurnId,
    message: ChatMessage,
    complete: bool,
    keep_active: bool,
    now: i64,
)
    requires
        replay_kept(t),
        t.snapshot.last_seq + 2 <= u64::MAX,
    ensures
        replay_kept(open_then_change(t, rs, turn_id, message, complete, keep_active, now).0),
{
    broadcast use lemma_record_keeps_replay;

    let (t2, r2) = start_message_spec(t, turn_id, message@, now);
    if r2 is Ok {
        assert(replay_kept(t2) && t2.snapshot.last_seq <= t.snapshot.last_seq + 1);
        let (t3, r3) = change_message_spec(t2, r2->Ok_0.0, message@, complete, now);
    }
}

proof fn lemma_message_events_keep_replay(t: ThreadStateView, rs: ChatProjectionRunState, turn_id: TurnId, ev: AgentEvent, now: i64)
    requires
        replay_kept(t),
        projection_room(t),
        ev is MessageStart || ev is MessageUpdate || ev is MessageEnd,
    ensures
        replay_kept(project_spec(t, rs, turn_id, ev, now).0),
{
    broadcast use lemma_record_keeps_replay;

    lemma_ensure_started_keeps_replay(t, rs, turn_id, now);
    let st = ensure_started_spec(t, rs, turn_id, now);
    match ev {
        AgentEvent::MessageStart { message } => {
            let (t2, r2) = start_message_spec(st.0, turn_id, message@, now);
            assert(replay_kept(t2));
        },
        AgentEvent::MessageUpdate { message } => {
            match st.1.active_message_id {
                Some(mid) => {
                    let (t2, r2) = change_message_spec(st.0, mid, message@, false, now);
                    assert(replay_kept(change_step(st.0, st.1, mid, message, false, now).0));
                },
                None => {
                    lemma_open_then_change_keeps_replay(st.0, st.1, turn_id, message, false, true, now);
                },
            }
        },
        AgentEvent::MessageEnd { message } => {
            let rs2 = ChatProjectionRunState { active_message_id: None, ..st.1 };
            match st.1.active_message_id {
                Some(mid) => {
                    let (t2, r2) = change_message_spec(st.0, mid, message@, true, now);
                    assert(replay_kept(change_step(st.0, rs2, mid, message, true, now).0));
                },
                None => {
                    lemma_open_then_change_keeps_replay(st.0, rs2, turn_id, message, true, false, now);
                },
            }
        },
        _ => {},
    }
}

proof fn lemma_tool_events_keep_replay(t: ThreadStateView, rs: ChatProjectionRunState, turn_id: TurnId, ev: AgentEvent, now: i64)
    requires
        replay_kept(t),
        projection_room(t),
        ev is ToolExecutionStart || ev is ToolExecutionUpdate || ev is ToolExecutionEnd,
    ensures
        replay_kept(project_spec(t, rs, turn_id, ev, now).0),
{
    broadcast use lemma_record_keeps_replay;

    lemma_ensure_started_keeps_replay(t, rs, turn_id, now);
    let st = ensure_started_spec(t, rs, turn_id, now);
    match ev {
        AgentEvent::ToolExecutionUpdate { tool_call_id, tool_name, args, partial_result } => {
            let op = |s: ThreadStateView| update_tool_spec(s, turn_id, tool_call_id@, partial_result@, now);
            lemma_tool_step_keeps_replay(st.0, turn_id, tool_call_id@, tool_name@, args@, op, now);
        },
        AgentEvent::ToolExecutionEnd { tool_call_id, tool_name, result } => {
            let op = |s: ThreadStateView| complete_tool_spec(s, turn_id, tool_call_id@, result@, now);
            lemma_tool_step_keeps_replay(st.0, turn_id, tool_call_id@, tool_name@, "null"@, op, now);
        },
        _ => {},
    }
}

/// Projecting a loop event keeps the replay buffer in shape.
pub proof fn lemma_project_keeps_replay(t: ThreadStateView, rs: ChatProjectionRunState, turn_id: TurnId, ev: AgentEvent, now: i64)
    requires
        replay_kept(t),
        projection_room(t),
    ensures
        replay_kept(project_spec(t, rs, turn_id, ev, now).0),
{
    lemma_ensure_started_keeps_replay(t, rs, turn_id, now);
    if ev is MessageStart || ev is MessageUpdate || ev is MessageEnd {
        lemma_message_events_keep_replay(t, rs, turn_id, ev, now);
    } else if ev is ToolExecutionStart || ev is ToolExecutionUpdate || ev is ToolExecutionEnd {
        lemma_tool_events_keep_replay(t, rs, turn_id, ev, now);
    }
}

} // verus!

verus! {

/// Starts the run's turn unless it already is; see [`ensure_started_spec`].
fn ensure_turn_started(
    thread: &mut ThreadState,
    run_state: &mut ChatProjectionRunState,
    turn_id: TurnId,
    now: i64,
) -> (r: Result<Vec<AgentRuntimeEvent>, AgentRuntimeError>)
    requires
        old(thread)@.snapshot.last_seq < u64::MAX,
    ensures
        ({
            let s = ensure_started_spec(old(thread)@, *old(run_state), turn_id, now);
            &&& final(thread)@ == s.0
            &&& *final(run_state) == s.1
            &&& events_res(r) == s.2
        }),
        final(thread)@.snapshot.last_seq <= old(thread)@.snapshot.last_seq + 1,
        final(thread)@.next_message_ordinal == old(thread)@.next_message_ordinal,
{
    proof {
        reveal(ensure_started_spec);
    }
    if run_state.turn_started {
        proof {
            lemma_seq_view_empty::<AgentRuntimeEvent>();
        }
        return Ok(Vec::new());
    }
    let event = thread.start_turn(turn_id, now)?;
    run_state.turn_started = true;
    let mut events: Vec<AgentRuntimeEvent> = Vec::new();
    proof {
        lemma_seq_view_push(events@, event);
        lemma_seq_view_empty::<AgentRuntimeEvent>();
        assert(seq_view(events@.push(event)) =~= seq![event@]);
    }
    events.push(event);
    Ok(events)
}

/// The exact effect claimed by a projection step on `thread` and `run_state`.
pub open spec fn projected_as(
    t2: ThreadStateView,
    rs2: ChatProjectionRunState,
    r: Result<Vec<AgentRuntimeEvent>, AgentRuntimeError>,
    s: Projected,
) -> bool {
    &&& t2 == s.0
    &&& rs2 == s.1
    &&& events_res(r) == s.2
}

fn message_started(
    thread: &mut ThreadState,
    run_state: &mut ChatProjectionRunState,
    turn_id: TurnId,
    message: &ChatMessage,
    now: i64,
) -> (r: Result<Vec<AgentRuntimeEvent>, AgentRuntimeError>)
    requires
        projection_room(old(thread)@),
    ensures
        projected_as(final(thread)@, *final(run_state), r, message_start_spec(old(thread)@, *old(run_state), turn_id, *message, now)),
{
    if run_state.remaining_context_message_lifecycles > 0 {
        run_state.remaining_context_message_lifecycles = run_state.remaining_context_message_lifecycles - 1;
        run_state.skipping_context_message = true;
        proof {
            lemma_seq_view_empty::<AgentRuntimeEvent>();
        }
        return Ok(Vec::new());
    }
    let mut events = ensure_turn_started(thread, run_state, turn_id, now)?;
    let ghost es = seq_view(events@);
    let projection = thread.start_message(turn_id, message.duplicate(), now)?;
    run_state.active_message_id = Some(projection.message_id);
    proof {
        lemma_seq_view_push(events@, projection.event);
        assert(es.push(projection.event@) =~= es + seq![projection.event@]);
    }
    events.push(projection.event);
    Ok(events)
}

#[verifier::rlimit(60)]
fn message_updated(
    thread: &mut ThreadState,
    run_state: &mut ChatProjectionRunState,
    turn_id: TurnId,
    message: &ChatMessage,
    now: i64,
) -> (r: Result<Vec<AgentRuntimeEvent>, AgentRuntimeError>)
    requires
        projection_room(old(thread)@),
    ensures
        projected_as(final(thread)@, *final(run_state), r, message_update_spec(old(thread)@, *old(run_state), turn_id, *message, now)),
{
    let ghost started = ensure_started_spec(thread@, *run_state, turn_id, now);
    let mut events = ensure_turn_started(thread, run_state, turn_id, now)?;
    let ghost es = seq_view(events@);
    assert(started.2 == Ok::<Seq<EventView>, ErrorView>(es));
    match run_state.active_message_id {
        Some(message_id) => {
            let ghost step = change_step(started.0, started.1, message_id, *message, false, now);
            let e = thread.update_message(message_id, message.duplicate(), now)?;
            proof {
                lemma_seq_view_push(events@, e);
                assert(es.push(e@) =~= es + seq![e@]);
            }
            events.push(e);
            assert(step.2 == Ok::<Seq<EventView>, ErrorView>(seq![e@]));
        },
        None => {
            let ghost step = open_then_change(started.0, started.1, turn_id, *message, false, true, now);
            let projection = thread.start_message(turn_id, message.duplicate(), now)?;
            run_state.active_message_id = Some(projection.message_id);
            let e = thread.update_message(projection.message_id, message.duplicate(), now)?;
            proof {
                lemma_seq_view_push(events@, projection.event);
                lemma_seq_view_push(events@.push(projection.event), e);
                assert(es.push(projection.event@).push(e@) =~= es + seq![projection.event@, e@]);
            }
            events.push(projection.event);
            events.push(e);
            assert(step.2 == Ok::<Seq<EventView>, ErrorView>(seq![projection.event@, e@]));
        },
    }
    Ok(events)
}

#[verifier::rlimit(60)]
fn message_ended(
    thread: &mut ThreadState,
    run_state: &mut ChatProjectionRunState,
    turn_id: TurnId,
    message: &ChatMessage,
    now: i64,
) -> (r: Result<Vec<AgentRuntimeEvent>, AgentRuntimeError>)
    requires
        projection_room(old(thread)@),
    ensures
        projected_as(final(thread)@, *final(run_state), r, message_end_spec(old(thread)@, *old(run_state), turn_id, *message, now)),
{
    if run_state.skipping_context_message {
        run_state.skipping_context_message = false;
        proof {
            lemma_seq_view_empty::<AgentRuntimeEvent>();
        }
        return Ok(Vec::new());
    }
    let ghost started = ensure_started_spec(thread@, *run_state, turn_id, now);
    let mut events = ensure_turn_started(thread, run_state, turn_id, now)?;
    let ghost es = seq_view(events@);
    assert(started.2 == Ok::<Seq<EventView>, ErrorView>(es));
    let active = run_state.active_message_id;
    run_state.active_message_id = None;
    let ghost rs2 = *run_state;
    match active {
        Some(message_id) => {
            let ghost step = change_step(started.0, rs2, message_id, *message, true, now);
            let e = thread.complete_message(message_id, message.duplicate(), now)?;
            proof {
                lemma_seq_view_push(events@, e);
                assert(es.push(e@) =~= es + seq![e@]);
            }
            events.push(e);
            assert(step.2 == Ok::<Seq<EventView>, ErrorView>(seq![e@]));
        },
        None => {
            let ghost step = open_then_change(started.0, rs2, turn_id, *message, true, false, now);
            let projection = thread.start_message(turn_id, message.duplicate(), now)?;
            let e = thread.complete_message(projection.message_id, message.duplicate(), now)?;
            proof {
                lemma_seq_view_push(events@, projection.event);
                lemma_seq_view_push(events@.push(projection.event), e);
                assert(es.push(projection.event@).push(e@) =~= es + seq![projection.event@, e@]);
            }
            events.push(projection.event);
            events.push(e);
            assert(step.2 == Ok::<Seq<EventView>, ErrorView>(seq![projection.event@, e@]));
        },
    }
    Ok(events)
}

fn tool_started(
    thread: &mut ThreadState,
    run_state: &mut ChatProjectionRunState,
    turn_id: TurnId,
    tool_call_id: &String,
    tool_name: &String,
    args: &String,
    now: i64,
) -> (r: Result<Vec<AgentRuntimeEvent>, AgentRuntimeError>)
    requires
        projection_room(old(thread)@),
    ensures
        projected_as(
            final(thread)@,
            *final(run_state),
            r,
            tool_start_spec(old(thread)@, *old(run_state), turn_id, tool_call_id@, tool_name@, args@, now),
        ),
{
    let mut events = ensure_turn_started(thread, run_state, turn_id, now)?;
    let ghost es = seq_view(events@);
    let e = thread.start_tool(turn_id, tool_call_id.as_str(), tool_name.as_str(), args.as_str(), now)?;
    proof {
        lemma_seq_view_push(events@, e);
        assert(es.push(e@) =~= es + seq![e@]);
    }
    events.push(e);
    Ok(events)
}

/// Updates tool `tool_call_id`, starting it first when it is not known; see [`tool_step`].
#[verifier::rlimit(100)]
fn update_tool_retrying(
    thread: &mut ThreadState,
    turn_id: TurnId,
    tool_call_id: &String,
    tool_name: &String,
    args: &String,
    partial_result: &ToolUpdatePayload,
    now: i64,
) -> (r: Result<Vec<AgentRuntimeEvent>, AgentRuntimeError>)
    requires
        old(thread)@.snapshot.last_seq + 2 <= u64::MAX,
    ensures
        ({
            let s = tool_step(
                old(thread)@,
                turn_id,
                tool_call_id@,
                tool_name@,
                args@,
                |s: ThreadStateView| update_tool_spec(s, turn_id, tool_call_id@, partial_result@, now),
                now,
            );
            final(thread)@ == s.0 && events_res(r) == s.1
        }),
{
    proof {
        reveal(tool_step);
    }
    let mut events: Vec<AgentRuntimeEvent> = Vec::new();
    proof {
        lemma_seq_view_empty::<AgentRuntimeEvent>();
    }
    match thread.update_tool(turn_id, tool_call_id.as_str(), partial_result.duplicate(), now) {
        Ok(e) => {
            proof {
                lemma_seq_view_push(events@, e);
                assert(seq_view(events@.push(e)) =~= seq![e@]);
            }
            events.push(e);
        },
        Err(_) => {
            let e3 = thread.start_tool(turn_id, tool_call_id.as_str(), tool_name.as_str(), args.as_str(), now)?;
            let e4 = thread.update_tool(turn_id, tool_call_id.as_str(), partial_result.duplicate(), now)?;
            proof {
                lemma_seq_view_push(events@, e3);
                lemma_seq_view_push(events@.push(e3), e4);
                assert(seq_view(events@.push(e3).push(e4)) =~= seq![e3@, e4@]);
            }
            events.push(e3);
            events.push(e4);
        },
    }
    Ok(events)
}

/// Completes tool `tool_call_id`, starting it first when it is not known; see [`tool_step`].
#[verifier::rlimit(100)]
fn complete_tool_retrying(
    thread: &mut ThreadState,
    turn_id: TurnId,
    tool_call_id: &String,
    tool_name: &String,
    result: &AgentToolResult,
    now: i64,
) -> (r: Result<Vec<AgentRuntimeEvent>, AgentRuntimeError>)
    requires
        old(thread)@.snapshot.last_seq + 2 <= u64::MAX,
    ensures
        ({
            let s = tool_step(
                old(thread)@,
                turn_id,
                tool_call_id@,
                tool_name@,
                "null"@,
                |s: ThreadStateView| complete_tool_spec(s, turn_id, tool_call_id@, result@, now),
                now,
            );
            final(thread)@ == s.0 && events_res(r) == s.1
        }),
{
    proof {
        reveal(tool_step);
    }
    let mut events: Vec<AgentRuntimeEvent> = Vec::new();
    proof {
        lemma_seq_view_empty::<AgentRuntimeEvent>();
    }
    match thread.complete_tool(turn_id, tool_call_id.as_str(), result.duplicate(), now) {
        Ok(e) => {
            proof {
                lemma_seq_view_push(events@, e);
                assert(seq_view(events@.push(e)) =~= seq![e@]);
            }
            events.push(e);
        },
        Err(_) => {
            let e3 = thread.start_tool(turn_id, tool_call_id.as_str(), tool_name.as_str(), "null", now)?;
            let e4 = thread.complete_tool(turn_id, tool_call_id.as_str(), result.duplicate(), now)?;
            proof {
                lemma_seq_view_push(events@, e3);
                lemma_seq_view_push(events@.push(e3), e4);
                assert(seq_view(events@.push(e3).push(e4)) =~= seq![e3@, e4@]);
            }
            events.push(e3);
            events.push(e4);
        },
    }
    Ok(events)
}

fn tool_updated(
    thread: &mut ThreadState,
    run_state: &mut ChatProjectionRunState,
    turn_id: TurnId,
    tool_call_id: &String,
    tool_name: &String,
    args: &String,
    partial_result: &ToolUpdatePayload,
    now: i64,
) -> (r: Result<Vec<AgentRuntimeEvent>, AgentRuntimeError>)
    requires
        projection_room(old(thread)@),
    ensures
        projected_as(
            final(thread)@,
            *final(run_state),
            r,
            tool_update_spec(old(thread)@, *old(run_state), turn_id, tool_call_id@, tool_name@, args@, partial_result@, now),
        ),
{
    let ghost started = ensure_started_spec(thread@, *run_state, turn_id, now);
    let mut events = ensure_turn_started(thread, run_state, turn_id, now)?;
    let ghost es = seq_view(events@);
    let more = update_tool_retrying(thread, turn_id, tool_call_id, tool_name, args, partial_result, now)?;
    let ghost ms = seq_view(more@);
    let mut i: usize = 0;
    while i < more.len()
        invariant
            i <= more.len(),
            ms == seq_view(more@),
            seq_view(events@) == es + ms.take(i as int),
        decreases more.len() - i,
    {
        let e = more[i].duplicate();
        proof {
            lemma_seq_view_push(events@, e);
            assert(ms.take(i + 1) =~= ms.take(i as int).push(e@));
        }
        events.push(e);
        i = i + 1;
    }
    proof {
        assert(ms.take(ms.len() as int) =~= ms);
    }
    Ok(events)
}

fn tool_ended(
    thread: &mut ThreadState,
    run_state: &mut ChatProjectionRunState,
    turn_id: TurnId,
    tool_call_id: &String,
    tool_name: &String,
    result: &AgentToolResult,
    now: i64,
) -> (r: Result<Vec<AgentRuntimeEvent>, AgentRuntimeError>)
    requires
        projection_room(old(thread)@),
    ensures
        projected_as(
            final(thread)@,
            *final(run_state),
            r,
            tool_end_spec(old(thread)@, *old(run_state), turn_id, tool_call_id@, tool_name@, result@, now),
        ),
{
    let ghost started = ensure_started_spec(thread@, *run_state, turn_id, now);
    let mut events = ensure_turn_started(thread, run_state, turn_id, now)?;
    let ghost es = seq_view(events@);
    let more = complete_tool_retrying(thread, turn_id, tool_call_id, tool_name, result, now)?;
    let ghost ms = seq_view(more@);
    let mut i: usize = 0;
    while i < more.len()
        invariant
            i <= more.len(),
            ms == seq_view(more@),
            seq_view(events@) == es + ms.take(i as int),
        decreases more.len() - i,
    {
        let e = more[i].duplicate();
        proof {
            lemma_seq_view_push(events@, e);
            assert(ms.take(i + 1) =~= ms.take(i as int).push(e@));
        }
        events.push(e);
        i = i + 1;
    }
    proof {
        assert(ms.take(ms.len() as int) =~= ms);
    }
    Ok(events)
}

/// Projects loop event `event` of the run of turn `turn_id` onto `thread`;
/// see [`project_spec`].
pub fn project_thread_event(
    thread: &mut ThreadState,
    run_state: &mut ChatProjectionRunState,
    turn_id: TurnId,
    event: &AgentEvent,
    now: i64,
) -> (r: Result<Vec<AgentRuntimeEvent>, AgentRuntimeError>)
    requires
        projection_room(old(thread)@),
    ensures
        projected_as(final(thread)@, *final(run_state), r, project_spec(old(thread)@, *old(run_state), turn_id, *event, now)),
{
    match event {
        AgentEvent::TurnStart { .. } => ensure_turn_started(thread, run_state, turn_id, now),
        AgentEvent::MessageStart { message } => message_started(thread, run_state, turn_id, message, now),
        AgentEvent::MessageUpdate { message } => message_updated(thread, run_state, turn_id, message, now),
        AgentEvent::MessageEnd { message } => message_ended(thread, run_state, turn_id, message, now),
        AgentEvent::ToolExecutionStart { tool_call_id, tool_name, args } => tool_started(
            thread,
            run_state,
            turn_id,
            tool_call_id,
            tool_name,
            args,
            now,
        ),
        AgentEvent::ToolExecutionUpdate { tool_call_id, tool_name, args, partial_result } => tool_updated(
            thread,
            run_state,
            turn_id,
            tool_call_id,
            tool_name,
            args,
            partial_result,
            now,
        ),
        AgentEvent::ToolExecutionEnd { tool_call_id, tool_name, result } => tool_ended(
            thread,
            run_state,
            turn_id,
            tool_call_id,
            tool_name,
            result,
            now,
        ),
        _ => {
            proof {
                lemma_seq_view_empty::<AgentRuntimeEvent>();
            }
            Ok(Vec::new())
        },
    }
}

/// Projects loop event `event` when the run's thread is not projected;
/// see [`missing_thread_spec`].
pub fn project_missing_thread(
    run_state: &mut ChatProjectionRunState,
    turn_id: TurnId,
    event: &AgentEvent,
) -> (r: Result<Vec<AgentRuntimeEvent>, AgentRuntimeError>)
    ensures
        (*final(run_state), events_res(r)) == missing_thread_spec(*old(run_state), turn_id, *event),
{
    proof {
        lemma_seq_view_empty::<AgentRuntimeEvent>();
    }
    let not_found = AgentRuntimeError::ThreadNotFound { thread_id: turn_id.thread_id };
    match event {
        AgentEvent::TurnStart { .. } => if run_state.turn_started {
            Ok(Vec::new())
        } else {
            Err(not_found)
        },
        AgentEvent::MessageStart { .. } => if run_state.remaining_context_message_lifecycles > 0 {
            run_state.remaining_context_message_lifecycles = run_state.remaining_context_message_lifecycles - 1;
            run_state.skipping_context_message = true;
            Ok(Vec::new())
        } else {
            Err(not_found)
        },
        AgentEvent::MessageEnd { .. } => if run_state.skipping_context_message {
            run_state.skipping_context_message = false;
            Ok(Vec::new())
        } else {
            if run_state.turn_started {
                run_state.active_message_id = None;
            }
            Err(not_found)
        },
        AgentEvent::MessageUpdate { .. } => Err(not_found),
        AgentEvent::ToolExecutionStart { .. } => Err(not_found),
        AgentEvent::ToolExecutionUpdate { .. } => Err(not_found),
        AgentEvent::ToolExecutionEnd { .. } => Err(not_found),
        _ => Ok(Vec::new()),
    }
}

} // verus!
