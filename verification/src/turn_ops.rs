//! Multi-step turn operations of the runtime on one thread: closing a turn
//! (a cancel also cancels what the turn still waits on) and canceling a turn
//! on request.

use vstd::prelude::*;
use vstd::string::*;

use crate::domain::{TurnSnapshot, TurnStatus, TurnView};
use crate::dup::{lemma_seq_view_add, lemma_seq_view_empty, lemma_seq_view_push, seq_view, Duplicate};
use crate::error::{error_text, status_name, status_name_text, AgentRuntimeError, ErrorView};
use crate::event::{events_res, AgentRuntimeEvent, AgentRuntimeEventPayload, EventView, PayloadView};
use crate::ids::TurnId;
use crate::thread::{
    cancel_pending_approvals_spec, cancel_pending_interactions_spec, lemma_cancel_approvals_keeps_replay,
    lemma_cancel_interactions_keeps_replay, lemma_record_keeps_replay, replay_kept, terminal_turn_spec, turn_index,
    turn_lookup_error, ThreadState, ThreadStateView,
};

verus! {

/// Room for closing a turn: every pending approval and interaction may be
/// canceled, then the turn itself.
pub open spec fn closing_room(t: ThreadStateView) -> bool {
    t.snapshot.last_seq + t.snapshot.approvals.len() + t.snapshot.human_interactions.len() + 1 <= u64::MAX
}

/// The error for a request to close a turn with a non-terminal status.
pub open spec fn non_terminal_error(status: TurnStatus) -> ErrorView {
    ErrorView::ProjectionFailed { message: "non-terminal status requested: "@ + status_name(status) }
}

/// Effect of closing turn `turn_id` with `status`: a cancel first cancels the
/// turn's pending approvals, then its pending human interactions; a failure
/// carries `error`; a non-terminal status is refused.
pub open spec fn terminal_events_spec(
    t: ThreadStateView,
    turn_id: TurnId,
    status: TurnStatus,
    error: Option<Seq<char>>,
    now: i64,
) -> (ThreadStateView, Result<Seq<EventView>, ErrorView>) {
    match status {
        TurnStatus::Completed => {
            let (t1, r1) = terminal_turn_spec(t, turn_id, TurnStatus::Completed, None, now);
            (t1, match r1 {
                Ok(e) => Ok(seq![e]),
                Err(e) => Err(e),
            })
        },
        TurnStatus::Failed => {
            let (t1, r1) = terminal_turn_spec(t, turn_id, TurnStatus::Failed, error, now);
            (t1, match r1 {
                Ok(e) => Ok(seq![e]),
                Err(e) => Err(e),
            })
        },
        TurnStatus::Canceled => {
            let (t1, r1) = cancel_pending_approvals_spec(t, turn_id, now);
            match r1 {
                Err(e) => (t1, Err(e)),
                Ok(es1) => {
                    let (t2, r2) = cancel_pending_interactions_spec(t1, turn_id, now);
                    match r2 {
                        Err(e) => (t2, Err(e)),
                        Ok(es2) => {
                            let (t3, r3) = terminal_turn_spec(t2, turn_id, TurnStatus::Canceled, None, now);
                            match r3 {
                                Err(e) => (t3, Err(e)),
                                Ok(e3) => (t3, Ok(es1 + es2 + seq![e3])),
                            }
                        },
                    }
                },
            }
        },
        _ => (t, Err(non_terminal_error(status))),
    }
}

fn one_event(e: AgentRuntimeEvent) -> (r: Vec<AgentRuntimeEvent>)
    ensures
        seq_view(r@) == seq![e@],
{
    let mut v: Vec<AgentRuntimeEvent> = Vec::new();
    proof {
        lemma_seq_view_push(v@, e);
        assert(seq_view(v@.push(e)) =~= seq![e@]);
    }
    v.push(e);
    v
}

/// Closes turn `turn_id` with `status`; see [`terminal_events_spec`].
pub fn terminal_events(
    thread: &mut ThreadState,
    turn_id: TurnId,
    status: TurnStatus,
    error: Option<String>,
    now: i64,
) -> (r: Result<Vec<AgentRuntimeEvent>, AgentRuntimeError>)
    requires
        closing_room(old(thread)@),
        status == TurnStatus::Failed ==> error.is_some(),
    ensures
        ({
            let s = terminal_events_spec(old(thread)@, turn_id, status, match error {
                Some(x) => Some(x@),
                None => None,
            }, now);
            final(thread)@ == s.0 && events_res(r) == s.1
        }),
        final(thread)@.snapshot.thread_id == old(thread)@.snapshot.thread_id,
{
    match status {
        TurnStatus::Completed => {
            let e = thread.complete_turn(turn_id, now)?;
            Ok(one_event(e))
        },
        TurnStatus::Failed => {
            let message = match error {
                Some(m) => m,
                None => {
                    return unreached();
                },
            };
            let e = thread.fail_turn(turn_id, message, now)?;
            Ok(one_event(e))
        },
        TurnStatus::Canceled => {
            let mut events = thread.cancel_pending_approvals(turn_id, now)?;
            let ghost es1 = seq_view(events@);
            let more = thread.cancel_pending_human_interactions(turn_id, now)?;
            let ghost es2 = seq_view(more@);
            let e = thread.cancel_turn(turn_id, now)?;
            let ghost v1 = events@;
            let mut more = more;
            let ghost v2 = more@;
            events.append(&mut more);
            proof {
                lemma_seq_view_add(v1, v2);
                lemma_seq_view_push(events@, e);
                assert(es1 + es2 + seq![e@] =~= (es1 + es2).push(e@));
            }
            events.push(e);
            Ok(events)
        },
        _ => {
            let mut message = String::from_str("non-terminal status requested: ");
            let name = status_name_text(status);
            message.append(name.as_str());
            Err(AgentRuntimeError::ProjectionFailed { message })
        },
    }
}

/// The error for a cancel that emitted something else than a cancel event.
pub open spec fn non_cancel_error(turn_id: TurnId) -> ErrorView {
    ErrorView::ProjectionFailed { message: "cancel projection emitted non-cancel event: "@ + turn_id.text() }
}

/// What canceling turn `turn_id` on request yields: the turn's status
/// before, the events (pending approvals canceled, then the turn), and the
/// canceled turn.
pub open spec fn cancel_request_spec(t: ThreadStateView, turn_id: TurnId, now: i64) -> (
    ThreadStateView,
    Result<(TurnStatus, Seq<EventView>, TurnView), ErrorView>,
) {
    match turn_lookup_error(t, turn_id) {
        Some(e) => (t, Err(e)),
        None => {
            let previous = t.snapshot.turns[turn_index(t, turn_id)].status;
            let (t1, r1) = cancel_pending_approvals_spec(t, turn_id, now);
            match r1 {
                Err(e) => (t1, Err(e)),
                Ok(es) => {
                    let (t2, r2) = terminal_turn_spec(t1, turn_id, TurnStatus::Canceled, None, now);
                    match r2 {
                        Err(e) => (t2, Err(e)),
                        Ok(e) => match e.payload {
                            PayloadView::TurnCanceled { turn } => (t2, Ok((previous, es.push(e), turn))),
                            _ => (t2, Err(non_cancel_error(turn_id))),
                        },
                    }
                },
            }
        },
    }
}

/// The view of a cancel result.
pub open spec fn cancel_res(
    r: Result<(TurnStatus, Vec<AgentRuntimeEvent>, TurnSnapshot), AgentRuntimeError>,
) -> Result<(TurnStatus, Seq<EventView>, TurnView), ErrorView> {
    match r {
        Ok((s, v, turn)) => Ok((s, seq_view(v@), turn@)),
        Err(e) => Err(e@),
    }
}

/// Cancels turn `turn_id` on request; see [`cancel_request_spec`].
pub fn cancel_request(thread: &mut ThreadState, turn_id: TurnId, now: i64) -> (r: Result<
    (TurnStatus, Vec<AgentRuntimeEvent>, TurnSnapshot),
    AgentRuntimeError,
>)
    requires
        closing_room(old(thread)@),
    ensures
        ({
            let s = cancel_request_spec(old(thread)@, turn_id, now);
            final(thread)@ == s.0 && cancel_res(r) == s.1
        }),
        final(thread)@.snapshot.thread_id == old(thread)@.snapshot.thread_id,
{
    let previous = thread.turn_snapshot_or_err(turn_id)?;
    let mut events = thread.cancel_pending_approvals(turn_id, now)?;
    let event = thread.cancel_turn(turn_id, now)?;
    let canceled = match &event.payload {
        AgentRuntimeEventPayload::TurnCanceled { turn } => turn.duplicate(),
        _ => {
            let mut message = String::from_str("cancel projection emitted non-cancel event: ");
            let text = turn_id.to_text();
            message.append(text.as_str());
            return Err(AgentRuntimeError::ProjectionFailed { message });
        },
    };
    proof {
        lemma_seq_view_push(events@, event);
    }
    events.push(event);
    Ok((previous.status, events, canceled))
}

/// Closing a turn keeps the replay buffer in shape.
pub proof fn lemma_terminal_events_keep_replay(
    t: ThreadStateView,
    turn_id: TurnId,
    status: TurnStatus,
    error: Option<Seq<char>>,
    now: i64,
)
    requires
        replay_kept(t),
        closing_room(t),
    ensures
        replay_kept(terminal_events_spec(t, turn_id, status, error, now).0),
{
    broadcast use lemma_record_keeps_replay;

    if status == TurnStatus::Canceled {
        lemma_cancel_approvals_keeps_replay(t, turn_id, now);
        let (t1, r1) = cancel_pending_approvals_spec(t, turn_id, now);
        lemma_cancel_interactions_keeps_replay(t1, turn_id, now);
    }
}

/// Canceling a turn on request keeps the replay buffer in shape.
pub proof fn lemma_cancel_request_keeps_replay(t: ThreadStateView, turn_id: TurnId, now: i64)
    requires
        replay_kept(t),
        closing_room(t),
    ensures
        replay_kept(cancel_request_spec(t, turn_id, now).0),
{
    broadcast use lemma_record_keeps_replay;

    lemma_cancel_approvals_keeps_replay(t, turn_id, now);
}

} // verus!
