use roci_core::domain::{TurnSnapshot, TurnStatus};
use roci_core::error::AgentRuntimeError;
use roci_core::event::{AgentRuntimeEvent, AgentRuntimeEventPayload};
use roci_core::ids::{RuntimeCursor, ThreadId, TurnId};
use roci_core::store::{seq_error_message, InMemoryAgentRuntimeEventStore};

const NOW: i64 = 1_700_000_000_000;

fn fresh_thread_id() -> ThreadId {
    ThreadId::from_u128(uuid::Uuid::new_v4().as_u128())
}

fn test_turn(thread_id: ThreadId, seq: u64) -> TurnSnapshot {
    TurnSnapshot {
        turn_id: TurnId::new(thread_id, 0, seq),
        thread_id,
        status: TurnStatus::Queued,
        message_ids: Vec::new(),
        active_tool_call_ids: Vec::new(),
        error: None,
        queued_at: 1_700_000_000_000,
        started_at: None,
        completed_at: None,
    }
}

fn test_event(thread_id: ThreadId, seq: u64) -> AgentRuntimeEvent {
    let turn = test_turn(thread_id, seq);
    AgentRuntimeEvent::new(
        seq,
        thread_id,
        Some(turn.turn_id),
        AgentRuntimeEventPayload::TurnQueued { turn },
        NOW,
    )
}

fn seqs(events: &[AgentRuntimeEvent]) -> Vec<u64> {
    events.iter().map(|event| event.seq).collect()
}

#[test]
fn events_after_returns_events_after_cursor_for_same_thread() {
    let mut store = InMemoryAgentRuntimeEventStore::new();
    let thread_id = fresh_thread_id();
    let other_thread_id = fresh_thread_id();

    store.append(test_event(thread_id, 1)).unwrap();
    store.append(test_event(other_thread_id, 1)).unwrap();
    store.append(test_event(thread_id, 2)).unwrap();
    store.append(test_event(thread_id, 3)).unwrap();

    let events = store
        .events_after(RuntimeCursor::new(thread_id, 1))
        .unwrap();

    assert_eq!(seqs(&events), vec![2, 3]);
    assert!(events.iter().all(|event| event.thread_id == thread_id));
}

#[test]
fn append_returns_cursor_and_preserves_append_order() {
    let mut store = InMemoryAgentRuntimeEventStore::new();
    let thread_id = fresh_thread_id();

    let cursor = store.append(test_event(thread_id, 1)).unwrap();
    store.append(test_event(thread_id, 2)).unwrap();
    store.append(test_event(thread_id, 3)).unwrap();

    let events = store
        .events_after(RuntimeCursor::new(thread_id, 0))
        .unwrap();

    assert_eq!(cursor, RuntimeCursor::new(thread_id, 1));
    assert_eq!(seqs(&events), vec![1, 2, 3]);
}

#[test]
fn bounded_store_evicts_old_events_and_reports_stale_cursors() {
    let mut store = InMemoryAgentRuntimeEventStore::with_replay_capacity(2);
    let thread_id = fresh_thread_id();

    store.append(test_event(thread_id, 1)).unwrap();
    store.append(test_event(thread_id, 2)).unwrap();
    store.append(test_event(thread_id, 3)).unwrap();

    let events = store
        .events_after(RuntimeCursor::new(thread_id, 1))
        .unwrap();
    let stale = store
        .events_after(RuntimeCursor::new(thread_id, 0))
        .unwrap_err();

    assert_eq!(seqs(&events), vec![2, 3]);
    assert_eq!(
        stale,
        AgentRuntimeError::StaleRuntime {
            thread_id,
            requested_seq: 0,
            oldest_available_seq: 2,
            latest_seq: 3,
        }
    );
}

#[test]
fn append_rejects_non_increasing_seq_per_thread() {
    let mut store = InMemoryAgentRuntimeEventStore::new();
    let thread_id = fresh_thread_id();

    store.append(test_event(thread_id, 2)).unwrap();
    let err = store.append(test_event(thread_id, 2)).unwrap_err();

    assert!(matches!(err, AgentRuntimeError::ProjectionFailed { .. }));
}

#[test]
fn invalidate_thread_clears_replay_and_marks_old_cursors_stale() {
    let mut store = InMemoryAgentRuntimeEventStore::new();
    let thread_id = fresh_thread_id();

    store.append(test_event(thread_id, 1)).unwrap();
    store.append(test_event(thread_id, 2)).unwrap();
    store.invalidate_thread(thread_id, 3).unwrap();

    let err = store
        .events_after(RuntimeCursor::new(thread_id, 2))
        .unwrap_err();

    assert_eq!(
        err,
        AgentRuntimeError::StaleRuntime {
            thread_id,
            requested_seq: 2,
            oldest_available_seq: 4,
            latest_seq: 3,
        }
    );
}

#[test]
fn appended_event_is_read_back_after_the_previous_cursor() {
    let mut store = InMemoryAgentRuntimeEventStore::new();
    let thread_id = fresh_thread_id();
    store.append(test_event(thread_id, 4)).unwrap();
    let cursor = store.append(test_event(thread_id, 9)).unwrap();

    assert_eq!(cursor, RuntimeCursor::new(thread_id, 9));
    let events = store
        .events_after(RuntimeCursor::new(thread_id, 4))
        .unwrap();
    assert_eq!(seqs(&events), vec![9]);
    assert!(store
        .events_after(RuntimeCursor::new(thread_id, 9))
        .unwrap()
        .is_empty());
}

#[test]
fn unknown_thread_replays_nothing() {
    let store = InMemoryAgentRuntimeEventStore::new();
    let events = store
        .events_after(RuntimeCursor::new(fresh_thread_id(), 0))
        .unwrap();
    assert!(events.is_empty());
}

#[test]
fn cursor_ahead_of_latest_replays_nothing() {
    let mut store = InMemoryAgentRuntimeEventStore::new();
    let thread_id = fresh_thread_id();
    store.append(test_event(thread_id, 1)).unwrap();

    let events = store
        .events_after(RuntimeCursor::new(thread_id, 5))
        .unwrap();
    assert!(events.is_empty());
}

#[test]
fn seq_error_names_thread_and_both_sequences() {
    let thread_id = ThreadId::from_u128(0x0123_4567_89ab_cdef_0123_4567_89ab_cdef);
    let err = seq_error_message(thread_id, 2, 7);
    assert_eq!(
        err,
        AgentRuntimeError::ProjectionFailed {
            message: "runtime event seq must increase for thread 01234567-89ab-cdef-0123-456789abcdef: received 2, latest 7".to_string(),
        }
    );
}

#[test]
fn invalidate_then_append_after_new_latest_is_accepted() {
    let mut store = InMemoryAgentRuntimeEventStore::new();
    let thread_id = fresh_thread_id();
    store.append(test_event(thread_id, 1)).unwrap();
    store.invalidate_thread(thread_id, 5).unwrap();

    assert!(store.append(test_event(thread_id, 5)).is_err());
    store.append(test_event(thread_id, 6)).unwrap();
    let events = store
        .events_after(RuntimeCursor::new(thread_id, 5))
        .unwrap();
    assert_eq!(seqs(&events), vec![6]);
}
