use roci_core::error::AgentRuntimeError;
use roci_core::ids::{MessageId, RuntimeCursor, ThreadId, TurnId};

fn fresh_thread_id() -> ThreadId {
    ThreadId::from_u128(uuid::Uuid::new_v4().as_u128())
}

#[test]
fn runtime_cursor_is_thread_scoped() {
    let thread_id = ThreadId::nil();
    let cursor = RuntimeCursor::new(thread_id, 42);

    assert_eq!(cursor.thread_id, thread_id);
    assert_eq!(cursor.seq, 42);
}

#[test]
fn turn_and_message_ids_carry_thread_revision() {
    let thread_id = fresh_thread_id();
    let turn_id = TurnId::new(thread_id, 7, 3);
    let message_id = MessageId::new(thread_id, 7, 9);

    assert_eq!(turn_id.thread_id(), thread_id);
    assert_eq!(turn_id.revision(), 7);
    assert_eq!(turn_id.ordinal(), 3);
    assert_eq!(message_id.thread_id(), thread_id);
    assert_eq!(message_id.revision(), 7);
    assert_eq!(message_id.ordinal(), 9);
}

#[test]
fn stale_runtime_error_reports_requested_and_oldest_seq() {
    let thread_id = ThreadId::nil();
    let err = AgentRuntimeError::StaleRuntime {
        thread_id,
        requested_seq: 4,
        oldest_available_seq: 12,
        latest_seq: 19,
    };
    let display = err.message();

    assert!(display.contains("requested seq 4"));
    assert!(display.contains("oldest available 12"));
    assert!(display.contains("latest seq 19"));
}
