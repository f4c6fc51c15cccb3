use roci_core::domain::{TurnSnapshot, TurnStatus};
use roci_core::error::AgentRuntimeError;
use roci_core::event::{AgentRuntimeEvent, AgentRuntimeEventPayload};
use roci_core::ids::{RuntimeCursor, ThreadId, TurnId};
use roci_core::jsonl::{
    classify_line, replay_error, unterminated_error, JsonlEventStoreState, JsonlRuntimeRecord,
    LineKind,
};
use roci_core::subscription::{closed_error, RuntimeSubscription};


fn event(thread_id: ThreadId, seq: u64) -> AgentRuntimeEvent {
    let turn = TurnSnapshot {
        turn_id: TurnId::new(thread_id, 0, seq),
        thread_id,
        status: TurnStatus::Queued,
        message_ids: Vec::new(),
        active_tool_call_ids: Vec::new(),
        error: None,
        queued_at: 0,
        started_at: None,
        completed_at: None,
    };
    AgentRuntimeEvent::new(
        seq,
        thread_id,
        Some(turn.turn_id),
        AgentRuntimeEventPayload::TurnQueued { turn },
        5,
    )
}

fn seqs(events: &[AgentRuntimeEvent]) -> Vec<u64> {
    events.iter().map(|event| event.seq).collect()
}

#[test]
fn jsonl_state_replays_applied_records_in_order() {
    let thread_id = ThreadId::from_u128(1);
    let mut state = JsonlEventStoreState::new();
    state
        .apply_record(JsonlRuntimeRecord::Event {
            event: event(thread_id, 1),
        })
        .unwrap();
    state
        .apply_record(JsonlRuntimeRecord::EventBatch {
            events: vec![event(thread_id, 2), event(thread_id, 3)],
        })
        .unwrap();

    let events = state.events_after(RuntimeCursor::new(thread_id, 1)).unwrap();
    assert_eq!(seqs(&events), vec![2, 3]);
}

#[test]
fn jsonl_state_rejects_a_record_that_does_not_advance_its_thread() {
    let thread_id = ThreadId::from_u128(2);
    let mut state = JsonlEventStoreState::new();
    state
        .apply_record(JsonlRuntimeRecord::Event {
            event: event(thread_id, 3),
        })
        .unwrap();
    let err = state
        .apply_record(JsonlRuntimeRecord::Event {
            event: event(thread_id, 3),
        })
        .unwrap_err();
    assert_eq!(
        err,
        AgentRuntimeError::ProjectionFailed {
            message: "runtime event seq must increase for thread 00000000-0000-0000-0000-000000000002: received 3, latest 3".to_string(),
        }
    );
    assert_eq!(seqs(&state.events_after(RuntimeCursor::new(thread_id, 2)).unwrap()), vec![3]);
}

#[test]
fn jsonl_batch_validation_checks_events_against_earlier_ones_in_the_batch() {
    let thread_id = ThreadId::from_u128(3);
    let state = JsonlEventStoreState::new();
    assert!(state
        .validate_events(&vec![event(thread_id, 1), event(thread_id, 2)])
        .is_ok());
    let err = state
        .validate_events(&vec![event(thread_id, 2), event(thread_id, 2)])
        .unwrap_err();
    assert!(matches!(err, AgentRuntimeError::ProjectionFailed { .. }));

    let mut state = JsonlEventStoreState::new();
    let rejected = state.apply_record(JsonlRuntimeRecord::EventBatch {
        events: vec![event(thread_id, 1), event(thread_id, 1)],
    });
    assert!(rejected.is_err());
    assert!(state
        .events_after(RuntimeCursor::new(thread_id, 0))
        .unwrap()
        .is_empty());
}

#[test]
fn jsonl_invalidation_record_marks_old_cursors_stale() {
    let thread_id = ThreadId::from_u128(4);
    let mut state = JsonlEventStoreState::new();
    state.apply_events(vec![event(thread_id, 1), event(thread_id, 2)]);
    state
        .apply_record(JsonlRuntimeRecord::ThreadInvalidated {
            thread_id,
            latest_seq: 3,
        })
        .unwrap();

    let stale = state
        .events_after(RuntimeCursor::new(thread_id, 2))
        .unwrap_err();
    assert_eq!(
        stale,
        AgentRuntimeError::StaleRuntime {
            thread_id,
            requested_seq: 2,
            oldest_available_seq: 4,
            latest_seq: 3,
        }
    );
    assert!(state.validate_event(&event(thread_id, 3)).is_err());
    assert!(state.validate_event(&event(thread_id, 4)).is_ok());
}

#[test]
fn replay_lines_are_classified_by_content_and_trailing_newline() {
    assert_eq!(classify_line("\n"), LineKind::Blank);
    assert_eq!(classify_line("  \t\n"), LineKind::Blank);
    assert_eq!(classify_line(""), LineKind::Blank);
    assert_eq!(classify_line("{\"type\":\"event\"}\n"), LineKind::Record);
    assert_eq!(classify_line("not-json\n"), LineKind::Record);
    assert_eq!(classify_line("{\"type\":\"event\"}"), LineKind::Unterminated);
}

#[test]
fn corrupt_committed_line_error_names_path_and_line() {
    let err = replay_error("/tmp/x/events.jsonl", 2, "expected value");
    match err {
        AgentRuntimeError::ProjectionFailed { message } => {
            assert!(message.contains("events.jsonl"));
            assert!(message.contains("line 2"));
            assert_eq!(
                message,
                "failed to replay runtime events from /tmp/x/events.jsonl at line 2: expected value"
            );
        }
        other => panic!("expected projection failure, got {other:?}"),
    }
}

#[test]
fn uncommitted_final_line_error_names_path_and_final_line() {
    let err = unterminated_error("/tmp/x/events.jsonl", 1);
    match err {
        AgentRuntimeError::ProjectionFailed { message } => {
            assert!(message.contains("events.jsonl"));
            assert!(message.contains("final line 1"));
            assert!(message.ends_with("record missing trailing newline"));
        }
        other => panic!("expected projection failure, got {other:?}"),
    }
}

#[test]
fn subscription_drops_live_events_already_replayed() {
    let thread_id = ThreadId::from_u128(9);
    let replay = Ok(vec![event(thread_id, 3), event(thread_id, 4)]);
    let mut subscription = RuntimeSubscription::new(replay, Some(RuntimeCursor::new(thread_id, 2)));

    assert_eq!(seqs(&subscription.replay().unwrap()), vec![3, 4]);
    assert!(subscription.take_startup_error().is_none());
    assert!(!subscription.accept_live(&event(thread_id, 4)));
    assert!(!subscription.accept_live(&event(thread_id, 2)));
    assert!(subscription.accept_live(&event(thread_id, 5)));
    assert!(!subscription.accept_live(&event(thread_id, 5)));
    let other = ThreadId::from_u128(10);
    assert!(subscription.accept_live(&event(other, 1)));
}

#[test]
fn subscription_reports_startup_error_once() {
    let thread_id = ThreadId::from_u128(11);
    let stale = AgentRuntimeError::StaleRuntime {
        thread_id,
        requested_seq: 0,
        oldest_available_seq: 2,
        latest_seq: 3,
    };
    let mut subscription =
        RuntimeSubscription::new(Err(stale.clone()), Some(RuntimeCursor::new(thread_id, 0)));
    assert_eq!(subscription.take_startup_error(), Some(stale));
    assert_eq!(subscription.take_startup_error(), None);
}

#[test]
fn subscription_lag_error_resumes_after_latest_seen() {
    let thread_id = ThreadId::from_u128(12);
    let mut subscription =
        RuntimeSubscription::new(Ok(Vec::new()), Some(RuntimeCursor::new(thread_id, 6)));
    assert!(subscription.accept_live(&event(thread_id, 7)));
    assert_eq!(
        subscription.lagged_error(),
        AgentRuntimeError::StaleRuntime {
            thread_id,
            requested_seq: 7,
            oldest_available_seq: 8,
            latest_seq: 7,
        }
    );
    assert_eq!(
        closed_error(),
        AgentRuntimeError::ProjectionFailed {
            message: "runtime event stream closed".to_string(),
        }
    );
}

#[test]
fn live_only_subscription_delivers_every_first_event() {
    let mut subscription = RuntimeSubscription::new(Ok(Vec::new()), None);
    let thread_id = ThreadId::from_u128(13);
    assert!(subscription.accept_live(&event(thread_id, 1)));
    assert!(!subscription.accept_live(&event(thread_id, 1)));
}

#[test]
fn jsonl_state_lists_all_events_by_thread_then_seq() {
    let low = ThreadId::from_u128(1);
    let high = ThreadId::from_u128(0xff << 64);
    let mut state = JsonlEventStoreState::new();
    state.apply_events(vec![event(high, 1), event(low, 1), event(high, 2), event(low, 2)]);
    let listed = state
        .all_events()
        .iter()
        .map(|event| (event.thread_id, event.seq))
        .collect::<Vec<_>>();
    assert_eq!(listed, vec![(low, 1), (low, 2), (high, 1), (high, 2)]);
}
