use roci_core::domain::{ChatMessage, ChatRuntimeConfig, TurnSnapshot, TurnStatus};
use roci_core::error::RociError;
use roci_core::event::{
    AgentRuntimeEvent, AgentRuntimeEventPayload, SubagentRuntimeSnapshot, SubagentStatus,
};
use roci_core::ids::{RuntimeCursor, ThreadId, TurnId};
use roci_core::projector::ChatProjector;
use roci_core::runtime_types::{effective_retry_mode, RetryMode, DEFAULT_BACKOFF_MAX_ATTEMPTS};

const NOW: i64 = 1_700_000_000_000;

fn fresh_thread_id() -> ThreadId {
    ThreadId::from_u128(uuid::Uuid::new_v4().as_u128())
}

fn test_turn(thread_id: ThreadId) -> TurnSnapshot {
    TurnSnapshot {
        turn_id: TurnId::new(thread_id, 0, 1),
        thread_id,
        status: TurnStatus::Queued,
        message_ids: Vec::new(),
        active_tool_call_ids: Vec::new(),
        error: None,
        queued_at: 0,
        started_at: None,
        completed_at: None,
    }
}

#[test]
fn default_retry_mode_derives_from_backoff() {
    assert_eq!(
        effective_retry_mode(None, DEFAULT_BACKOFF_MAX_ATTEMPTS).unwrap(),
        RetryMode::Bounded { max_attempts: 3 }
    );
}

#[test]
fn explicit_retry_mode_overrides_backoff_attempts() {
    assert_eq!(
        effective_retry_mode(Some(RetryMode::Bounded { max_attempts: 2 }), 9).unwrap(),
        RetryMode::Bounded { max_attempts: 2 }
    );
}

#[test]
fn derived_retry_mode_rejects_zero_backoff_attempts() {
    assert!(matches!(
        effective_retry_mode(None, 0),
        Err(RociError::Configuration(_))
    ));
}

#[test]
fn explicit_zero_attempt_retry_mode_is_a_configuration_error() {
    assert_eq!(
        effective_retry_mode(Some(RetryMode::Bounded { max_attempts: 0 }), 5),
        Err(RociError::Configuration(
            "retry_mode bounded max_attempts must be at least 1".to_string()
        ))
    );
}

#[test]
fn chat_runtime_config_defaults_to_bounded_in_memory_replay() {
    let config = ChatRuntimeConfig::default();

    assert_eq!(config.replay_capacity, 512);
    assert!(config.default_thread_id.is_none());
}

#[test]
fn event_envelope_sets_schema_and_cursor() {
    let thread_id = ThreadId::nil();
    let turn = test_turn(thread_id);
    let event = AgentRuntimeEvent::new(
        12,
        thread_id,
        Some(turn.turn_id),
        AgentRuntimeEventPayload::TurnQueued { turn },
        NOW,
    );

    assert_eq!(event.schema_version, 1);
    assert_eq!(event.cursor(), RuntimeCursor::new(thread_id, 12));
    assert_eq!(event.timestamp, NOW);
}

#[test]
fn payload_names_are_the_stable_snake_case_tags() {
    let mut projector = ChatProjector::new(ChatRuntimeConfig::default(), fresh_thread_id());
    let queued = projector.queue_turn(vec![ChatMessage::user("hi")], NOW);
    let names = queued
        .events
        .iter()
        .map(|event| event.payload.name())
        .collect::<Vec<_>>();
    assert_eq!(names, ["turn_queued", "message_started", "message_completed"]);
    let started = projector.start_turn(queued.turn_id, NOW).unwrap();
    assert_eq!(started.payload.name(), "turn_started");
    let plan = projector
        .update_plan(queued.turn_id, "p".to_string(), NOW)
        .unwrap();
    assert_eq!(plan.payload.name(), "plan_updated");
    let completed = projector.complete_turn(queued.turn_id, NOW).unwrap();
    assert_eq!(completed.payload.name(), "turn_completed");
    assert_eq!(AgentRuntimeEventPayload::plan_written_name(), "plan_written");
    assert_eq!(AgentRuntimeEventPayload::session_file_deleted_name(), "session_file_deleted");
    assert_eq!(AgentRuntimeEventPayload::subagent_cancelled_name(), "subagent_cancelled");
}

#[test]
fn thread_id_text_is_hyphenated_lowercase_hex() {
    let id = ThreadId::from_u128(0x67e5_5044_10b1_426f_9247_bb68_0e5f_e0c8);
    assert_eq!(id.to_text(), "67e55044-10b1-426f-9247-bb680e5fe0c8");
    assert_eq!(ThreadId::nil().to_text(), "00000000-0000-0000-0000-000000000000");
    assert_eq!(id.as_u128(), 0x67e5_5044_10b1_426f_9247_bb68_0e5f_e0c8);
}

#[test]
fn turn_and_message_ids_render_thread_revision_and_ordinal() {
    let thread_id = ThreadId::from_u128(1);
    let turn = TurnId::new(thread_id, 2, 3);
    let message = roci_core::ids::MessageId::new(thread_id, 2, 4);
    assert_eq!(turn.to_text(), "00000000-0000-0000-0000-000000000001:2:3");
    assert_eq!(message.to_text(), "00000000-0000-0000-0000-000000000001:2:4");
}

#[test]
fn subagent_payloads_are_recognized_and_named() {
    let subagent = SubagentRuntimeSnapshot {
        subagent_id: 9,
        profile_id: "designer".to_string(),
        label: Some("ux pass".to_string()),
        status: SubagentStatus::Running,
        model: Some("test:semantic-events".to_string()),
        parent_turn_id: None,
        parent_tool_call_id: Some("parent-tool-1".to_string()),
        child_thread_id: Some(ThreadId::from_u128(2)),
        source_subagent_id: None,
        target_subagent_id: Some(0),
        sequence: 7,
    };
    let progress = AgentRuntimeEventPayload::SubagentProgress {
        subagent: subagent.clone(),
        message: Some("working".to_string()),
    };
    assert!(progress.is_subagent_event());
    assert_eq!(progress.name(), "subagent_progress");
    let cancelled = AgentRuntimeEventPayload::SubagentCancelled { subagent };
    assert!(cancelled.is_subagent_event());
    assert_eq!(cancelled.name(), "subagent_cancelled");
    let turn = AgentRuntimeEventPayload::TurnQueued {
        turn: test_turn(ThreadId::nil()),
    };
    assert!(!turn.is_subagent_event());
}
