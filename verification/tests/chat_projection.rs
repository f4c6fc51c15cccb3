use roci_core::domain::{
    AgentToolResult, ApprovalDecision, ApprovalKind, ApprovalRequest, ApprovalStatus,
    ChatMessage, ChatRuntimeConfig, HumanInteractionRequest, HumanInteractionResponse,
    HumanInteractionStatus, MessageStatus, Role, ToolStatus, ToolUpdatePayload, TurnStatus,
};
use roci_core::error::AgentRuntimeError;
use roci_core::event::AgentRuntimeEventPayload;
use roci_core::ids::{RuntimeCursor, ThreadId};
use roci_core::projection::{AgentEvent, ChatProjectionRunState};
use roci_core::projector::{project_agent_event, ChatProjector};

const NOW: i64 = 1_700_000_000_000;

fn fresh_thread_id() -> ThreadId {
    ThreadId::from_u128(uuid::Uuid::new_v4().as_u128())
}

fn approval_request(id: &str) -> ApprovalRequest {
    ApprovalRequest {
        id: id.to_string(),
        kind: ApprovalKind::CommandExecution,
        allow_session: true,
        reason: Some("run shell".to_string()),
        payload: "{\"tool_name\":\"shell\"}".to_string(),
    }
}

fn ask_user_request(request_id: u128) -> HumanInteractionRequest {
    HumanInteractionRequest {
        request_id,
        prompt: "Continue?".to_string(),
        timeout_ms: None,
    }
}

#[test]
fn projector_defaults_to_one_thread_snapshot() {
    let projector = ChatProjector::new(ChatRuntimeConfig::default(), fresh_thread_id());
    let snapshot = projector.read_snapshot();

    assert_eq!(snapshot.schema_version, 1);
    assert_eq!(snapshot.threads.len(), 1);
    assert_eq!(snapshot.threads[0].thread_id, projector.default_thread_id());
    assert_eq!(snapshot.threads[0].last_seq, 0);
}

#[test]
fn queue_turn_emits_monotonic_seq_after_state_update() {
    let mut projector = ChatProjector::new(ChatRuntimeConfig::default(), fresh_thread_id());
    let queued = projector.queue_turn(vec![ChatMessage::user("hello"), ChatMessage::assistant("hi")], NOW);
    let thread = projector
        .read_thread(projector.default_thread_id())
        .expect("default thread exists");

    assert_eq!(
        queued.events.iter().map(|event| event.seq).collect::<Vec<_>>(),
        [1, 2, 3, 4, 5]
    );
    assert_eq!(thread.last_seq, 5);
    assert_eq!(thread.turns.len(), 1);
    assert_eq!(thread.messages.len(), 2);

    match &queued.events[0].payload {
        AgentRuntimeEventPayload::TurnQueued { turn } => {
            assert_eq!(turn.turn_id, queued.turn_id);
            assert_eq!(turn.status, TurnStatus::Queued);
        }
        other => panic!("expected turn queued, got {other:?}"),
    }
    match &queued.events[4].payload {
        AgentRuntimeEventPayload::MessageCompleted { message } => {
            assert_eq!(message.message_id, thread.messages[1].message_id);
            assert_eq!(message.status, MessageStatus::Completed);
        }
        other => panic!("expected message completed, got {other:?}"),
    }
}

#[test]
fn message_lifecycle_projects_started_updated_and_completed_snapshots() {
    let mut projector = ChatProjector::new(ChatRuntimeConfig::default(), fresh_thread_id());
    let queued = projector.queue_turn(Vec::new(), NOW);
    projector.start_turn(queued.turn_id, NOW).expect("turn starts");

    let message = projector
        .start_message(queued.turn_id, ChatMessage::assistant(""), NOW)
        .expect("message starts");
    let updated = projector
        .update_message(message.message_id, ChatMessage::assistant("hel"), NOW)
        .expect("message updates");
    let completed = projector
        .complete_message(message.message_id, ChatMessage::assistant("hello"), NOW)
        .expect("message completes");
    let thread = projector
        .read_thread(projector.default_thread_id())
        .expect("default thread exists");
    let projected = thread
        .messages
        .iter()
        .find(|candidate| candidate.message_id == message.message_id)
        .expect("message projected");

    assert_eq!(projected.status, MessageStatus::Completed);
    assert_eq!(projected.payload.text(), "hello");
    assert!(projected.completed_at.is_some());

    match updated.payload {
        AgentRuntimeEventPayload::MessageUpdated { message } => {
            assert_eq!(message.payload.text(), "hel");
        }
        other => panic!("expected message updated, got {other:?}"),
    }
    match completed.payload {
        AgentRuntimeEventPayload::MessageCompleted { message } => {
            assert_eq!(message.status, MessageStatus::Completed);
            assert_eq!(message.completed_at, projected.completed_at);
        }
        other => panic!("expected message completed, got {other:?}"),
    }
}

#[test]
fn tool_lifecycle_projects_started_updated_and_completed_snapshots() {
    let mut projector = ChatProjector::new(ChatRuntimeConfig::default(), fresh_thread_id());
    let queued = projector.queue_turn(Vec::new(), NOW);
    projector.start_turn(queued.turn_id, NOW).expect("turn starts");

    let started = projector
        .start_tool(queued.turn_id, "call-1", "search", "{\"query\":\"roci\"}", NOW)
        .expect("tool starts");
    let partial = ToolUpdatePayload {
        content: "partial".to_string(),
        details: "{\"seen\":1}".to_string(),
    };
    let updated = projector
        .update_tool(queued.turn_id, "call-1", partial.clone(), NOW)
        .expect("tool updates");
    let result = AgentToolResult {
        tool_call_id: "call-1".to_string(),
        result: "{\"ok\":true}".to_string(),
        is_error: false,
    };
    let completed = projector
        .complete_tool(queued.turn_id, "call-1", result.clone(), NOW)
        .expect("tool completes");
    let thread = projector
        .read_thread(projector.default_thread_id())
        .expect("default thread exists");
    let projected = thread
        .tools
        .iter()
        .find(|candidate| candidate.tool_call_id == "call-1")
        .expect("tool projected");

    assert!(matches!(started.payload, AgentRuntimeEventPayload::ToolStarted { .. }));
    assert_eq!(projected.status, ToolStatus::Completed);
    assert_eq!(projected.partial_result, Some(partial));
    assert_eq!(projected.final_result, Some(result));
    assert!(projected.completed_at.is_some());
    assert!(!thread.turns[0].active_tool_call_ids.contains(&"call-1".to_string()));

    match updated.payload {
        AgentRuntimeEventPayload::ToolUpdated { tool } => {
            assert_eq!(tool.status, ToolStatus::Running);
            assert!(tool.partial_result.is_some());
        }
        other => panic!("expected tool updated, got {other:?}"),
    }
    match completed.payload {
        AgentRuntimeEventPayload::ToolCompleted { tool } => {
            assert_eq!(tool.status, ToolStatus::Completed);
            assert!(tool.final_result.is_some());
        }
        other => panic!("expected tool completed, got {other:?}"),
    }
}

#[test]
fn approval_lifecycle_projects_required_resolved_and_canceled_snapshots() {
    let mut projector = ChatProjector::new(ChatRuntimeConfig::default(), fresh_thread_id());
    let queued = projector.queue_turn(Vec::new(), NOW);
    projector.start_turn(queued.turn_id, NOW).expect("turn starts");
    let request = approval_request("approval-1");

    let required = projector
        .require_approval(queued.turn_id, request.clone(), NOW)
        .expect("approval required projects");
    let resolved = projector
        .resolve_approval(queued.turn_id, &request.id, ApprovalDecision::Accept, NOW)
        .expect("approval resolved projects");
    let cancel_request = ApprovalRequest {
        id: "approval-2".to_string(),
        ..request
    };
    projector
        .require_approval(queued.turn_id, cancel_request.clone(), NOW)
        .expect("second approval required projects");
    let canceled = projector
        .cancel_approval(queued.turn_id, &cancel_request.id, NOW)
        .expect("approval canceled projects");
    let thread = projector
        .read_thread(projector.default_thread_id())
        .expect("default thread exists");

    assert_eq!(thread.approvals.len(), 2);
    assert_eq!(thread.approvals[0].status, ApprovalStatus::Resolved);
    assert_eq!(thread.approvals[0].decision, Some(ApprovalDecision::Accept));
    assert_eq!(thread.approvals[1].status, ApprovalStatus::Canceled);
    assert_eq!(thread.approvals[1].decision, Some(ApprovalDecision::Cancel));

    assert!(matches!(required.payload, AgentRuntimeEventPayload::ApprovalRequired { .. }));
    assert!(matches!(resolved.payload, AgentRuntimeEventPayload::ApprovalResolved { .. }));
    assert!(matches!(canceled.payload, AgentRuntimeEventPayload::ApprovalCanceled { .. }));
}

#[test]
fn cancel_turn_marks_pending_approvals_canceled() {
    let mut projector = ChatProjector::new(ChatRuntimeConfig::default(), fresh_thread_id());
    let queued = projector.queue_turn(Vec::new(), NOW);
    projector.start_turn(queued.turn_id, NOW).expect("turn starts");
    projector
        .require_approval(queued.turn_id, approval_request("approval-1"), NOW)
        .expect("approval required projects");

    let approval_canceled = projector
        .cancel_pending_approvals(queued.turn_id, NOW)
        .expect("pending approvals cancel");
    let turn_canceled = projector.cancel_turn(queued.turn_id, NOW).expect("turn cancels");
    let thread = projector
        .read_thread(projector.default_thread_id())
        .expect("default thread exists");

    assert!(matches!(
        approval_canceled[0].payload,
        AgentRuntimeEventPayload::ApprovalCanceled { .. }
    ));
    assert!(matches!(turn_canceled.payload, AgentRuntimeEventPayload::TurnCanceled { .. }));
    assert_eq!(thread.approvals[0].status, ApprovalStatus::Canceled);
    assert_eq!(thread.approvals[0].decision, Some(ApprovalDecision::Cancel));
}

#[test]
fn human_interaction_lifecycle_projects_requested_resolved_and_canceled_snapshots() {
    let mut projector = ChatProjector::new(ChatRuntimeConfig::default(), fresh_thread_id());
    let queued = projector.queue_turn(Vec::new(), NOW);
    projector.start_turn(queued.turn_id, NOW).expect("turn starts");
    let request = HumanInteractionRequest {
        request_id: 0x11,
        prompt: "C or F?".to_string(),
        timeout_ms: Some(1_000),
    };

    let requested = projector
        .request_human_interaction(queued.turn_id, request.clone(), NOW)
        .expect("human interaction request projects");
    let resolved = projector
        .resolve_human_interaction(
            queued.turn_id,
            HumanInteractionResponse {
                request_id: request.request_id,
                answer: None,
            },
            NOW,
        )
        .expect("human interaction response projects");
    let cancel_request = HumanInteractionRequest {
        request_id: 0x22,
        ..request
    };
    projector
        .request_human_interaction(queued.turn_id, cancel_request.clone(), NOW)
        .expect("second human interaction request projects");
    let canceled = projector
        .cancel_human_interaction(
            queued.turn_id,
            cancel_request.request_id,
            Some("turn canceled".to_string()),
            NOW,
        )
        .expect("human interaction cancel projects");
    let thread = projector
        .read_thread(projector.default_thread_id())
        .expect("default thread exists");

    assert_eq!(thread.human_interactions.len(), 2);
    assert_eq!(thread.human_interactions[0].status, HumanInteractionStatus::Resolved);
    assert!(thread.human_interactions[0].response.is_some());
    assert_eq!(thread.human_interactions[1].status, HumanInteractionStatus::Canceled);
    assert_eq!(thread.human_interactions[1].error.as_deref(), Some("turn canceled"));

    assert!(matches!(
        requested.payload,
        AgentRuntimeEventPayload::HumanInteractionRequested { .. }
    ));
    assert!(matches!(
        resolved.payload,
        AgentRuntimeEventPayload::HumanInteractionResolved { .. }
    ));
    assert!(matches!(
        canceled.payload,
        AgentRuntimeEventPayload::HumanInteractionCanceled { .. }
    ));
}

#[test]
fn cancel_turn_marks_pending_human_interactions_canceled() {
    let mut projector = ChatProjector::new(ChatRuntimeConfig::default(), fresh_thread_id());
    let queued = projector.queue_turn(Vec::new(), NOW);
    projector.start_turn(queued.turn_id, NOW).expect("turn starts");
    projector
        .request_human_interaction(queued.turn_id, ask_user_request(7), NOW)
        .expect("human interaction request projects");

    let interaction_canceled = projector
        .cancel_pending_human_interactions(queued.turn_id, NOW)
        .expect("pending human interactions cancel");
    let turn_canceled = projector.cancel_turn(queued.turn_id, NOW).expect("turn cancels");
    let thread = projector
        .read_thread(projector.default_thread_id())
        .expect("default thread exists");

    assert!(matches!(
        interaction_canceled[0].payload,
        AgentRuntimeEventPayload::HumanInteractionCanceled { .. }
    ));
    assert!(matches!(turn_canceled.payload, AgentRuntimeEventPayload::TurnCanceled { .. }));
    assert_eq!(thread.human_interactions[0].status, HumanInteractionStatus::Canceled);
}

#[test]
fn reasoning_plan_and_diff_project_latest_turn_state() {
    let mut projector = ChatProjector::new(ChatRuntimeConfig::default(), fresh_thread_id());
    let queued = projector.queue_turn(Vec::new(), NOW);
    projector.start_turn(queued.turn_id, NOW).expect("turn starts");
    let message = projector
        .start_message(queued.turn_id, ChatMessage::assistant(""), NOW)
        .expect("message starts");

    let first_reasoning = projector
        .update_reasoning(queued.turn_id, Some(message.message_id), "think ".to_string(), NOW)
        .expect("reasoning projects");
    let second_reasoning = projector
        .update_reasoning(queued.turn_id, Some(message.message_id), "more".to_string(), NOW)
        .expect("reasoning appends");
    let plan = projector
        .update_plan(queued.turn_id, "1. inspect\n2. edit".to_string(), NOW)
        .expect("plan projects");
    let diff = projector
        .update_diff(queued.turn_id, "-old\n+new".to_string(), NOW)
        .expect("diff projects");
    let thread = projector
        .read_thread(projector.default_thread_id())
        .expect("default thread exists");

    assert_eq!(thread.reasoning.len(), 1);
    assert_eq!(thread.reasoning[0].message_id, Some(message.message_id));
    assert_eq!(thread.reasoning[0].text, "think more");
    assert_eq!(thread.plans[0].plan, "1. inspect\n2. edit");
    assert_eq!(thread.diffs[0].diff, "-old\n+new");

    match first_reasoning.payload {
        AgentRuntimeEventPayload::ReasoningUpdated { reasoning, delta } => {
            assert_eq!(reasoning.text, "think ");
            assert_eq!(delta, "think ");
        }
        other => panic!("expected reasoning updated, got {other:?}"),
    }
    match second_reasoning.payload {
        AgentRuntimeEventPayload::ReasoningUpdated { reasoning, delta } => {
            assert_eq!(reasoning.text, "think more");
            assert_eq!(delta, "more");
        }
        other => panic!("expected reasoning updated, got {other:?}"),
    }
    assert!(matches!(plan.payload, AgentRuntimeEventPayload::PlanUpdated { .. }));
    assert!(matches!(diff.payload, AgentRuntimeEventPayload::DiffUpdated { .. }));
}

#[test]
fn projector_events_do_not_emit_snapshot_updated_payloads() {
    let mut projector = ChatProjector::new(ChatRuntimeConfig::default(), fresh_thread_id());
    let queued = projector.queue_turn(vec![ChatMessage::user("hello")], NOW);

    for event in queued.events {
        assert_ne!(event.payload.name(), "snapshot_updated");
    }
}

#[test]
fn bootstrap_thread_projects_exact_history_as_completed_messages() {
    let mut projector = ChatProjector::new(ChatRuntimeConfig::default(), fresh_thread_id());
    let initial_revision = projector
        .read_thread(projector.default_thread_id())
        .expect("default thread exists")
        .revision;
    let history = vec![
        ChatMessage::new(Role::System, "stay concise"),
        ChatMessage::user("find docs"),
        ChatMessage::assistant("checking"),
        ChatMessage::new(Role::Tool, "{\"ok\":true}"),
    ];

    let snapshot = projector
        .bootstrap_thread(history.clone(), NOW)
        .expect("history bootstraps");
    let read_thread = projector
        .read_thread(projector.default_thread_id())
        .expect("default thread exists");
    let runtime_snapshot = projector.read_snapshot();

    assert_eq!(
        snapshot
            .messages
            .iter()
            .map(|message| message.payload.clone())
            .collect::<Vec<_>>(),
        history
    );
    assert_eq!(read_thread.messages, snapshot.messages);
    assert_eq!(runtime_snapshot.threads[0].messages, snapshot.messages);
    assert_eq!(snapshot.revision, initial_revision + 1);
    assert_eq!(snapshot.turns.len(), 1);
    assert_eq!(snapshot.turns[0].turn_id.revision(), snapshot.revision);
    assert_eq!(snapshot.turns[0].status, TurnStatus::Completed);
    assert_eq!(
        snapshot.turns[0].message_ids,
        snapshot.messages.iter().map(|message| message.message_id).collect::<Vec<_>>()
    );
    assert!(snapshot.active_turn_id.is_none());
    assert!(snapshot.tools.is_empty());
    assert!(snapshot.messages.iter().all(|message| {
        message.message_id.revision() == snapshot.revision
            && message.status == MessageStatus::Completed
            && message.completed_at.is_some()
    }));
}

#[test]
fn bootstrap_thread_does_not_replay_imported_history_as_semantic_events() {
    let mut projector = ChatProjector::new(ChatRuntimeConfig::default(), fresh_thread_id());
    let _ = projector.queue_turn(vec![ChatMessage::user("before import")], NOW);
    let snapshot = projector
        .bootstrap_thread(vec![
            ChatMessage::user("imported prompt"),
            ChatMessage::assistant("imported answer"),
        ], NOW)
        .expect("history bootstraps");
    let queued = projector.queue_turn(vec![ChatMessage::user("fresh prompt")], NOW);

    let replayed = projector
        .events_after(RuntimeCursor::new(projector.default_thread_id(), snapshot.last_seq))
        .expect("fresh cursor replays");

    assert_eq!(replayed, queued.events);
    let texts = replayed
        .iter()
        .filter_map(|event| match &event.payload {
            AgentRuntimeEventPayload::MessageCompleted { message } => Some(message.payload.text()),
            _ => None,
        })
        .collect::<Vec<_>>();
    assert!(texts.iter().any(|text| text.contains("fresh prompt")));
    assert!(texts.iter().all(|text| !text.contains("imported")));
}

#[test]
fn bootstrap_thread_invalidates_prior_replay_cursors() {
    let mut projector = ChatProjector::new(ChatRuntimeConfig::default(), fresh_thread_id());
    let queued = projector.queue_turn(vec![ChatMessage::user("before import")], NOW);
    let old_cursor = queued.events[0].cursor();

    let snapshot = projector
        .bootstrap_thread(vec![ChatMessage::user("imported")], NOW)
        .expect("history bootstraps");
    let err = projector
        .events_after(old_cursor)
        .expect_err("old cursor is stale after bootstrap");

    assert_eq!(
        err,
        AgentRuntimeError::StaleRuntime {
            thread_id: projector.default_thread_id(),
            requested_seq: old_cursor.seq,
            oldest_available_seq: snapshot.last_seq + 1,
            latest_seq: snapshot.last_seq,
        }
    );
}

#[test]
fn terminal_methods_reject_already_terminal_turns() {
    let mut projector = ChatProjector::new(ChatRuntimeConfig::default(), fresh_thread_id());
    let queued = projector.queue_turn(Vec::new(), NOW);
    let canceled = projector.cancel_turn(queued.turn_id, NOW).expect("turn cancels");

    match canceled.payload {
        AgentRuntimeEventPayload::TurnCanceled { turn } => {
            assert_eq!(turn.status, TurnStatus::Canceled);
            assert_eq!(
                turn.completed_at,
                projector.read_thread(turn.thread_id).unwrap().turns[0].completed_at
            );
        }
        other => panic!("expected turn canceled, got {other:?}"),
    }

    let err = projector
        .start_turn(queued.turn_id, NOW)
        .expect_err("canceled turn cannot start");
    assert_eq!(
        err,
        AgentRuntimeError::AlreadyTerminal {
            turn_id: queued.turn_id,
            status: TurnStatus::Canceled,
        }
    );

    let err = projector
        .complete_turn(queued.turn_id, NOW)
        .expect_err("canceled turn cannot complete");
    assert_eq!(
        err,
        AgentRuntimeError::AlreadyTerminal {
            turn_id: queued.turn_id,
            status: TurnStatus::Canceled,
        }
    );
}

#[test]
fn unknown_thread_is_reported_by_read_thread() {
    let projector = ChatProjector::new(ChatRuntimeConfig::default(), fresh_thread_id());
    let missing = ThreadId::from_u128(5);
    let err = projector.read_thread(missing).unwrap_err();
    assert_eq!(err, AgentRuntimeError::ThreadNotFound { thread_id: missing });
    assert_eq!(
        err.message(),
        "thread not found: 00000000-0000-0000-0000-000000000005"
    );
}

#[test]
fn projector_uses_configured_default_thread() {
    let thread_id = ThreadId::from_u128(42);
    let projector = ChatProjector::with_default_thread(thread_id, ChatRuntimeConfig::default());
    assert_eq!(projector.default_thread_id(), thread_id);
    let config = ChatRuntimeConfig {
        replay_capacity: 8,
        default_thread_id: Some(thread_id),
    };
    assert_eq!(ChatProjector::new(config, fresh_thread_id()).default_thread_id(), thread_id);
}

#[test]
fn message_errors_name_the_missing_message() {
    let mut projector = ChatProjector::new(ChatRuntimeConfig::default(), fresh_thread_id());
    let queued = projector.queue_turn(Vec::new(), NOW);
    projector.start_turn(queued.turn_id, NOW).unwrap();
    let message = projector
        .start_message(queued.turn_id, ChatMessage::assistant(""), NOW)
        .unwrap();
    projector
        .complete_message(message.message_id, ChatMessage::assistant("done"), NOW)
        .unwrap();
    let second = queued.turn_id;
    let missing = roci_core::ids::MessageId::new(second.thread_id(), second.revision(), 99);
    let err = projector
        .update_message(missing, ChatMessage::assistant("x"), NOW)
        .unwrap_err();
    match err {
        AgentRuntimeError::ProjectionFailed { message } => {
            assert!(message.starts_with("message not found: "));
        }
        other => panic!("expected projection failure, got {other:?}"),
    }
}

#[test]
fn duplicate_tool_and_approval_are_rejected() {
    let mut projector = ChatProjector::new(ChatRuntimeConfig::default(), fresh_thread_id());
    let queued = projector.queue_turn(Vec::new(), NOW);
    projector.start_turn(queued.turn_id, NOW).unwrap();
    projector
        .start_tool(queued.turn_id, "call-1", "search", "{}", NOW)
        .unwrap();
    let err = projector
        .start_tool(queued.turn_id, "call-1", "search", "{}", NOW)
        .unwrap_err();
    assert_eq!(
        err,
        AgentRuntimeError::ProjectionFailed {
            message: "tool already started: call-1".to_string(),
        }
    );
    let err = projector
        .update_tool(
            queued.turn_id,
            "call-2",
            ToolUpdatePayload {
                content: String::new(),
                details: String::new(),
            },
            NOW,
        )
        .unwrap_err();
    assert_eq!(
        err,
        AgentRuntimeError::ProjectionFailed {
            message: "tool not found: call-2".to_string(),
        }
    );
    projector
        .require_approval(queued.turn_id, approval_request("a"), NOW)
        .unwrap();
    let err = projector
        .require_approval(queued.turn_id, approval_request("a"), NOW)
        .unwrap_err();
    assert_eq!(
        err,
        AgentRuntimeError::ProjectionFailed {
            message: "approval already requested: a".to_string(),
        }
    );
    let err = projector.cancel_approval(queued.turn_id, "b", NOW).unwrap_err();
    assert_eq!(
        err,
        AgentRuntimeError::ProjectionFailed {
            message: "approval not found: b".to_string(),
        }
    );
}

#[test]
fn starting_a_running_turn_again_is_rejected() {
    let mut projector = ChatProjector::new(ChatRuntimeConfig::default(), fresh_thread_id());
    let first = projector.queue_turn(Vec::new(), NOW);
    let second = projector.queue_turn(Vec::new(), NOW);
    let thread = projector.read_thread(projector.default_thread_id()).unwrap();
    assert_eq!(thread.active_turn_id, Some(first.turn_id));

    projector.start_turn(first.turn_id, NOW).unwrap();
    let err = projector.start_turn(first.turn_id, NOW).unwrap_err();
    assert_eq!(
        err,
        AgentRuntimeError::ProjectionFailed {
            message: format!("turn already running: {}", first.turn_id.to_text()),
        }
    );
    projector.start_turn(second.turn_id, NOW).unwrap();
    let thread = projector.read_thread(projector.default_thread_id()).unwrap();
    assert_eq!(thread.active_turn_id, Some(second.turn_id));
}

#[test]
fn fail_turn_records_error_and_clears_active_turn() {
    let mut projector = ChatProjector::new(ChatRuntimeConfig::default(), fresh_thread_id());
    let queued = projector.queue_turn(Vec::new(), NOW);
    projector.start_turn(queued.turn_id, NOW).unwrap();
    let failed = projector
        .fail_turn(queued.turn_id, "boom".to_string(), NOW)
        .unwrap();
    match failed.payload {
        AgentRuntimeEventPayload::TurnFailed { turn, error } => {
            assert_eq!(turn.status, TurnStatus::Failed);
            assert_eq!(turn.error.as_deref(), Some("boom"));
            assert_eq!(error, "boom");
        }
        other => panic!("expected turn failed, got {other:?}"),
    }
    let thread = projector.read_thread(projector.default_thread_id()).unwrap();
    assert!(thread.active_turn_id.is_none());
    assert_eq!(thread.last_seq, failed.seq);
}

#[test]
fn events_are_replayed_per_thread_after_a_cursor() {
    let mut projector = ChatProjector::new(ChatRuntimeConfig::default(), fresh_thread_id());
    let queued = projector.queue_turn(vec![ChatMessage::user("hi")], NOW);
    let started = projector.start_turn(queued.turn_id, NOW).unwrap();
    let replayed = projector
        .events_after(queued.events[2].cursor())
        .unwrap();
    assert_eq!(replayed, vec![started]);
    let missing = ThreadId::from_u128(77);
    assert_eq!(
        projector.events_after(RuntimeCursor::new(missing, 0)).unwrap_err(),
        AgentRuntimeError::ThreadNotFound { thread_id: missing }
    );
}

#[test]
fn queue_turn_appends_completed_messages_and_keeps_the_active_turn() {
    let mut projector = ChatProjector::new(ChatRuntimeConfig::default(), fresh_thread_id());
    let first = projector.queue_turn(vec![ChatMessage::user("one")], NOW);
    let second = projector.queue_turn(vec![ChatMessage::user("two"), ChatMessage::assistant("three")], NOW + 1);
    let thread = projector.read_thread(projector.default_thread_id()).unwrap();

    assert_eq!(thread.active_turn_id, Some(first.turn_id));
    assert_eq!(second.events.len(), 5);
    assert_eq!(
        thread.messages.iter().map(|m| m.payload.text()).collect::<Vec<_>>(),
        ["one", "two", "three"]
    );
    assert!(thread.messages.iter().all(|m| m.status == MessageStatus::Completed));
    assert_eq!(thread.messages[0].turn_id, first.turn_id);
    assert_eq!(thread.messages[1].turn_id, second.turn_id);
    assert_eq!(thread.messages[2].turn_id, second.turn_id);
    assert!(second.turn_id.ordinal() > first.turn_id.ordinal());
}

#[test]
fn replay_keeps_the_newest_events_in_order() {
    let config = ChatRuntimeConfig {
        replay_capacity: 3,
        default_thread_id: None,
    };
    let mut projector = ChatProjector::new(config, fresh_thread_id());
    let _ = projector.queue_turn(vec![ChatMessage::user("a"), ChatMessage::user("b")], NOW);
    let thread_id = projector.default_thread_id();

    let replayed = projector
        .events_after(RuntimeCursor::new(thread_id, 2))
        .expect("cursor just before the oldest retained event replays");
    assert_eq!(replayed.iter().map(|e| e.seq).collect::<Vec<_>>(), [3, 4, 5]);

    let tail = projector.events_after(RuntimeCursor::new(thread_id, 4)).unwrap();
    assert_eq!(tail.iter().map(|e| e.seq).collect::<Vec<_>>(), [5]);

    assert_eq!(
        projector.events_after(RuntimeCursor::new(thread_id, 1)).unwrap_err(),
        AgentRuntimeError::StaleRuntime {
            thread_id,
            requested_seq: 1,
            oldest_available_seq: 3,
            latest_seq: 5,
        }
    );
}

#[test]
fn a_run_starts_its_turn_once_before_anything_else() {
    let mut projector = ChatProjector::new(ChatRuntimeConfig::default(), fresh_thread_id());
    let queued = projector.queue_turn(vec![ChatMessage::user("go")], NOW);
    let mut run_state = ChatProjectionRunState::new(0);
    let loop_events = vec![
        AgentEvent::AgentStart,
        AgentEvent::MessageStart { message: ChatMessage::assistant("") },
        AgentEvent::MessageUpdate { message: ChatMessage::assistant("hi") },
        AgentEvent::MessageEnd { message: ChatMessage::assistant("hi there") },
        AgentEvent::TurnStart { turn_index: 1 },
        AgentEvent::Reasoning,
        AgentEvent::AgentEnd,
    ];
    let mut emitted = Vec::new();
    for event in &loop_events {
        emitted.extend(
            project_agent_event(&mut projector, &mut run_state, queued.turn_id, event, NOW).expect("event projects"),
        );
    }

    let started = emitted
        .iter()
        .filter(|e| matches!(e.payload, AgentRuntimeEventPayload::TurnStarted { .. }))
        .count();
    assert_eq!(started, 1);
    assert!(matches!(emitted[0].payload, AgentRuntimeEventPayload::TurnStarted { .. }));
    assert!(run_state.turn_started);
    assert_eq!(emitted.len(), 4);
}
