use roci_core::domain::{ChatMessage, ChatRuntimeConfig, Role, TurnStatus};
use roci_core::error::{map_chat_projection_error, AgentRuntimeError, RociError};
use roci_core::event::AgentRuntimeEventPayload;
use roci_core::ids::{ThreadId, TurnId};
use roci_core::projector::ChatProjector;
use roci_core::runtime::{
    provider_ledger_step, queued_turn_skipped, run_error, terminal_request, AgentRuntime, LedgerStep,
    RunOutcome, RunStatus, SemanticRunErrors, TurnQueue,
};
use roci_core::runtime_types::{AgentState, QueueDrainMode, Usage};
use roci_core::semantic::{finish_mutation, mutation_gate, settle_mutation, store_request, Commit, StoreRequest};

const NOW: i64 = 1_700_000_000_000;

fn fresh_thread_id() -> ThreadId {
    ThreadId::from_u128(uuid::Uuid::new_v4().as_u128())
}

fn runtime() -> AgentRuntime {
    AgentRuntime::new(ChatRuntimeConfig::default(), None, fresh_thread_id())
}

fn invalid(message: &str) -> RociError {
    RociError::InvalidState(message.to_string())
}

#[test]
fn new_runtime_is_idle_with_empty_history() {
    let thread_id = ThreadId::from_u128(3);
    let config = ChatRuntimeConfig {
        replay_capacity: 16,
        default_thread_id: Some(thread_id),
    };
    let runtime = AgentRuntime::new(config, Some("be brief".to_string()), fresh_thread_id());
    assert_eq!(runtime.state(), AgentState::Idle);
    assert_eq!(runtime.default_thread_id(), thread_id);
    assert!(runtime.messages().is_empty());
    let snapshot = runtime.snapshot();
    assert_eq!(snapshot.turn_index, 0);
    assert_eq!(snapshot.message_count, 0);
    assert!(!snapshot.is_streaming);
    assert!(snapshot.last_error.is_none());
    assert_eq!(runtime.projector().read_snapshot().threads.len(), 1);
}

#[test]
fn prompt_adds_system_prompt_only_to_an_empty_history() {
    let mut runtime = AgentRuntime::new(ChatRuntimeConfig::default(), Some("sys".to_string()), fresh_thread_id());
    let (history, added) = runtime.begin_prompt("hello").unwrap();
    assert_eq!(runtime.state(), AgentState::Running);
    assert_eq!(
        added,
        vec![ChatMessage::new(Role::System, "sys"), ChatMessage::user("hello")]
    );
    assert_eq!(history, added);

    let err = runtime.begin_prompt("again").unwrap_err();
    assert_eq!(err, invalid("Agent is not idle; call abort() or wait_for_idle() first"));

    runtime.restore_idle();
    let (history, added) = runtime.begin_prompt("again").unwrap();
    assert_eq!(added, vec![ChatMessage::user("again")]);
    assert_eq!(history.len(), 3);
}

#[test]
fn continue_without_input_needs_a_non_assistant_tail_or_queued_messages() {
    let mut runtime = runtime();
    assert_eq!(
        runtime.begin_continue_without_input().unwrap_err(),
        invalid("No messages to continue from")
    );
    assert_eq!(runtime.state(), AgentState::Idle);

    runtime.commit_messages(vec![ChatMessage::user("q"), ChatMessage::assistant("a")]);
    assert_eq!(
        runtime.begin_continue_without_input().unwrap_err(),
        invalid("Cannot continue from message role: assistant")
    );
    assert_eq!(runtime.state(), AgentState::Idle);

    runtime.follow_up("more");
    let history = runtime.begin_continue_without_input().unwrap();
    assert_eq!(history.len(), 2);
    assert_eq!(runtime.state(), AgentState::Running);
}

#[test]
fn continue_with_input_appends_a_user_message() {
    let mut runtime = runtime();
    runtime.commit_messages(vec![ChatMessage::user("q"), ChatMessage::assistant("a")]);
    let (history, added) = runtime.begin_continue("next").unwrap();
    assert_eq!(added, vec![ChatMessage::user("next")]);
    assert_eq!(history.last().unwrap().text(), "next");
    assert_eq!(runtime.messages().len(), 3);
}

#[test]
fn idle_mutations_are_refused_while_running_or_with_queued_turns() {
    let mut runtime = runtime();
    runtime.set_system_prompt("a".to_string()).unwrap();
    runtime.transition_to_running().unwrap();
    assert_eq!(
        runtime.set_system_prompt("b".to_string()).unwrap_err(),
        invalid("Agent is not idle; runtime mutation requires idle state")
    );
    runtime.restore_idle();
    runtime.increment_queued_turn_count();
    assert_eq!(runtime.queued_turn_count_for_wait(), 1);
    assert_eq!(
        runtime.clear_system_prompt().unwrap_err(),
        invalid("Agent has queued turns; runtime mutation requires drained queue")
    );
    runtime.decrement_queued_turn_count();
    runtime.decrement_queued_turn_count();
    assert_eq!(runtime.queued_turn_count_for_wait(), 0);
    runtime.clear_system_prompt().unwrap();
    assert!(runtime.lock_state_for_idle_mutation().is_ok());
}

#[test]
fn steering_and_follow_up_queues_drain_in_order() {
    let mut runtime = runtime();
    assert!(!runtime.has_queued_messages());
    runtime.steer("s1");
    runtime.steer("s2");
    runtime.follow_up("f1");
    assert!(runtime.has_queued_messages());
    let first = runtime.drain_steering(QueueDrainMode::OneAtATime);
    assert_eq!(first, vec![ChatMessage::user("s1")]);
    let rest = runtime.drain_steering(QueueDrainMode::All);
    assert_eq!(rest, vec![ChatMessage::user("s2")]);
    runtime.clear_all_queues();
    assert!(!runtime.has_queued_messages());
    assert!(runtime.drain_follow_ups(QueueDrainMode::All).is_empty());
}

#[test]
fn abort_only_applies_to_a_running_runtime() {
    let mut runtime = runtime();
    assert!(!runtime.begin_abort());
    assert_eq!(runtime.state(), AgentState::Idle);
    runtime.transition_to_running().unwrap();
    assert!(runtime.begin_abort());
    assert_eq!(runtime.state(), AgentState::Aborting);
    runtime.transition_running_to_aborting();
    assert_eq!(runtime.state(), AgentState::Aborting);
}

#[test]
fn chat_turns_close_once_and_repeat_closes_are_quiet() {
    let mut runtime = runtime();
    let queued = runtime.queue_chat_turn(vec![ChatMessage::user("hi")], NOW);
    assert_eq!(runtime.chat_turn_status(queued.turn_id).unwrap(), TurnStatus::Queued);
    assert_eq!(runtime.open_turns(), vec![queued.turn_id]);

    let closed = runtime
        .terminal_chat_turn(queued.turn_id, TurnStatus::Completed, None, NOW)
        .unwrap()
        .expect("first close publishes events");
    assert!(matches!(
        closed.last().unwrap().payload,
        AgentRuntimeEventPayload::TurnCompleted { .. }
    ));
    assert_eq!(
        runtime
            .terminal_chat_turn(queued.turn_id, TurnStatus::Completed, None, NOW)
            .unwrap(),
        None
    );
    let err = runtime
        .terminal_chat_turn(queued.turn_id, TurnStatus::Canceled, None, NOW)
        .unwrap_err();
    match err {
        RociError::InvalidState(message) => {
            assert!(message.starts_with("chat projection failed: turn already terminal: "));
            assert!(message.ends_with(" (Completed)"));
        }
        other => panic!("expected invalid state, got {other:?}"),
    }
    assert!(runtime.open_turns().is_empty());
}

#[test]
fn cancel_turn_reports_the_status_before_canceling() {
    let mut runtime = runtime();
    let queued = runtime.queue_chat_turn(Vec::new(), NOW);
    let (status, events, turn) = runtime.cancel_turn(queued.turn_id, NOW).unwrap();
    assert_eq!(status, TurnStatus::Queued);
    assert_eq!(turn.status, TurnStatus::Canceled);
    assert!(matches!(
        events.last().unwrap().payload,
        AgentRuntimeEventPayload::TurnCanceled { .. }
    ));
    assert!(queued_turn_skipped(&runtime.chat_turn_status(queued.turn_id)));
    let missing = TurnId::new(runtime.default_thread_id(), 0, 99);
    assert!(queued_turn_skipped(&runtime.chat_turn_status(missing)));
}

#[test]
fn abort_target_is_the_active_turn() {
    let mut runtime = runtime();
    assert!(runtime.abort_target().is_none());
    let queued = runtime.queue_chat_turn(Vec::new(), NOW);
    assert_eq!(runtime.abort_target(), Some(queued.turn_id));
    runtime
        .terminal_chat_turn(queued.turn_id, TurnStatus::Failed, Some("x".to_string()), NOW)
        .unwrap();
    assert!(runtime.abort_target().is_none());
}

#[test]
fn reset_clears_history_and_rebuilds_the_thread() {
    let mut runtime = runtime();
    runtime.commit_messages(vec![ChatMessage::user("q")]);
    runtime.steer("s");
    runtime.observe_turn(4, true);
    runtime.record_background_error("oops".to_string());
    let queued = runtime.queue_chat_turn(Vec::new(), NOW);
    let snapshot = runtime.reset_history(NOW);
    assert!(snapshot.messages.is_empty());
    assert_eq!(snapshot.revision, 1);
    assert!(runtime.messages().is_empty());
    assert!(!runtime.has_queued_messages());
    let view = runtime.snapshot();
    assert_eq!(view.turn_index, 0);
    assert!(!view.is_streaming);
    assert!(view.last_error.is_none());
    assert!(runtime.chat_turn_status(queued.turn_id).is_err());
    runtime.finish_reset(Some("store failed".to_string()));
    assert_eq!(runtime.snapshot().last_error.as_deref(), Some("store failed"));
    assert_eq!(runtime.state(), AgentState::Idle);
}

#[test]
fn replacing_messages_rebuilds_the_projection_when_idle() {
    let mut runtime = runtime();
    let snapshot = runtime
        .replace_messages_projection(&vec![ChatMessage::user("a"), ChatMessage::assistant("b")], NOW)
        .unwrap();
    assert_eq!(snapshot.messages.len(), 2);
    runtime.transition_to_running().unwrap();
    assert_eq!(
        runtime
            .replace_messages_projection(&vec![ChatMessage::user("c")], NOW)
            .unwrap_err(),
        invalid("Agent is not idle; runtime mutation requires idle state")
    );
}

#[test]
fn finishing_a_run_keeps_its_history_unless_canceled_or_refused() {
    let mut runtime = runtime();
    runtime.commit_messages(vec![ChatMessage::user("q")]);
    runtime.transition_to_running().unwrap();
    runtime.finish_run(
        RunOutcome::Finished {
            status: RunStatus::Completed,
            messages: vec![ChatMessage::user("q"), ChatMessage::assistant("a")],
            error: None,
            usage_delta: None,
        },
        true,
        None,
    );
    assert_eq!(runtime.messages().len(), 2);
    assert_eq!(runtime.state(), AgentState::Idle);

    runtime.finish_run(
        RunOutcome::Finished {
            status: RunStatus::Canceled,
            messages: Vec::new(),
            error: None,
            usage_delta: None,
        },
        true,
        None,
    );
    assert_eq!(runtime.messages().len(), 2);
    assert!(runtime.snapshot().last_error.is_none());

    runtime.finish_run(
        RunOutcome::Finished {
            status: RunStatus::Completed,
            messages: Vec::new(),
            error: None,
            usage_delta: None,
        },
        false,
        None,
    );
    assert_eq!(runtime.messages().len(), 2);
    assert_eq!(
        runtime.snapshot().last_error.as_deref(),
        Some("run finished after semantic turn was already terminal")
    );

    runtime.finish_run(
        RunOutcome::Errored {
            message: "provider down".to_string(),
        },
        true,
        None,
    );
    assert_eq!(runtime.snapshot().last_error.as_deref(), Some("provider down"));
}

#[test]
fn run_outcomes_map_to_terminal_turn_requests() {
    let finished = |status| RunOutcome::Finished {
        status,
        messages: Vec::new(),
        error: None,
        usage_delta: None,
    };
    assert_eq!(
        terminal_request(&finished(RunStatus::Completed)),
        Some((TurnStatus::Completed, None))
    );
    assert_eq!(
        terminal_request(&finished(RunStatus::Failed)),
        Some((TurnStatus::Failed, Some("run failed".to_string())))
    );
    assert_eq!(
        terminal_request(&finished(RunStatus::Canceled)),
        Some((TurnStatus::Canceled, None))
    );
    assert_eq!(terminal_request(&finished(RunStatus::Running)), None);
    assert_eq!(
        terminal_request(&RunOutcome::Errored {
            message: "boom".to_string()
        }),
        Some((TurnStatus::Failed, Some("boom".to_string())))
    );
}

#[test]
fn turn_queue_runs_one_worker_in_order() {
    let mut queue = TurnQueue::new();
    assert!(queue.push(1));
    assert!(!queue.push(2));
    assert_eq!(queue.next(), Some(1));
    assert_eq!(queue.next(), Some(2));
    assert_eq!(queue.next(), None);
    assert!(queue.push(3));
}

#[test]
fn projection_errors_are_wrapped_for_the_runtime() {
    let err = map_chat_projection_error(AgentRuntimeError::RuntimeBusy);
    assert_eq!(err, invalid("chat projection failed: runtime is busy"));
}

#[test]
fn run_error_slot_keeps_the_first_failure() {
    let mut slot = SemanticRunErrors::new();
    assert!(slot.current().is_none());
    slot.record(AgentRuntimeError::RuntimeBusy);
    slot.record(AgentRuntimeError::ProjectionFailed {
        message: "later".to_string(),
    });
    assert_eq!(slot.current(), Some(AgentRuntimeError::RuntimeBusy));
    assert_eq!(slot.take(), Some(AgentRuntimeError::RuntimeBusy));
    assert!(slot.take().is_none());
}

#[test]
fn provider_ledger_appends_new_messages_or_rewrites_a_changed_prefix() {
    let history = vec![ChatMessage::user("q"), ChatMessage::assistant("a")];
    let mut run = history.clone();
    run.push(ChatMessage::user("next"));
    assert_eq!(provider_ledger_step(2, &history, &run), LedgerStep::Append { from: 2 });
    assert_eq!(provider_ledger_step(0, &history, &run), LedgerStep::Append { from: 0 });
    assert_eq!(provider_ledger_step(4, &history, &run), LedgerStep::Rewrite);
    let changed = vec![ChatMessage::user("q"), ChatMessage::assistant("different")];
    assert_eq!(provider_ledger_step(2, &changed, &run), LedgerStep::Rewrite);
    assert_eq!(provider_ledger_step(3, &history, &run), LedgerStep::Append { from: 3 });
}

#[test]
fn run_errors_follow_projection_then_plan_then_sink() {
    let turn = TurnId::new(ThreadId::from_u128(1), 0, 1);
    let other = TurnId::new(ThreadId::from_u128(1), 0, 2);
    assert_eq!(
        run_error(turn, Some(invalid("first")), Some("plan".to_string()), Some(AgentRuntimeError::RuntimeBusy)),
        Some(invalid("first"))
    );
    assert_eq!(
        run_error(turn, None, Some("plan broken".to_string()), Some(AgentRuntimeError::RuntimeBusy)),
        Some(invalid("plan broken"))
    );
    assert_eq!(
        run_error(turn, None, None, Some(AgentRuntimeError::RuntimeBusy)),
        Some(invalid("chat projection failed: runtime is busy"))
    );
    assert_eq!(
        run_error(
            turn,
            None,
            None,
            Some(AgentRuntimeError::AlreadyTerminal { turn_id: turn, status: TurnStatus::Canceled })
        ),
        None
    );
    assert!(run_error(
        turn,
        None,
        None,
        Some(AgentRuntimeError::AlreadyTerminal { turn_id: other, status: TurnStatus::Canceled })
    )
    .is_some());
    assert_eq!(run_error(turn, None, None, None), None);
}

fn usage(input: u64, output: u64) -> Usage {
    Usage {
        input_tokens: input,
        output_tokens: output,
        total_tokens: input + output,
    }
}

#[test]
fn session_usage_grows_only_with_kept_runs_and_reset_clears_it() {
    let mut runtime = runtime();
    assert_eq!(runtime.session_usage(), Usage::default());

    runtime.transition_to_running().unwrap();
    runtime.finish_run(
        RunOutcome::Finished {
            status: RunStatus::Completed,
            messages: vec![ChatMessage::user("first run")],
            error: None,
            usage_delta: Some(usage(40, 5)),
        },
        true,
        None,
    );
    assert_eq!(runtime.session_usage(), usage(40, 5));

    runtime.finish_run(
        RunOutcome::Finished {
            status: RunStatus::Canceled,
            messages: Vec::new(),
            error: None,
            usage_delta: Some(usage(7, 7)),
        },
        true,
        None,
    );
    runtime.finish_run(
        RunOutcome::Finished {
            status: RunStatus::Completed,
            messages: Vec::new(),
            error: None,
            usage_delta: Some(usage(7, 7)),
        },
        false,
        None,
    );
    runtime.finish_run(
        RunOutcome::Finished {
            status: RunStatus::Completed,
            messages: Vec::new(),
            error: None,
            usage_delta: Some(usage(7, 7)),
        },
        true,
        Some("plan mode response did not match structured plan contract".to_string()),
    );
    assert_eq!(runtime.session_usage(), usage(40, 5));

    runtime.finish_run(
        RunOutcome::Finished {
            status: RunStatus::Failed,
            messages: vec![ChatMessage::user("x")],
            error: Some("boom".to_string()),
            usage_delta: Some(usage(1, 2)),
        },
        true,
        None,
    );
    assert_eq!(runtime.session_usage(), usage(41, 7));

    runtime.reset_history(NOW);
    assert_eq!(runtime.session_usage(), Usage::default());
}

#[test]
fn usage_merge_adds_each_count_and_saturates() {
    let mut total = usage(40, 5);
    total.merge(&usage(1, 1));
    assert_eq!(total, usage(41, 6));
    let mut full = Usage {
        input_tokens: u64::MAX - 1,
        output_tokens: 0,
        total_tokens: 0,
    };
    full.merge(&usage(5, 0));
    assert_eq!(full.input_tokens, u64::MAX);
}

#[test]
fn reset_twice_leaves_the_same_state_under_a_new_revision() {
    let mut runtime = runtime();
    runtime.commit_messages(vec![ChatMessage::user("q")]);
    runtime.follow_up("later");
    runtime.finish_run(
        RunOutcome::Finished {
            status: RunStatus::Completed,
            messages: vec![ChatMessage::user("q"), ChatMessage::assistant("a")],
            error: None,
            usage_delta: Some(Usage { input_tokens: 2, output_tokens: 3, total_tokens: 5 }),
        },
        true,
        None,
    );
    let thread_id = runtime.default_thread_id();
    let first = runtime.reset_history(NOW);
    runtime.finish_reset(None);
    assert_eq!(runtime.state(), AgentState::Idle);
    assert!(runtime.messages().is_empty());
    assert!(!runtime.has_queued_messages());
    assert_eq!(runtime.session_usage(), Usage::default());
    assert_eq!(runtime.default_thread_id(), thread_id);
    assert!(first.turns.is_empty() && first.messages.is_empty() && first.tools.is_empty());
    assert_eq!(first.active_turn_id, None);

    let second = runtime.reset_history(NOW + 1);
    runtime.finish_reset(None);
    assert_eq!(second.revision, first.revision + 1);
    assert_eq!(second.last_seq, first.last_seq + 1);
    assert_eq!(second.thread_id, first.thread_id);
    assert!(second.turns.is_empty() && second.messages.is_empty());
    assert_eq!(runtime.state(), AgentState::Idle);
    assert_eq!(runtime.session_usage(), Usage::default());
}

#[test]
fn an_errored_run_ends_idle_and_keeps_history() {
    let mut runtime = runtime();
    runtime.commit_messages(vec![ChatMessage::user("q")]);
    runtime.transition_to_running().unwrap();
    runtime.finish_run(RunOutcome::Errored { message: "provider down".to_string() }, true, None);
    assert_eq!(runtime.state(), AgentState::Idle);
    assert_eq!(runtime.messages().len(), 1);
    assert_eq!(runtime.snapshot().last_error.as_deref(), Some("provider down"));
    assert_eq!(runtime.session_usage(), Usage::default());
}

#[test]
fn semantic_mutation_commits_only_what_the_store_took() {
    let mut projector = ChatProjector::new(ChatRuntimeConfig::default(), fresh_thread_id());
    let queued = projector.queue_turn(vec![ChatMessage::user("hi")], NOW);

    let (request, published) = store_request(Commit::Append(Vec::new()));
    assert!(matches!(request, StoreRequest::Skip));
    assert!(published.is_empty());
    let (request, published) = store_request(Commit::Invalidate(queued.turn_id.thread_id(), 7));
    assert!(matches!(request, StoreRequest::InvalidateThread(_, 7)));
    assert!(published.is_empty());
    let (request, published) = store_request(Commit::Append(queued.events.clone()));
    match request {
        StoreRequest::AppendBatch(events) => assert_eq!(events, queued.events),
        _ => panic!("a non-empty append goes to the store"),
    }
    assert_eq!(published, queued.events);

    let mut committed = 1u32;
    let (result, out) = settle_mutation(
        &mut committed,
        2,
        published.clone(),
        Err(AgentRuntimeError::ProjectionFailed { message: "disk full".to_string() }),
    );
    assert_eq!(committed, 1);
    assert!(out.is_empty());
    assert_eq!(result, Err(AgentRuntimeError::ProjectionFailed { message: "disk full".to_string() }));
    let (result, out) = settle_mutation(&mut committed, 2, published.clone(), Ok(()));
    assert_eq!(committed, 2);
    assert_eq!(result, Ok(()));
    assert_eq!(out, queued.events);

    let mut errors = SemanticRunErrors::new();
    assert_eq!(mutation_gate(&errors), Ok(()));
    finish_mutation(&mut errors, &Err(AgentRuntimeError::ProjectionFailed { message: "first".to_string() }));
    finish_mutation(&mut errors, &Err(AgentRuntimeError::ProjectionFailed { message: "second".to_string() }));
    assert_eq!(
        mutation_gate(&errors),
        Err(AgentRuntimeError::ProjectionFailed { message: "first".to_string() })
    );
}
