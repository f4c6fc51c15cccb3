use roci_core::compaction::{
    branch_summary_plan, compact_messages, compacted_history, compaction_conversation_start, compaction_critical_context, count_tokens_before_entry,
    legacy_summary_override, select_compaction, split_messages_for_compaction, summary_text,
    system_prefix_len, validate_compaction_override, CompactionSelection, PreparedCompaction,
    SessionSummaryHookOutcome,
};
use roci_core::domain::{ChatMessage, Role};
use roci_core::error::RociError;
use roci_core::plan::{last_assistant_text, number_steps, plan_instructions, plan_text, StructuredPlan};
use roci_core::runtime_types::{
    FileOperationSet, SessionCompactionOverride, SummaryPreparationData,
};

fn conversation() -> Vec<ChatMessage> {
    vec![
        ChatMessage::user("u0"),
        ChatMessage::assistant("a1"),
        ChatMessage::user("u2"),
        ChatMessage::assistant("a3"),
        ChatMessage::new(Role::Tool, "t4"),
        ChatMessage::assistant("a5"),
    ]
}

fn texts(messages: &[ChatMessage]) -> Vec<String> {
    messages.iter().map(ChatMessage::text).collect()
}

fn invalid(message: &str) -> RociError {
    RociError::InvalidState(message.to_string())
}

#[test]
fn split_keeps_the_turn_cut_by_the_boundary_together() {
    let messages = conversation();
    let (summarize, prefix, kept, split) = split_messages_for_compaction(&messages, 4);
    assert_eq!(texts(&summarize), ["u0", "a1"]);
    assert_eq!(texts(&prefix), ["u2", "a3"]);
    assert_eq!(texts(&kept), ["t4", "a5"]);
    assert!(split);

    let (summarize, prefix, kept, split) = split_messages_for_compaction(&messages, 2);
    assert!(summarize.is_empty());
    assert_eq!(texts(&prefix), ["u0", "a1"]);
    assert_eq!(texts(&kept), ["u2", "a3", "t4", "a5"]);
    assert!(split);

    let (summarize, prefix, kept, split) = split_messages_for_compaction(&messages, 0);
    assert!(summarize.is_empty());
    assert!(prefix.is_empty());
    assert_eq!(kept.len(), 6);
    assert!(!split);

    let (summarize, prefix, kept, split) = split_messages_for_compaction(&messages, 6);
    assert_eq!(summarize.len(), 6);
    assert!(prefix.is_empty());
    assert!(kept.is_empty());
    assert!(!split);
}

#[test]
fn tokens_before_entry_sums_the_earlier_estimates() {
    let estimates = vec![3, 5, 7, 11];
    assert_eq!(count_tokens_before_entry(&estimates, 0), 0);
    assert_eq!(count_tokens_before_entry(&estimates, 2), 8);
    assert_eq!(count_tokens_before_entry(&estimates, 4), 26);
}

#[test]
fn legacy_override_uses_the_prepared_boundary_and_its_tokens() {
    let estimates = vec![3, 5, 7];
    let o = legacy_summary_override("sum".to_string(), 2, &estimates);
    assert_eq!(
        o,
        SessionCompactionOverride {
            summary: "sum".to_string(),
            first_kept_entry_id: 2,
            tokens_before: 8,
            details: None,
        }
    );
    let clamped = legacy_summary_override("sum".to_string(), 10, &estimates);
    assert_eq!(clamped.first_kept_entry_id, 3);
    assert_eq!(clamped.tokens_before, 15);
}

#[test]
fn override_validation_reports_each_refusal() {
    let messages = conversation();
    let estimates = vec![1, 1, 1, 1, 1, 1];
    let base = SessionCompactionOverride {
        summary: "  keep going  ".to_string(),
        first_kept_entry_id: 2,
        tokens_before: 2,
        details: Some("  why  ".to_string()),
    };

    let ok = validate_compaction_override(base.clone(), &messages, &estimates).unwrap();
    assert_eq!(ok.summary, "keep going");
    assert_eq!(ok.details.as_deref(), Some("why"));

    let blank = SessionCompactionOverride {
        summary: "   ".to_string(),
        ..base.clone()
    };
    assert_eq!(
        validate_compaction_override(blank, &messages, &estimates).unwrap_err(),
        invalid("compaction override summary must not be empty")
    );

    let zero = SessionCompactionOverride {
        first_kept_entry_id: 0,
        ..base.clone()
    };
    assert_eq!(
        validate_compaction_override(zero, &messages, &estimates).unwrap_err(),
        invalid("compaction override first_kept_entry_id must be within 1..=6 (got 0)")
    );

    let tool = SessionCompactionOverride {
        first_kept_entry_id: 4,
        tokens_before: 4,
        ..base.clone()
    };
    assert_eq!(
        validate_compaction_override(tool, &messages, &estimates).unwrap_err(),
        invalid("compaction override first_kept_entry_id=4 cannot point to a tool result entry")
    );

    let tokens = SessionCompactionOverride {
        tokens_before: 9,
        ..base.clone()
    };
    assert_eq!(
        validate_compaction_override(tokens, &messages, &estimates).unwrap_err(),
        invalid("compaction override tokens_before=9 does not match expected 2 for first_kept_entry_id=2")
    );

    let blank_details = SessionCompactionOverride {
        details: Some(" ".to_string()),
        ..base
    };
    assert_eq!(
        validate_compaction_override(blank_details, &messages, &estimates)
            .unwrap()
            .details,
        None
    );
}

fn prepared(messages: &[ChatMessage]) -> PreparedCompaction {
    PreparedCompaction {
        messages_to_summarize: messages[..2].to_vec(),
        turn_prefix_messages: messages[2..3].to_vec(),
        kept_messages: messages[3..].to_vec(),
        split_turn: true,
        cut_index: 3,
    }
}

#[test]
fn compaction_selection_follows_the_hook_outcome() {
    let messages = conversation();
    let estimates = vec![1, 2, 3, 4, 5, 6];

    let plain = select_compaction(prepared(&messages), None, &messages, &estimates).unwrap();
    assert_eq!(texts(&plain.messages_to_summarize), ["u0", "a1"]);
    assert!(plain.summary_override.is_none());

    let canceled = select_compaction(
        prepared(&messages),
        Some(SessionSummaryHookOutcome::Cancel),
        &messages,
        &estimates,
    );
    assert_eq!(
        canceled.err(),
        Some(invalid("compaction canceled by session_before_compact hook"))
    );

    let summary = select_compaction(
        prepared(&messages),
        Some(SessionSummaryHookOutcome::OverrideSummary("  short ".to_string())),
        &messages,
        &estimates,
    )
    .unwrap();
    assert_eq!(summary.summary_override.as_deref(), Some("short"));
    assert_eq!(texts(&summary.messages_to_summarize), ["u0", "a1"]);
    assert_eq!(texts(&summary.kept_messages), ["a3", "t4", "a5"]);

    let moved = select_compaction(
        prepared(&messages),
        Some(SessionSummaryHookOutcome::OverrideCompaction(SessionCompactionOverride {
            summary: "s".to_string(),
            first_kept_entry_id: 6,
            tokens_before: 21,
            details: Some("all".to_string()),
        })),
        &messages,
        &estimates,
    )
    .unwrap();
    assert_eq!(moved.messages_to_summarize.len(), 6);
    assert!(moved.turn_prefix_messages.is_empty());
    assert!(moved.kept_messages.is_empty());
    assert!(!moved.split_turn);
    assert_eq!(moved.override_details.as_deref(), Some("all"));

    let nothing_left = select_compaction(
        prepared(&messages),
        Some(SessionSummaryHookOutcome::OverrideCompaction(SessionCompactionOverride {
            summary: "s".to_string(),
            first_kept_entry_id: 1,
            tokens_before: 1,
            details: None,
        })),
        &messages,
        &estimates,
    );
    assert_eq!(
        nothing_left.err(),
        Some(invalid("compaction override first_kept_entry_id=1 leaves no entries to summarize"))
    );
}

#[test]
fn compacted_history_places_summary_after_system_prefix() {
    let messages = vec![
        ChatMessage::system("sys"),
        ChatMessage::system("sys2"),
        ChatMessage::user("hi"),
    ];
    assert_eq!(system_prefix_len(&messages), 2);
    assert_eq!(system_prefix_len(&conversation()), 0);
    let history = compacted_history(
        messages[..2].to_vec(),
        ChatMessage::user("summary"),
        vec![ChatMessage::user("u2")],
        vec![ChatMessage::assistant("a3")],
    );
    assert_eq!(texts(&history), ["sys", "sys2", "summary", "u2", "a3"]);
}

#[test]
fn critical_context_notes_split_turns_and_details() {
    assert!(compaction_critical_context(false, None).is_empty());
    assert_eq!(
        compaction_critical_context(true, Some("kept tool".to_string())),
        vec![
            "A turn split was preserved to avoid cutting a user/tool exchange".to_string(),
            "Compaction override details: kept tool".to_string(),
        ]
    );
}

#[test]
fn summary_text_trims_and_refuses_blank_output() {
    assert_eq!(summary_text("  bullets \n", "empty").unwrap(), "bullets");
    assert_eq!(summary_text(" \n\t", "empty").unwrap_err(), invalid("empty"));
}

#[test]
fn branch_summary_plan_follows_budget_and_hook() {
    assert_eq!(
        branch_summary_plan(0, None).unwrap_err(),
        invalid("branch summary requires at least one entry within token budget")
    );
    assert_eq!(branch_summary_plan(2, None).unwrap(), None);
    assert_eq!(
        branch_summary_plan(2, Some(SessionSummaryHookOutcome::Continue)).unwrap(),
        None
    );
    assert_eq!(
        branch_summary_plan(2, Some(SessionSummaryHookOutcome::Cancel)).unwrap_err(),
        invalid("branch summary canceled by session_before_tree hook")
    );
    assert_eq!(
        branch_summary_plan(1, Some(SessionSummaryHookOutcome::OverrideSummary(" done ".to_string())))
            .unwrap(),
        Some("done".to_string())
    );
    assert_eq!(
        branch_summary_plan(1, Some(SessionSummaryHookOutcome::OverrideSummary("  ".to_string())))
            .unwrap_err(),
        invalid("branch summary text must not be empty")
    );
}

#[test]
fn summary_preparation_totals_the_estimates() {
    let data = SummaryPreparationData::from_messages(
        vec![ChatMessage::user("a"), ChatMessage::assistant("b")],
        &vec![4, 6],
        FileOperationSet {
            read_files: vec!["a.rs".to_string()],
            modified_files: Vec::new(),
        },
    );
    assert_eq!(data.token_count, 10);
    assert_eq!(texts(&data.messages), ["a", "b"]);
    assert_eq!(data.file_operations.read_files, vec!["a.rs".to_string()]);
}

#[test]
fn structured_plan_rejects_blank_or_empty_values() {
    assert!(plan_text(StructuredPlan {
        plan: Some("   ".to_string()),
        steps: None,
    })
    .is_none());
    assert!(plan_text(StructuredPlan {
        plan: None,
        steps: Some(Vec::new()),
    })
    .is_none());
    assert!(plan_text(StructuredPlan {
        plan: None,
        steps: Some(vec!["inspect".to_string(), "  ".to_string()]),
    })
    .is_none());
}

#[test]
fn structured_plan_prefers_plan_text_then_numbers_steps() {
    assert_eq!(
        plan_text(StructuredPlan {
            plan: Some("inspect".to_string()),
            steps: Some(vec!["a".to_string()]),
        }),
        Some("inspect".to_string())
    );
    assert_eq!(
        plan_text(StructuredPlan {
            plan: None,
            steps: Some(vec!["inspect".to_string(), "edit".to_string()]),
        }),
        Some("1. inspect\n2. edit".to_string())
    );
    assert_eq!(
        plan_text(StructuredPlan {
            plan: None,
            steps: None,
        }),
        None
    );
    let steps: Vec<String> = (1..=11).map(|i| format!("s{i}")).collect();
    assert!(number_steps(&steps).ends_with("\n10. s10\n11. s11"));
}

#[test]
fn plan_instructions_append_to_existing_ones() {
    let instruction =
        "Return only JSON matching the roci_plan schema. Do not include prose outside the JSON object.";
    assert_eq!(plan_instructions(None), instruction);
    assert_eq!(plan_instructions(Some(String::new())), instruction);
    assert_eq!(
        plan_instructions(Some("Be brief.".to_string())),
        format!("Be brief.\n\n{instruction}")
    );
}

#[test]
fn last_assistant_text_picks_the_latest_reply() {
    assert_eq!(last_assistant_text(&conversation()), Some("a5".to_string()));
    assert_eq!(last_assistant_text(&vec![ChatMessage::user("q")]), None);
}

#[test]
fn compaction_needs_two_conversation_messages_after_the_system_prefix() {
    let mut messages = vec![ChatMessage::system("sys"), ChatMessage::user("q")];
    assert_eq!(compaction_conversation_start(&messages), None);
    messages.push(ChatMessage::assistant("a"));
    assert_eq!(compaction_conversation_start(&messages), Some(1));
    assert_eq!(compaction_conversation_start(&Vec::new()), None);
}

#[test]
fn accepted_override_is_accepted_again_unchanged() {
    let messages = conversation();
    let estimates = vec![3, 1, 4, 1, 5, 9];
    let data = SessionCompactionOverride {
        summary: "\n done so far \t".to_string(),
        first_kept_entry_id: 2,
        tokens_before: 4,
        details: Some("   ".to_string()),
    };
    let once = validate_compaction_override(data, &messages, &estimates).unwrap();
    assert_eq!(once.summary, "done so far");
    assert_eq!(once.first_kept_entry_id, 2);
    assert_eq!(once.tokens_before, 4);
    assert_eq!(once.details, None);
    let twice = validate_compaction_override(once.clone(), &messages, &estimates).unwrap();
    assert_eq!(twice, once);

    let wrong_tokens = SessionCompactionOverride { tokens_before: 5, ..once };
    assert_eq!(
        validate_compaction_override(wrong_tokens, &messages, &estimates).unwrap_err(),
        invalid("compaction override tokens_before=5 does not match expected 4 for first_kept_entry_id=2")
    );
}

#[test]
fn compaction_keeps_system_prefix_then_summary_then_kept_tail() {
    let mut messages = vec![ChatMessage::system("rules")];
    messages.extend(conversation());
    let conv = messages[1..].to_vec();
    let (summarized, turn_prefix, kept, split_turn) = split_messages_for_compaction(&conv, 3);
    assert!(split_turn);
    let selection = CompactionSelection {
        messages_to_summarize: summarized,
        turn_prefix_messages: turn_prefix,
        kept_messages: kept,
        split_turn,
        summary_override: None,
        override_details: None,
    };
    let compacted = compact_messages(&messages, selection, ChatMessage::user("summary"));
    assert_eq!(texts(&compacted), ["rules", "summary", "u2", "a3", "t4", "a5"]);
    assert!(compacted.len() <= messages.len());
}
