//! Semantic runtime events: the envelope, its payloads, and their stable names.

use vstd::prelude::*;
use vstd::string::*;

use crate::domain::{
    AgentToolResult, ApprovalSnapshot, ApprovalView, DiffSnapshot, DiffView, HumanInteractionSnapshot,
    InteractionView, MessageSnapshot, MessageStatus, MessageView, PlanSnapshot, PlanView,
    ReasoningSnapshot, ReasoningView, Role, ToolExecutionSnapshot, ToolResultView, ToolStatus, ToolView,
    TurnSnapshot, TurnView,
};
use crate::dup::{duplicate_opt, duplicate_vec, opt_view, seq_view, Duplicate};
use crate::error::{AgentRuntimeError, ErrorView};
use crate::ids::{RuntimeCursor, ThreadId, TurnId};

verus! {

/// Version of the event envelope schema.
pub const AGENT_RUNTIME_EVENT_SCHEMA_VERSION: u16 = 1;

/// Semantic runtime events. This set intentionally excludes raw provider loop
/// events and catch-all snapshot updates.
#[derive(Debug, Clone, PartialEq, Eq)]
pub enum AgentRuntimeEventPayload {
    TurnQueued { turn: TurnSnapshot },
    TurnStarted { turn: TurnSnapshot },
    MessageStarted { message: MessageSnapshot },
    MessageUpdated { message: MessageSnapshot },
    MessageCompleted { message: MessageSnapshot },
    ToolStarted { tool: ToolExecutionSnapshot },
    ToolUpdated { tool: ToolExecutionSnapshot },
    ToolCompleted { tool: ToolExecutionSnapshot },
    ApprovalRequired { approval: ApprovalSnapshot },
    ApprovalResolved { approval: ApprovalSnapshot },
    ApprovalCanceled { approval: ApprovalSnapshot },
    HumanInteractionRequested { interaction: HumanInteractionSnapshot },
    HumanInteractionResolved { interaction: HumanInteractionSnapshot },
    HumanInteractionCanceled { interaction: HumanInteractionSnapshot },
    ReasoningUpdated { reasoning: ReasoningSnapshot, delta: String },
    PlanUpdated { plan: PlanSnapshot },
    DiffUpdated { diff: DiffSnapshot },
    SubagentStarted { subagent: SubagentRuntimeSnapshot },
    SubagentProgress { subagent: SubagentRuntimeSnapshot, message: Option<String> },
    SubagentToolCallStarted { subagent: SubagentRuntimeSnapshot, tool: SubagentToolCallSnapshot },
    SubagentToolCallCompleted { subagent: SubagentRuntimeSnapshot, tool: SubagentToolCallSnapshot },
    SubagentMessage { subagent: SubagentRuntimeSnapshot, message: SubagentMessageSnapshot },
    SubagentNeedsInput { subagent: SubagentRuntimeSnapshot, question: String, context: Option<String> },
    SubagentCompleted { subagent: SubagentRuntimeSnapshot, result: DelegateSubagentResult },
    SubagentFailed { subagent: SubagentRuntimeSnapshot, error: String },
    SubagentCancelled { subagent: SubagentRuntimeSnapshot },
    TurnCompleted { turn: TurnSnapshot },
    TurnFailed { turn: TurnSnapshot, error: String },
    TurnCanceled { turn: TurnSnapshot },
}

#[verifier::ext_equal]
pub enum PayloadView {
    TurnQueued { turn: TurnView },
    TurnStarted { turn: TurnView },
    MessageStarted { message: MessageView },
    MessageUpdated { message: MessageView },
    MessageCompleted { message: MessageView },
    ToolStarted { tool: ToolView },
    ToolUpdated { tool: ToolView },
    ToolCompleted { tool: ToolView },
    ApprovalRequired { approval: ApprovalView },
    ApprovalResolved { approval: ApprovalView },
    ApprovalCanceled { approval: ApprovalView },
    HumanInteractionRequested { interaction: InteractionView },
    HumanInteractionResolved { interaction: InteractionView },
    HumanInteractionCanceled { interaction: InteractionView },
    ReasoningUpdated { reasoning: ReasoningView, delta: Seq<char> },
    PlanUpdated { plan: PlanView },
    DiffUpdated { diff: DiffView },
    SubagentStarted { subagent: SubagentRuntimeView },
    SubagentProgress { subagent: SubagentRuntimeView, message: Option<Seq<char>> },
    SubagentToolCallStarted { subagent: SubagentRuntimeView, tool: SubagentToolCallView },
    SubagentToolCallCompleted { subagent: SubagentRuntimeView, tool: SubagentToolCallView },
    SubagentMessage { subagent: SubagentRuntimeView, message: SubagentMessageView },
    SubagentNeedsInput { subagent: SubagentRuntimeView, question: Seq<char>, context: Option<Seq<char>> },
    SubagentCompleted { subagent: SubagentRuntimeView, result: DelegateResultView },
    SubagentFailed { subagent: SubagentRuntimeView, error: Seq<char> },
    SubagentCancelled { subagent: SubagentRuntimeView },
    TurnCompleted { turn: TurnView },
    TurnFailed { turn: TurnView, error: Seq<char> },
    TurnCanceled { turn: TurnView },
}

impl View for AgentRuntimeEventPayload {
    type V = PayloadView;

    open spec fn view(&self) -> PayloadView {
        match self {
            AgentRuntimeEventPayload::TurnQueued { turn } => PayloadView::TurnQueued { turn: turn@ },
            AgentRuntimeEventPayload::TurnStarted { turn } => PayloadView::TurnStarted { turn: turn@ },
            AgentRuntimeEventPayload::MessageStarted { message } => PayloadView::MessageStarted { message: message@ },
            AgentRuntimeEventPayload::MessageUpdated { message } => PayloadView::MessageUpdated { message: message@ },
            AgentRuntimeEventPayload::MessageCompleted { message } => PayloadView::MessageCompleted { message: message@ },
            AgentRuntimeEventPayload::ToolStarted { tool } => PayloadView::ToolStarted { tool: tool@ },
            AgentRuntimeEventPayload::ToolUpdated { tool } => PayloadView::ToolUpdated { tool: tool@ },
            AgentRuntimeEventPayload::ToolCompleted { tool } => PayloadView::ToolCompleted { tool: tool@ },
            AgentRuntimeEventPayload::ApprovalRequired { approval } => PayloadView::ApprovalRequired { approval: approval@ },
            AgentRuntimeEventPayload::ApprovalResolved { approval } => PayloadView::ApprovalResolved { approval: approval@ },
            AgentRuntimeEventPayload::ApprovalCanceled { approval } => PayloadView::ApprovalCanceled { approval: approval@ },
            AgentRuntimeEventPayload::HumanInteractionRequested { interaction } => PayloadView::HumanInteractionRequested { interaction: interaction@ },
            AgentRuntimeEventPayload::HumanInteractionResolved { interaction } => PayloadView::HumanInteractionResolved { interaction: interaction@ },
            AgentRuntimeEventPayload::HumanInteractionCanceled { interaction } => PayloadView::HumanInteractionCanceled { interaction: interaction@ },
            AgentRuntimeEventPayload::ReasoningUpdated { reasoning, delta } => PayloadView::ReasoningUpdated { reasoning: reasoning@, delta: delta@ },
            AgentRuntimeEventPayload::PlanUpdated { plan } => PayloadView::PlanUpdated { plan: plan@ },
            AgentRuntimeEventPayload::DiffUpdated { diff } => PayloadView::DiffUpdated { diff: diff@ },
            AgentRuntimeEventPayload::SubagentStarted { subagent } => PayloadView::SubagentStarted { subagent: subagent@ },
            AgentRuntimeEventPayload::SubagentProgress { subagent, message } => PayloadView::SubagentProgress {
                subagent: subagent@,
                message: opt_view(*message),
            },
            AgentRuntimeEventPayload::SubagentToolCallStarted { subagent, tool } => PayloadView::SubagentToolCallStarted {
                subagent: subagent@,
                tool: tool@,
            },
            AgentRuntimeEventPayload::SubagentToolCallCompleted { subagent, tool } => PayloadView::SubagentToolCallCompleted {
                subagent: subagent@,
                tool: tool@,
            },
            AgentRuntimeEventPayload::SubagentMessage { subagent, message } => PayloadView::SubagentMessage {
                subagent: subagent@,
                message: message@,
            },
            AgentRuntimeEventPayload::SubagentNeedsInput { subagent, question, context } => PayloadView::SubagentNeedsInput {
                subagent: subagent@,
                question: question@,
                context: opt_view(*context),
            },
            AgentRuntimeEventPayload::SubagentCompleted { subagent, result } => PayloadView::SubagentCompleted {
                subagent: subagent@,
                result: result@,
            },
            AgentRuntimeEventPayload::SubagentFailed { subagent, error } => PayloadView::SubagentFailed {
                subagent: subagent@,
                error: error@,
            },
            AgentRuntimeEventPayload::SubagentCancelled { subagent } => PayloadView::SubagentCancelled { subagent: subagent@ },
            AgentRuntimeEventPayload::TurnCompleted { turn } => PayloadView::TurnCompleted { turn: turn@ },
            AgentRuntimeEventPayload::TurnFailed { turn, error } => PayloadView::TurnFailed { turn: turn@, error: error@ },
            AgentRuntimeEventPayload::TurnCanceled { turn } => PayloadView::TurnCanceled { turn: turn@ },
        }
    }
}

impl Duplicate for AgentRuntimeEventPayload {
    fn duplicate(&self) -> (r: Self) {
        match self {
            AgentRuntimeEventPayload::TurnQueued { turn } => AgentRuntimeEventPayload::TurnQueued { turn: turn.duplicate() },
            AgentRuntimeEventPayload::TurnStarted { turn } => AgentRuntimeEventPayload::TurnStarted { turn: turn.duplicate() },
            AgentRuntimeEventPayload::MessageStarted { message } => AgentRuntimeEventPayload::MessageStarted { message: message.duplicate() },
            AgentRuntimeEventPayload::MessageUpdated { message } => AgentRuntimeEventPayload::MessageUpdated { message: message.duplicate() },
            AgentRuntimeEventPayload::MessageCompleted { message } => AgentRuntimeEventPayload::MessageCompleted { message: message.duplicate() },
            AgentRuntimeEventPayload::ToolStarted { tool } => AgentRuntimeEventPayload::ToolStarted { tool: tool.duplicate() },
            AgentRuntimeEventPayload::ToolUpdated { tool } => AgentRuntimeEventPayload::ToolUpdated { tool: tool.duplicate() },
            AgentRuntimeEventPayload::ToolCompleted { tool } => AgentRuntimeEventPayload::ToolCompleted { tool: tool.duplicate() },
            AgentRuntimeEventPayload::ApprovalRequired { approval } => AgentRuntimeEventPayload::ApprovalRequired { approval: approval.duplicate() },
            AgentRuntimeEventPayload::ApprovalResolved { approval } => AgentRuntimeEventPayload::ApprovalResolved { approval: approval.duplicate() },
            AgentRuntimeEventPayload::ApprovalCanceled { approval } => AgentRuntimeEventPayload::ApprovalCanceled { approval: approval.duplicate() },
            AgentRuntimeEventPayload::HumanInteractionRequested { interaction } => AgentRuntimeEventPayload::HumanInteractionRequested { interaction: interaction.duplicate() },
            AgentRuntimeEventPayload::HumanInteractionResolved { interaction } => AgentRuntimeEventPayload::HumanInteractionResolved { interaction: interaction.duplicate() },
            AgentRuntimeEventPayload::HumanInteractionCanceled { interaction } => AgentRuntimeEventPayload::HumanInteractionCanceled { interaction: interaction.duplicate() },
            AgentRuntimeEventPayload::ReasoningUpdated { reasoning, delta } => AgentRuntimeEventPayload::ReasoningUpdated { reasoning: reasoning.duplicate(), delta: delta.duplicate() },
            AgentRuntimeEventPayload::PlanUpdated { plan } => AgentRuntimeEventPayload::PlanUpdated { plan: plan.duplicate() },
            AgentRuntimeEventPayload::DiffUpdated { diff } => AgentRuntimeEventPayload::DiffUpdated { diff: diff.duplicate() },
            AgentRuntimeEventPayload::SubagentStarted { subagent } => AgentRuntimeEventPayload::SubagentStarted {
                subagent: subagent.duplicate(),
            },
            AgentRuntimeEventPayload::SubagentProgress { subagent, message } => AgentRuntimeEventPayload::SubagentProgress {
                subagent: subagent.duplicate(),
                message: duplicate_opt(message),
            },
            AgentRuntimeEventPayload::SubagentToolCallStarted { subagent, tool } => AgentRuntimeEventPayload::SubagentToolCallStarted {
                subagent: subagent.duplicate(),
                tool: tool.duplicate(),
            },
            AgentRuntimeEventPayload::SubagentToolCallCompleted { subagent, tool } => AgentRuntimeEventPayload::SubagentToolCallCompleted {
                subagent: subagent.duplicate(),
                tool: tool.duplicate(),
            },
            AgentRuntimeEventPayload::SubagentMessage { subagent, message } => AgentRuntimeEventPayload::SubagentMessage {
                subagent: subagent.duplicate(),
                message: message.duplicate(),
            },
            AgentRuntimeEventPayload::SubagentNeedsInput { subagent, question, context } => AgentRuntimeEventPayload::SubagentNeedsInput {
                subagent: subagent.duplicate(),
                question: question.duplicate(),
                context: duplicate_opt(context),
            },
            AgentRuntimeEventPayload::SubagentCompleted { subagent, result } => AgentRuntimeEventPayload::SubagentCompleted {
                subagent: subagent.duplicate(),
                result: result.duplicate(),
            },
            AgentRuntimeEventPayload::SubagentFailed { subagent, error } => AgentRuntimeEventPayload::SubagentFailed {
                subagent: subagent.duplicate(),
                error: error.duplicate(),
            },
            AgentRuntimeEventPayload::SubagentCancelled { subagent } => AgentRuntimeEventPayload::SubagentCancelled {
                subagent: subagent.duplicate(),
            },
            AgentRuntimeEventPayload::TurnCompleted { turn } => AgentRuntimeEventPayload::TurnCompleted { turn: turn.duplicate() },
            AgentRuntimeEventPayload::TurnFailed { turn, error } => AgentRuntimeEventPayload::TurnFailed { turn: turn.duplicate(), error: error.duplicate() },
            AgentRuntimeEventPayload::TurnCanceled { turn } => AgentRuntimeEventPayload::TurnCanceled { turn: turn.duplicate() },
        }
    }
}

/// The payloads that report on a delegated sub-agent.
pub open spec fn is_subagent_payload(p: PayloadView) -> bool {
    match p {
        PayloadView::SubagentStarted { .. }
        | PayloadView::SubagentProgress { .. }
        | PayloadView::SubagentToolCallStarted { .. }
        | PayloadView::SubagentToolCallCompleted { .. }
        | PayloadView::SubagentMessage { .. }
        | PayloadView::SubagentNeedsInput { .. }
        | PayloadView::SubagentCompleted { .. }
        | PayloadView::SubagentFailed { .. }
        | PayloadView::SubagentCancelled { .. } => true,
        _ => false,
    }
}

/// The stable serialized tag of a payload variant.
pub open spec fn payload_tag(p: PayloadView) -> Seq<char> {
    match p {
        PayloadView::TurnQueued { .. } => "turn_queued"@,
        PayloadView::TurnStarted { .. } => "turn_started"@,
        PayloadView::MessageStarted { .. } => "message_started"@,
        PayloadView::MessageUpdated { .. } => "message_updated"@,
        PayloadView::MessageCompleted { .. } => "message_completed"@,
        PayloadView::ToolStarted { .. } => "tool_started"@,
        PayloadView::ToolUpdated { .. } => "tool_updated"@,
        PayloadView::ToolCompleted { .. } => "tool_completed"@,
        PayloadView::ApprovalRequired { .. } => "approval_required"@,
        PayloadView::ApprovalResolved { .. } => "approval_resolved"@,
        PayloadView::ApprovalCanceled { .. } => "approval_canceled"@,
        PayloadView::HumanInteractionRequested { .. } => "human_interaction_requested"@,
        PayloadView::HumanInteractionResolved { .. } => "human_interaction_resolved"@,
        PayloadView::HumanInteractionCanceled { .. } => "human_interaction_canceled"@,
        PayloadView::ReasoningUpdated { .. } => "reasoning_updated"@,
        PayloadView::PlanUpdated { .. } => "plan_updated"@,
        PayloadView::DiffUpdated { .. } => "diff_updated"@,
        PayloadView::SubagentStarted { .. } => "subagent_started"@,
        PayloadView::SubagentProgress { .. } => "subagent_progress"@,
        PayloadView::SubagentToolCallStarted { .. } => "subagent_tool_call_started"@,
        PayloadView::SubagentToolCallCompleted { .. } => "subagent_tool_call_completed"@,
        PayloadView::SubagentMessage { .. } => "subagent_message"@,
        PayloadView::SubagentNeedsInput { .. } => "subagent_needs_input"@,
        PayloadView::SubagentCompleted { .. } => "subagent_completed"@,
        PayloadView::SubagentFailed { .. } => "subagent_failed"@,
        PayloadView::SubagentCancelled { .. } => "subagent_cancelled"@,
        PayloadView::TurnCompleted { .. } => "turn_completed"@,
        PayloadView::TurnFailed { .. } => "turn_failed"@,
        PayloadView::TurnCanceled { .. } => "turn_canceled"@,
    }
}

impl AgentRuntimeEventPayload {
    pub fn turn_queued_name() -> (s: &'static str)
        ensures
            s@ == "turn_queued"@,
    {
        "turn_queued"
    }

    pub fn turn_started_name() -> (s: &'static str)
        ensures
            s@ == "turn_started"@,
    {
        "turn_started"
    }

    pub fn message_started_name() -> (s: &'static str)
        ensures
            s@ == "message_started"@,
    {
        "message_started"
    }

    pub fn message_updated_name() -> (s: &'static str)
        ensures
            s@ == "message_updated"@,
    {
        "message_updated"
    }

    pub fn message_completed_name() -> (s: &'static str)
        ensures
            s@ == "message_completed"@,
    {
        "message_completed"
    }

    pub fn tool_started_name() -> (s: &'static str)
        ensures
            s@ == "tool_started"@,
    {
        "tool_started"
    }

    pub fn tool_updated_name() -> (s: &'static str)
        ensures
            s@ == "tool_updated"@,
    {
        "tool_updated"
    }

    pub fn tool_completed_name() -> (s: &'static str)
        ensures
            s@ == "tool_completed"@,
    {
        "tool_completed"
    }

    pub fn approval_required_name() -> (s: &'static str)
        ensures
            s@ == "approval_required"@,
    {
        "approval_required"
    }

    pub fn approval_resolved_name() -> (s: &'static str)
        ensures
            s@ == "approval_resolved"@,
    {
        "approval_resolved"
    }

    pub fn approval_canceled_name() -> (s: &'static str)
        ensures
            s@ == "approval_canceled"@,
    {
        "approval_canceled"
    }

    pub fn human_interaction_requested_name() -> (s: &'static str)
        ensures
            s@ == "human_interaction_requested"@,
    {
        "human_interaction_requested"
    }

    pub fn human_interaction_resolved_name() -> (s: &'static str)
        ensures
            s@ == "human_interaction_resolved"@,
    {
        "human_interaction_resolved"
    }

    pub fn human_interaction_canceled_name() -> (s: &'static str)
        ensures
            s@ == "human_interaction_canceled"@,
    {
        "human_interaction_canceled"
    }

    pub fn reasoning_updated_name() -> (s: &'static str)
        ensures
            s@ == "reasoning_updated"@,
    {
        "reasoning_updated"
    }

    pub fn plan_updated_name() -> (s: &'static str)
        ensures
            s@ == "plan_updated"@,
    {
        "plan_updated"
    }

    pub fn diff_updated_name() -> (s: &'static str)
        ensures
            s@ == "diff_updated"@,
    {
        "diff_updated"
    }

    pub fn turn_completed_name() -> (s: &'static str)
        ensures
            s@ == "turn_completed"@,
    {
        "turn_completed"
    }

    pub fn turn_failed_name() -> (s: &'static str)
        ensures
            s@ == "turn_failed"@,
    {
        "turn_failed"
    }

    pub fn turn_canceled_name() -> (s: &'static str)
        ensures
            s@ == "turn_canceled"@,
    {
        "turn_canceled"
    }

    pub fn retry_name() -> (s: &'static str)
        ensures
            s@ == "retry"@,
    {
        "retry"
    }

    pub fn plan_written_name() -> (s: &'static str)
        ensures
            s@ == "plan_written"@,
    {
        "plan_written"
    }

    pub fn workspace_updated_name() -> (s: &'static str)
        ensures
            s@ == "workspace_updated"@,
    {
        "workspace_updated"
    }

    pub fn artifact_created_name() -> (s: &'static str)
        ensures
            s@ == "artifact_created"@,
    {
        "artifact_created"
    }

    pub fn temp_file_written_name() -> (s: &'static str)
        ensures
            s@ == "temp_file_written"@,
    {
        "temp_file_written"
    }

    pub fn checkpoint_created_name() -> (s: &'static str)
        ensures
            s@ == "checkpoint_created"@,
    {
        "checkpoint_created"
    }

    pub fn session_file_written_name() -> (s: &'static str)
        ensures
            s@ == "session_file_written"@,
    {
        "session_file_written"
    }

    pub fn session_file_deleted_name() -> (s: &'static str)
        ensures
            s@ == "session_file_deleted"@,
    {
        "session_file_deleted"
    }

    pub fn subagent_started_name() -> (s: &'static str)
        ensures
            s@ == "subagent_started"@,
    {
        "subagent_started"
    }

    pub fn subagent_progress_name() -> (s: &'static str)
        ensures
            s@ == "subagent_progress"@,
    {
        "subagent_progress"
    }

    pub fn subagent_tool_call_started_name() -> (s: &'static str)
        ensures
            s@ == "subagent_tool_call_started"@,
    {
        "subagent_tool_call_started"
    }

    pub fn subagent_tool_call_completed_name() -> (s: &'static str)
        ensures
            s@ == "subagent_tool_call_completed"@,
    {
        "subagent_tool_call_completed"
    }

    pub fn subagent_message_name() -> (s: &'static str)
        ensures
            s@ == "subagent_message"@,
    {
        "subagent_message"
    }

    pub fn subagent_needs_input_name() -> (s: &'static str)
        ensures
            s@ == "subagent_needs_input"@,
    {
        "subagent_needs_input"
    }

    pub fn subagent_completed_name() -> (s: &'static str)
        ensures
            s@ == "subagent_completed"@,
    {
        "subagent_completed"
    }

    pub fn subagent_failed_name() -> (s: &'static str)
        ensures
            s@ == "subagent_failed"@,
    {
        "subagent_failed"
    }

    pub fn subagent_cancelled_name() -> (s: &'static str)
        ensures
            s@ == "subagent_cancelled"@,
    {
        "subagent_cancelled"
    }

    /// Whether this payload reports on a delegated sub-agent.
    pub fn is_subagent_event(&self) -> (r: bool)
        ensures
            r == is_subagent_payload(self@),
    {
        match self {
            AgentRuntimeEventPayload::SubagentStarted { .. }
            | AgentRuntimeEventPayload::SubagentProgress { .. }
            | AgentRuntimeEventPayload::SubagentToolCallStarted { .. }
            | AgentRuntimeEventPayload::SubagentToolCallCompleted { .. }
            | AgentRuntimeEventPayload::SubagentMessage { .. }
            | AgentRuntimeEventPayload::SubagentNeedsInput { .. }
            | AgentRuntimeEventPayload::SubagentCompleted { .. }
            | AgentRuntimeEventPayload::SubagentFailed { .. }
            | AgentRuntimeEventPayload::SubagentCancelled { .. } => true,
            _ => false,
        }
    }

    /// The stable serialized tag of this payload.
    pub fn name(&self) -> (s: &'static str)
        ensures
            s@ == payload_tag(self@),
    {
        match self {
            AgentRuntimeEventPayload::TurnQueued { .. } => Self::turn_queued_name(),
            AgentRuntimeEventPayload::TurnStarted { .. } => Self::turn_started_name(),
            AgentRuntimeEventPayload::MessageStarted { .. } => Self::message_started_name(),
            AgentRuntimeEventPayload::MessageUpdated { .. } => Self::message_updated_name(),
            AgentRuntimeEventPayload::MessageCompleted { .. } => Self::message_completed_name(),
            AgentRuntimeEventPayload::ToolStarted { .. } => Self::tool_started_name(),
            AgentRuntimeEventPayload::ToolUpdated { .. } => Self::tool_updated_name(),
            AgentRuntimeEventPayload::ToolCompleted { .. } => Self::tool_completed_name(),
            AgentRuntimeEventPayload::ApprovalRequired { .. } => Self::approval_required_name(),
            AgentRuntimeEventPayload::ApprovalResolved { .. } => Self::approval_resolved_name(),
            AgentRuntimeEventPayload::ApprovalCanceled { .. } => Self::approval_canceled_name(),
            AgentRuntimeEventPayload::HumanInteractionRequested { .. } => Self::human_interaction_requested_name(),
            AgentRuntimeEventPayload::HumanInteractionResolved { .. } => Self::human_interaction_resolved_name(),
            AgentRuntimeEventPayload::HumanInteractionCanceled { .. } => Self::human_interaction_canceled_name(),
            AgentRuntimeEventPayload::ReasoningUpdated { .. } => Self::reasoning_updated_name(),
            AgentRuntimeEventPayload::PlanUpdated { .. } => Self::plan_updated_name(),
            AgentRuntimeEventPayload::DiffUpdated { .. } => Self::diff_updated_name(),
            AgentRuntimeEventPayload::SubagentStarted { .. } => Self::subagent_started_name(),
            AgentRuntimeEventPayload::SubagentProgress { .. } => Self::subagent_progress_name(),
            AgentRuntimeEventPayload::SubagentToolCallStarted { .. } => Self::subagent_tool_call_started_name(),
            AgentRuntimeEventPayload::SubagentToolCallCompleted { .. } => Self::subagent_tool_call_completed_name(),
            AgentRuntimeEventPayload::SubagentMessage { .. } => Self::subagent_message_name(),
            AgentRuntimeEventPayload::SubagentNeedsInput { .. } => Self::subagent_needs_input_name(),
            AgentRuntimeEventPayload::SubagentCompleted { .. } => Self::subagent_completed_name(),
            AgentRuntimeEventPayload::SubagentFailed { .. } => Self::subagent_failed_name(),
            AgentRuntimeEventPayload::SubagentCancelled { .. } => Self::subagent_cancelled_name(),
            AgentRuntimeEventPayload::TurnCompleted { .. } => Self::turn_completed_name(),
            AgentRuntimeEventPayload::TurnFailed { .. } => Self::turn_failed_name(),
            AgentRuntimeEventPayload::TurnCanceled { .. } => Self::turn_canceled_name(),
        }
    }
}

/// Stable semantic event envelope.
#[derive(Debug, Clone, PartialEq, Eq)]
pub struct AgentRuntimeEvent {
    pub schema_version: u16,
    pub seq: u64,
    pub thread_id: ThreadId,
    pub turn_id: Option<TurnId>,
    /// Unix milliseconds at which the event was projected.
    pub timestamp: i64,
    pub payload: AgentRuntimeEventPayload,
}

#[verifier::ext_equal]
pub struct EventView {
    pub schema_version: u16,
    pub seq: u64,
    pub thread_id: ThreadId,
    pub turn_id: Option<TurnId>,
    pub timestamp: i64,
    pub payload: PayloadView,
}

impl View for AgentRuntimeEvent {
    type V = EventView;

    open spec fn view(&self) -> EventView {
        EventView {
            schema_version: self.schema_version,
            seq: self.seq,
            thread_id: self.thread_id,
            turn_id: self.turn_id,
            timestamp: self.timestamp,
            payload: self.payload@,
        }
    }
}

impl Duplicate for AgentRuntimeEvent {
    fn duplicate(&self) -> (r: Self) {
        AgentRuntimeEvent {
            schema_version: self.schema_version,
            seq: self.seq,
            thread_id: self.thread_id,
            turn_id: self.turn_id,
            timestamp: self.timestamp,
            payload: self.payload.duplicate(),
        }
    }
}

/// The event that a projection emits with sequence number `seq` at time `now`.
pub open spec fn event_view(
    seq: u64,
    thread_id: ThreadId,
    turn_id: Option<TurnId>,
    payload: PayloadView,
    now: i64,
) -> EventView {
    EventView {
        schema_version: AGENT_RUNTIME_EVENT_SCHEMA_VERSION,
        seq,
        thread_id,
        turn_id,
        timestamp: now,
        payload,
    }
}

impl AgentRuntimeEvent {
    /// An event stamped with `timestamp`.
    pub fn new(
        seq: u64,
        thread_id: ThreadId,
        turn_id: Option<TurnId>,
        payload: AgentRuntimeEventPayload,
        timestamp: i64,
    ) -> (e: Self)
        ensures
            e@ == event_view(seq, thread_id, turn_id, payload@, timestamp),
    {
        AgentRuntimeEvent {
            schema_version: AGENT_RUNTIME_EVENT_SCHEMA_VERSION,
            seq,
            thread_id,
            turn_id,
            timestamp,
            payload,
        }
    }

    /// The cursor that resumes replay right after this event.
    pub fn cursor(&self) -> (c: RuntimeCursor)
        ensures
            c.thread_id == self.thread_id,
            c.seq == self.seq,
    {
        RuntimeCursor::new(self.thread_id, self.seq)
    }
}

/// Lifecycle state of a delegated sub-agent.
#[derive(Debug, Clone, Copy, PartialEq, Eq, Structural)]
pub enum SubagentStatus {
    Pending,
    Running,
    WaitingForInput,
    Completed,
    Failed,
    Cancelled,
}

/// Parent-visible snapshot of one sub-agent at event time.
#[derive(Debug, Clone, PartialEq, Eq)]
pub struct SubagentRuntimeSnapshot {
    pub subagent_id: u128,
    pub profile_id: String,
    pub label: Option<String>,
    pub status: SubagentStatus,
    /// Model in `provider:model` form.
    pub model: Option<String>,
    pub parent_turn_id: Option<TurnId>,
    pub parent_tool_call_id: Option<String>,
    pub child_thread_id: Option<ThreadId>,
    pub source_subagent_id: Option<u128>,
    pub target_subagent_id: Option<u128>,
    pub sequence: u64,
}

#[verifier::ext_equal]
pub struct SubagentRuntimeView {
    pub subagent_id: u128,
    pub profile_id: Seq<char>,
    pub label: Option<Seq<char>>,
    pub status: SubagentStatus,
    pub model: Option<Seq<char>>,
    pub parent_turn_id: Option<TurnId>,
    pub parent_tool_call_id: Option<Seq<char>>,
    pub child_thread_id: Option<ThreadId>,
    pub source_subagent_id: Option<u128>,
    pub target_subagent_id: Option<u128>,
    pub sequence: u64,
}

impl View for SubagentRuntimeSnapshot {
    type V = SubagentRuntimeView;

    open spec fn view(&self) -> SubagentRuntimeView {
        SubagentRuntimeView {
            subagent_id: self.subagent_id,
            profile_id: self.profile_id@,
            label: opt_view(self.label),
            status: self.status,
            model: opt_view(self.model),
            parent_turn_id: self.parent_turn_id,
            parent_tool_call_id: opt_view(self.parent_tool_call_id),
            child_thread_id: self.child_thread_id,
            source_subagent_id: self.source_subagent_id,
            target_subagent_id: self.target_subagent_id,
            sequence: self.sequence,
        }
    }
}

impl Duplicate for SubagentRuntimeSnapshot {
    fn duplicate(&self) -> (r: Self) {
        SubagentRuntimeSnapshot {
            subagent_id: self.subagent_id,
            profile_id: self.profile_id.duplicate(),
            label: duplicate_opt(&self.label),
            status: self.status,
            model: duplicate_opt(&self.model),
            parent_turn_id: self.parent_turn_id,
            parent_tool_call_id: duplicate_opt(&self.parent_tool_call_id),
            child_thread_id: self.child_thread_id,
            source_subagent_id: self.source_subagent_id,
            target_subagent_id: self.target_subagent_id,
            sequence: self.sequence,
        }
    }
}

/// Child message summary without parent-thread message ids.
#[derive(Debug, Clone, PartialEq, Eq)]
pub struct SubagentMessageSnapshot {
    pub role: Role,
    pub text: String,
    pub status: MessageStatus,
}

#[verifier::ext_equal]
pub struct SubagentMessageView {
    pub role: Role,
    pub text: Seq<char>,
    pub status: MessageStatus,
}

impl View for SubagentMessageSnapshot {
    type V = SubagentMessageView;

    open spec fn view(&self) -> SubagentMessageView {
        SubagentMessageView { role: self.role, text: self.text@, status: self.status }
    }
}

impl Duplicate for SubagentMessageSnapshot {
    fn duplicate(&self) -> (r: Self) {
        SubagentMessageSnapshot { role: self.role, text: self.text.duplicate(), status: self.status }
    }
}

/// Child tool-call summary without parent-thread tool execution ids.
#[derive(Debug, Clone, PartialEq, Eq)]
pub struct SubagentToolCallSnapshot {
    pub tool_call_id: String,
    pub tool_name: String,
    /// Arguments, as JSON text.
    pub args: String,
    pub result: Option<AgentToolResult>,
    pub status: ToolStatus,
}

#[verifier::ext_equal]
pub struct SubagentToolCallView {
    pub tool_call_id: Seq<char>,
    pub tool_name: Seq<char>,
    pub args: Seq<char>,
    pub result: Option<ToolResultView>,
    pub status: ToolStatus,
}

impl View for SubagentToolCallSnapshot {
    type V = SubagentToolCallView;

    open spec fn view(&self) -> SubagentToolCallView {
        SubagentToolCallView {
            tool_call_id: self.tool_call_id@,
            tool_name: self.tool_name@,
            args: self.args@,
            result: opt_view(self.result),
            status: self.status,
        }
    }
}

impl Duplicate for SubagentToolCallSnapshot {
    fn duplicate(&self) -> (r: Self) {
        SubagentToolCallSnapshot {
            tool_call_id: self.tool_call_id.duplicate(),
            tool_name: self.tool_name.duplicate(),
            args: self.args.duplicate(),
            result: duplicate_opt(&self.result),
            status: self.status,
        }
    }
}

/// A piece of work a sub-agent hands back.
#[derive(Debug, Clone, PartialEq, Eq)]
pub struct SubagentArtifact {
    pub kind: String,
    pub title: String,
    pub content: String,
}

#[verifier::ext_equal]
pub struct SubagentArtifactView {
    pub kind: Seq<char>,
    pub title: Seq<char>,
    pub content: Seq<char>,
}

impl View for SubagentArtifact {
    type V = SubagentArtifactView;

    open spec fn view(&self) -> SubagentArtifactView {
        SubagentArtifactView { kind: self.kind@, title: self.title@, content: self.content@ }
    }
}

impl Duplicate for SubagentArtifact {
    fn duplicate(&self) -> (r: Self) {
        SubagentArtifact {
            kind: self.kind.duplicate(),
            title: self.title.duplicate(),
            content: self.content.duplicate(),
        }
    }
}

/// What a delegated sub-agent returned to its parent.
#[derive(Debug, Clone, PartialEq, Eq)]
pub struct DelegateSubagentResult {
    pub subagent_id: u128,
    pub profile_id: String,
    pub status: SubagentStatus,
    pub summary: String,
    pub artifacts: Vec<SubagentArtifact>,
    pub child_thread_id: Option<ThreadId>,
    /// Token usage, as JSON text.
    pub usage: Option<String>,
    pub error: Option<String>,
}

#[verifier::ext_equal]
pub struct DelegateResultView {
    pub subagent_id: u128,
    pub profile_id: Seq<char>,
    pub status: SubagentStatus,
    pub summary: Seq<char>,
    pub artifacts: Seq<SubagentArtifactView>,
    pub child_thread_id: Option<ThreadId>,
    pub usage: Option<Seq<char>>,
    pub error: Option<Seq<char>>,
}

impl View for DelegateSubagentResult {
    type V = DelegateResultView;

    open spec fn view(&self) -> DelegateResultView {
        DelegateResultView {
            subagent_id: self.subagent_id,
            profile_id: self.profile_id@,
            status: self.status,
            summary: self.summary@,
            artifacts: seq_view(self.artifacts@),
            child_thread_id: self.child_thread_id,
            usage: opt_view(self.usage),
            error: opt_view(self.error),
        }
    }
}

impl Duplicate for DelegateSubagentResult {
    fn duplicate(&self) -> (r: Self) {
        DelegateSubagentResult {
            subagent_id: self.subagent_id,
            profile_id: self.profile_id.duplicate(),
            status: self.status,
            summary: self.summary.duplicate(),
            artifacts: duplicate_vec(&self.artifacts),
            child_thread_id: self.child_thread_id,
            usage: duplicate_opt(&self.usage),
            error: duplicate_opt(&self.error),
        }
    }
}

/// The view of a result carrying several events.
pub open spec fn events_res(r: Result<Vec<AgentRuntimeEvent>, AgentRuntimeError>) -> Result<Seq<EventView>, ErrorView> {
    match r {
        Ok(v) => Ok(crate::dup::seq_view(v@)),
        Err(e) => Err(e@),
    }
}

} // verus!
