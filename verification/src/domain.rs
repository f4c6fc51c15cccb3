//! Chat projection data: statuses, message and tool payloads, and the
//! per-thread snapshots that the projector maintains.

use vstd::prelude::*;

use crate::dup::{copy_vec, duplicate_opt, duplicate_vec, opt_view, seq_view, Duplicate};
use crate::ids::{MessageId, ThreadId, TurnId};

verus! {

#[derive(Debug, Clone, Copy, PartialEq, Eq, Structural)]
pub enum TurnStatus {
    Queued,
    Running,
    Completed,
    Failed,
    Canceled,
}

#[derive(Debug, Clone, Copy, PartialEq, Eq, Structural)]
pub enum MessageStatus {
    Streaming,
    Completed,
}

#[derive(Debug, Clone, Copy, PartialEq, Eq, Structural)]
pub enum ToolStatus {
    Running,
    Completed,
}

#[derive(Debug, Clone, Copy, PartialEq, Eq, Structural)]
pub enum ApprovalStatus {
    Pending,
    Resolved,
    Canceled,
}

#[derive(Debug, Clone, Copy, PartialEq, Eq, Structural)]
pub enum HumanInteractionStatus {
    Pending,
    Resolved,
    Canceled,
}

/// Author of a conversation message.
#[derive(Debug, Clone, Copy, PartialEq, Eq, Structural)]
pub enum Role {
    System,
    User,
    Assistant,
    Tool,
}

/// What an approval request asks permission for.
#[derive(Debug, Clone, Copy, PartialEq, Eq, Structural)]
pub enum ApprovalKind {
    CommandExecution,
    FileChange,
    Other,
}

/// Host answer to an approval request.
#[derive(Debug, Clone, Copy, PartialEq, Eq, Structural)]
pub enum ApprovalDecision {
    Accept,
    AcceptForSession,
    Decline,
    Cancel,
}

/// A turn is terminal once it completed, failed, or was canceled.
pub open spec fn spec_is_terminal(status: TurnStatus) -> bool {
    status == TurnStatus::Completed || status == TurnStatus::Failed || status
        == TurnStatus::Canceled
}

/// Whether a turn in `status` can no longer change.
pub fn is_terminal(status: TurnStatus) -> (r: bool)
    ensures
        r == spec_is_terminal(status),
{
    match status {
        TurnStatus::Completed | TurnStatus::Failed | TurnStatus::Canceled => true,
        TurnStatus::Queued | TurnStatus::Running => false,
    }
}

// ---------------------------------------------------------------------------
// Payload values carried by snapshots.
/// One conversation message: its author and its text.
#[derive(Debug, Clone, PartialEq, Eq)]
pub struct ChatMessage {
    pub role: Role,
    pub text: String,
}

#[verifier::ext_equal]
pub struct ChatMessageView {
    pub role: Role,
    pub text: Seq<char>,
}

impl View for ChatMessage {
    type V = ChatMessageView;

    open spec fn view(&self) -> ChatMessageView {
        ChatMessageView { role: self.role, text: self.text@ }
    }
}

impl Duplicate for ChatMessage {
    fn duplicate(&self) -> (r: Self) {
        ChatMessage { role: self.role, text: self.text.duplicate() }
    }
}

impl ChatMessage {
    /// A message of `role` with `text`.
    pub fn new(role: Role, text: &str) -> (m: Self)
        ensures
            m@.role == role,
            m@.text == text@,
    {
        ChatMessage { role, text: text.to_string() }
    }

    pub fn system(text: &str) -> (m: Self)
        ensures
            m@.role == Role::System,
            m@.text == text@,
    {
        Self::new(Role::System, text)
    }

    pub fn user(text: &str) -> (m: Self)
        ensures
            m@.role == Role::User,
            m@.text == text@,
    {
        Self::new(Role::User, text)
    }

    pub fn assistant(text: &str) -> (m: Self)
        ensures
            m@.role == Role::Assistant,
            m@.text == text@,
    {
        Self::new(Role::Assistant, text)
    }

    /// The message text.
    pub fn text(&self) -> (s: String)
        ensures
            s@ == self@.text,
    {
        self.text.duplicate()
    }
}

/// Streaming partial output of a running tool.
#[derive(Debug, Clone, PartialEq, Eq)]
pub struct ToolUpdatePayload {
    pub content: String,
    /// Structured details, as JSON text.
    pub details: String,
}

#[verifier::ext_equal]
pub struct ToolUpdateView {
    pub content: Seq<char>,
    pub details: Seq<char>,
}

impl View for ToolUpdatePayload {
    type V = ToolUpdateView;

    open spec fn view(&self) -> ToolUpdateView {
        ToolUpdateView { content: self.content@, details: self.details@ }
    }
}

impl Duplicate for ToolUpdatePayload {
    fn duplicate(&self) -> (r: Self) {
        ToolUpdatePayload { content: self.content.duplicate(), details: self.details.duplicate() }
    }
}

/// Final result of a tool call.
#[derive(Debug, Clone, PartialEq, Eq)]
pub struct AgentToolResult {
    pub tool_call_id: String,
    /// The result value, as JSON text.
    pub result: String,
    pub is_error: bool,
}

#[verifier::ext_equal]
pub struct ToolResultView {
    pub tool_call_id: Seq<char>,
    pub result: Seq<char>,
    pub is_error: bool,
}

impl View for AgentToolResult {
    type V = ToolResultView;

    open spec fn view(&self) -> ToolResultView {
        ToolResultView {
            tool_call_id: self.tool_call_id@,
            result: self.result@,
            is_error: self.is_error,
        }
    }
}

impl Duplicate for AgentToolResult {
    fn duplicate(&self) -> (r: Self) {
        AgentToolResult {
            tool_call_id: self.tool_call_id.duplicate(),
            result: self.result.duplicate(),
            is_error: self.is_error,
        }
    }
}

/// A request for host approval raised during a turn.
#[derive(Debug, Clone, PartialEq, Eq)]
pub struct ApprovalRequest {
    pub id: String,
    pub kind: ApprovalKind,
    pub allow_session: bool,
    pub reason: Option<String>,
    /// Request details, as JSON text.
    pub payload: String,
}

#[verifier::ext_equal]
pub struct ApprovalRequestView {
    pub id: Seq<char>,
    pub kind: ApprovalKind,
    pub allow_session: bool,
    pub reason: Option<Seq<char>>,
    pub payload: Seq<char>,
}

impl View for ApprovalRequest {
    type V = ApprovalRequestView;

    open spec fn view(&self) -> ApprovalRequestView {
        ApprovalRequestView {
            id: self.id@,
            kind: self.kind,
            allow_session: self.allow_session,
            reason: opt_view(self.reason),
            payload: self.payload@,
        }
    }
}

impl Duplicate for ApprovalRequest {
    fn duplicate(&self) -> (r: Self) {
        ApprovalRequest {
            id: self.id.duplicate(),
            kind: self.kind,
            allow_session: self.allow_session,
            reason: duplicate_opt(&self.reason),
            payload: self.payload.duplicate(),
        }
    }
}

/// A question put to the human during a turn.
#[derive(Debug, Clone, PartialEq, Eq)]
pub struct HumanInteractionRequest {
    pub request_id: u128,
    pub prompt: String,
    pub timeout_ms: Option<u64>,
}

#[verifier::ext_equal]
pub struct HumanInteractionRequestView {
    pub request_id: u128,
    pub prompt: Seq<char>,
    pub timeout_ms: Option<u64>,
}

impl View for HumanInteractionRequest {
    type V = HumanInteractionRequestView;

    open spec fn view(&self) -> HumanInteractionRequestView {
        HumanInteractionRequestView {
            request_id: self.request_id,
            prompt: self.prompt@,
            timeout_ms: self.timeout_ms,
        }
    }
}

impl Duplicate for HumanInteractionRequest {
    fn duplicate(&self) -> (r: Self) {
        HumanInteractionRequest {
            request_id: self.request_id,
            prompt: self.prompt.duplicate(),
            timeout_ms: self.timeout_ms,
        }
    }
}

/// The human's answer; `answer == None` means the request was declined.
#[derive(Debug, Clone, PartialEq, Eq)]
pub struct HumanInteractionResponse {
    pub request_id: u128,
    pub answer: Option<String>,
}

#[verifier::ext_equal]
pub struct HumanInteractionResponseView {
    pub request_id: u128,
    pub answer: Option<Seq<char>>,
}

impl View for HumanInteractionResponse {
    type V = HumanInteractionResponseView;

    open spec fn view(&self) -> HumanInteractionResponseView {
        HumanInteractionResponseView { request_id: self.request_id, answer: opt_view(self.answer) }
    }
}

impl Duplicate for HumanInteractionResponse {
    fn duplicate(&self) -> (r: Self) {
        HumanInteractionResponse {
            request_id: self.request_id,
            answer: duplicate_opt(&self.answer),
        }
    }
}

// ---------------------------------------------------------------------------
// Snapshots.
/// Projection of one turn. Timestamps are Unix milliseconds.
#[derive(Debug, Clone, PartialEq, Eq)]
pub struct TurnSnapshot {
    pub turn_id: TurnId,
    pub thread_id: ThreadId,
    pub status: TurnStatus,
    pub message_ids: Vec<MessageId>,
    pub active_tool_call_ids: Vec<String>,
    pub error: Option<String>,
    pub queued_at: i64,
    pub started_at: Option<i64>,
    pub completed_at: Option<i64>,
}

#[verifier::ext_equal]
pub struct TurnView {
    pub turn_id: TurnId,
    pub thread_id: ThreadId,
    pub status: TurnStatus,
    pub message_ids: Seq<MessageId>,
    pub active_tool_call_ids: Seq<Seq<char>>,
    pub error: Option<Seq<char>>,
    pub queued_at: i64,
    pub started_at: Option<i64>,
    pub completed_at: Option<i64>,
}

impl View for TurnSnapshot {
    type V = TurnView;

    open spec fn view(&self) -> TurnView {
        TurnView {
            turn_id: self.turn_id,
            thread_id: self.thread_id,
            status: self.status,
            message_ids: self.message_ids@,
            active_tool_call_ids: seq_view(self.active_tool_call_ids@),
            error: opt_view(self.error),
            queued_at: self.queued_at,
            started_at: self.started_at,
            completed_at: self.completed_at,
        }
    }
}

impl Duplicate for TurnSnapshot {
    fn duplicate(&self) -> (r: Self) {
        TurnSnapshot {
            turn_id: self.turn_id,
            thread_id: self.thread_id,
            status: self.status,
            message_ids: copy_vec(&self.message_ids),
            active_tool_call_ids: duplicate_vec(&self.active_tool_call_ids),
            error: duplicate_opt(&self.error),
            queued_at: self.queued_at,
            started_at: self.started_at,
            completed_at: self.completed_at,
        }
    }
}

/// Projection of one message.
#[derive(Debug, Clone, PartialEq, Eq)]
pub struct MessageSnapshot {
    pub message_id: MessageId,
    pub thread_id: ThreadId,
    pub turn_id: TurnId,
    pub status: MessageStatus,
    pub payload: ChatMessage,
    pub created_at: i64,
    pub completed_at: Option<i64>,
}

#[verifier::ext_equal]
pub struct MessageView {
    pub message_id: MessageId,
    pub thread_id: ThreadId,
    pub turn_id: TurnId,
    pub status: MessageStatus,
    pub payload: ChatMessageView,
    pub created_at: i64,
    pub completed_at: Option<i64>,
}

impl View for MessageSnapshot {
    type V = MessageView;

    open spec fn view(&self) -> MessageView {
        MessageView {
            message_id: self.message_id,
            thread_id: self.thread_id,
            turn_id: self.turn_id,
            status: self.status,
            payload: self.payload@,
            created_at: self.created_at,
            completed_at: self.completed_at,
        }
    }
}

impl Duplicate for MessageSnapshot {
    fn duplicate(&self) -> (r: Self) {
        MessageSnapshot {
            message_id: self.message_id,
            thread_id: self.thread_id,
            turn_id: self.turn_id,
            status: self.status,
            payload: self.payload.duplicate(),
            created_at: self.created_at,
            completed_at: self.completed_at,
        }
    }
}

/// Projection of one tool execution.
#[derive(Debug, Clone, PartialEq, Eq)]
pub struct ToolExecutionSnapshot {
    pub tool_call_id: String,
    pub thread_id: ThreadId,
    pub turn_id: TurnId,
    pub tool_name: String,
    /// Tool arguments, as JSON text.
    pub args: String,
    pub status: ToolStatus,
    pub partial_result: Option<ToolUpdatePayload>,
    pub final_result: Option<AgentToolResult>,
    pub started_at: i64,
    pub completed_at: Option<i64>,
}

#[verifier::ext_equal]
pub struct ToolView {
    pub tool_call_id: Seq<char>,
    pub thread_id: ThreadId,
    pub turn_id: TurnId,
    pub tool_name: Seq<char>,
    pub args: Seq<char>,
    pub status: ToolStatus,
    pub partial_result: Option<ToolUpdateView>,
    pub final_result: Option<ToolResultView>,
    pub started_at: i64,
    pub completed_at: Option<i64>,
}

impl View for ToolExecutionSnapshot {
    type V = ToolView;

    open spec fn view(&self) -> ToolView {
        ToolView {
            tool_call_id: self.tool_call_id@,
            thread_id: self.thread_id,
            turn_id: self.turn_id,
            tool_name: self.tool_name@,
            args: self.args@,
            status: self.status,
            partial_result: opt_view(self.partial_result),
            final_result: opt_view(self.final_result),
            started_at: self.started_at,
            completed_at: self.completed_at,
        }
    }
}

impl Duplicate for ToolExecutionSnapshot {
    fn duplicate(&self) -> (r: Self) {
        ToolExecutionSnapshot {
            tool_call_id: self.tool_call_id.duplicate(),
            thread_id: self.thread_id,
            turn_id: self.turn_id,
            tool_name: self.tool_name.duplicate(),
            args: self.args.duplicate(),
            status: self.status,
            partial_result: duplicate_opt(&self.partial_result),
            final_result: duplicate_opt(&self.final_result),
            started_at: self.started_at,
            completed_at: self.completed_at,
        }
    }
}

/// Projection of one approval request.
#[derive(Debug, Clone, PartialEq, Eq)]
pub struct ApprovalSnapshot {
    pub request: ApprovalRequest,
    pub thread_id: ThreadId,
    pub turn_id: TurnId,
    pub status: ApprovalStatus,
    pub decision: Option<ApprovalDecision>,
    pub requested_at: i64,
    pub resolved_at: Option<i64>,
}

#[verifier::ext_equal]
pub struct ApprovalView {
    pub request: ApprovalRequestView,
    pub thread_id: ThreadId,
    pub turn_id: TurnId,
    pub status: ApprovalStatus,
    pub decision: Option<ApprovalDecision>,
    pub requested_at: i64,
    pub resolved_at: Option<i64>,
}

impl View for ApprovalSnapshot {
    type V = ApprovalView;

    open spec fn view(&self) -> ApprovalView {
        ApprovalView {
            request: self.request@,
            thread_id: self.thread_id,
            turn_id: self.turn_id,
            status: self.status,
            decision: self.decision,
            requested_at: self.requested_at,
            resolved_at: self.resolved_at,
        }
    }
}

impl Duplicate for ApprovalSnapshot {
    fn duplicate(&self) -> (r: Self) {
        ApprovalSnapshot {
            request: self.request.duplicate(),
            thread_id: self.thread_id,
            turn_id: self.turn_id,
            status: self.status,
            decision: self.decision,
            requested_at: self.requested_at,
            resolved_at: self.resolved_at,
        }
    }
}

/// Projection of one human interaction request.
#[derive(Debug, Clone, PartialEq, Eq)]
pub struct HumanInteractionSnapshot {
    pub request: HumanInteractionRequest,
    pub thread_id: ThreadId,
    pub turn_id: TurnId,
    pub status: HumanInteractionStatus,
    pub response: Option<HumanInteractionResponse>,
    pub error: Option<String>,
    pub requested_at: i64,
    pub resolved_at: Option<i64>,
}

#[verifier::ext_equal]
pub struct InteractionView {
    pub request: HumanInteractionRequestView,
    pub thread_id: ThreadId,
    pub turn_id: TurnId,
    pub status: HumanInteractionStatus,
    pub response: Option<HumanInteractionResponseView>,
    pub error: Option<Seq<char>>,
    pub requested_at: i64,
    pub resolved_at: Option<i64>,
}

impl View for HumanInteractionSnapshot {
    type V = InteractionView;

    open spec fn view(&self) -> InteractionView {
        InteractionView {
            request: self.request@,
            thread_id: self.thread_id,
            turn_id: self.turn_id,
            status: self.status,
            response: opt_view(self.response),
            error: opt_view(self.error),
            requested_at: self.requested_at,
            resolved_at: self.resolved_at,
        }
    }
}

impl Duplicate for HumanInteractionSnapshot {
    fn duplicate(&self) -> (r: Self) {
        HumanInteractionSnapshot {
            request: self.request.duplicate(),
            thread_id: self.thread_id,
            turn_id: self.turn_id,
            status: self.status,
            response: duplicate_opt(&self.response),
            error: duplicate_opt(&self.error),
            requested_at: self.requested_at,
            resolved_at: self.resolved_at,
        }
    }
}

/// Accumulated reasoning text of one turn (and optionally one message).
#[derive(Debug, Clone, PartialEq, Eq)]
pub struct ReasoningSnapshot {
    pub thread_id: ThreadId,
    pub turn_id: TurnId,
    pub message_id: Option<MessageId>,
    pub text: String,
    pub updated_at: i64,
}

#[verifier::ext_equal]
pub struct ReasoningView {
    pub thread_id: ThreadId,
    pub turn_id: TurnId,
    pub message_id: Option<MessageId>,
    pub text: Seq<char>,
    pub updated_at: i64,
}

impl View for ReasoningSnapshot {
    type V = ReasoningView;

    open spec fn view(&self) -> ReasoningView {
        ReasoningView {
            thread_id: self.thread_id,
            turn_id: self.turn_id,
            message_id: self.message_id,
            text: self.text@,
            updated_at: self.updated_at,
        }
    }
}

impl Duplicate for ReasoningSnapshot {
    fn duplicate(&self) -> (r: Self) {
        ReasoningSnapshot {
            thread_id: self.thread_id,
            turn_id: self.turn_id,
            message_id: self.message_id,
            text: self.text.duplicate(),
            updated_at: self.updated_at,
        }
    }
}

/// Latest plan of one turn.
#[derive(Debug, Clone, PartialEq, Eq)]
pub struct PlanSnapshot {
    pub thread_id: ThreadId,
    pub turn_id: TurnId,
    pub plan: String,
    pub updated_at: i64,
}

#[verifier::ext_equal]
pub struct PlanView {
    pub thread_id: ThreadId,
    pub turn_id: TurnId,
    pub plan: Seq<char>,
    pub updated_at: i64,
}

impl View for PlanSnapshot {
    type V = PlanView;

    open spec fn view(&self) -> PlanView {
        PlanView {
            thread_id: self.thread_id,
            turn_id: self.turn_id,
            plan: self.plan@,
            updated_at: self.updated_at,
        }
    }
}

impl Duplicate for PlanSnapshot {
    fn duplicate(&self) -> (r: Self) {
        PlanSnapshot {
            thread_id: self.thread_id,
            turn_id: self.turn_id,
            plan: self.plan.duplicate(),
            updated_at: self.updated_at,
        }
    }
}

/// Latest diff of one turn.
#[derive(Debug, Clone, PartialEq, Eq)]
pub struct DiffSnapshot {
    pub thread_id: ThreadId,
    pub turn_id: TurnId,
    pub diff: String,
    pub updated_at: i64,
}

#[verifier::ext_equal]
pub struct DiffView {
    pub thread_id: ThreadId,
    pub turn_id: TurnId,
    pub diff: Seq<char>,
    pub updated_at: i64,
}

impl View for DiffSnapshot {
    type V = DiffView;

    open spec fn view(&self) -> DiffView {
        DiffView {
            thread_id: self.thread_id,
            turn_id: self.turn_id,
            diff: self.diff@,
            updated_at: self.updated_at,
        }
    }
}

impl Duplicate for DiffSnapshot {
    fn duplicate(&self) -> (r: Self) {
        DiffSnapshot {
            thread_id: self.thread_id,
            turn_id: self.turn_id,
            diff: self.diff.duplicate(),
            updated_at: self.updated_at,
        }
    }
}

/// Full projection of one thread.
#[derive(Debug, Clone, PartialEq, Eq)]
pub struct ThreadSnapshot {
    pub thread_id: ThreadId,
    pub revision: u64,
    pub last_seq: u64,
    pub active_turn_id: Option<TurnId>,
    pub turns: Vec<TurnSnapshot>,
    pub messages: Vec<MessageSnapshot>,
    pub tools: Vec<ToolExecutionSnapshot>,
    pub approvals: Vec<ApprovalSnapshot>,
    pub human_interactions: Vec<HumanInteractionSnapshot>,
    pub reasoning: Vec<ReasoningSnapshot>,
    pub plans: Vec<PlanSnapshot>,
    pub diffs: Vec<DiffSnapshot>,
}

#[verifier::ext_equal]
pub struct ThreadView {
    pub thread_id: ThreadId,
    pub revision: u64,
    pub last_seq: u64,
    pub active_turn_id: Option<TurnId>,
    pub turns: Seq<TurnView>,
    pub messages: Seq<MessageView>,
    pub tools: Seq<ToolView>,
    pub approvals: Seq<ApprovalView>,
    pub human_interactions: Seq<InteractionView>,
    pub reasoning: Seq<ReasoningView>,
    pub plans: Seq<PlanView>,
    pub diffs: Seq<DiffView>,
}

impl View for ThreadSnapshot {
    type V = ThreadView;

    open spec fn view(&self) -> ThreadView {
        ThreadView {
            thread_id: self.thread_id,
            revision: self.revision,
            last_seq: self.last_seq,
            active_turn_id: self.active_turn_id,
            turns: seq_view(self.turns@),
            messages: seq_view(self.messages@),
            tools: seq_view(self.tools@),
            approvals: seq_view(self.approvals@),
            human_interactions: seq_view(self.human_interactions@),
            reasoning: seq_view(self.reasoning@),
            plans: seq_view(self.plans@),
            diffs: seq_view(self.diffs@),
        }
    }
}

impl Duplicate for ThreadSnapshot {
    fn duplicate(&self) -> (r: Self) {
        ThreadSnapshot {
            thread_id: self.thread_id,
            revision: self.revision,
            last_seq: self.last_seq,
            active_turn_id: self.active_turn_id,
            turns: duplicate_vec(&self.turns),
            messages: duplicate_vec(&self.messages),
            tools: duplicate_vec(&self.tools),
            approvals: duplicate_vec(&self.approvals),
            human_interactions: duplicate_vec(&self.human_interactions),
            reasoning: duplicate_vec(&self.reasoning),
            plans: duplicate_vec(&self.plans),
            diffs: duplicate_vec(&self.diffs),
        }
    }
}

/// Snapshot of every projected thread.
#[derive(Debug, Clone, PartialEq, Eq)]
pub struct RuntimeSnapshot {
    pub schema_version: u16,
    pub threads: Vec<ThreadSnapshot>,
}

/// Configuration of runtime-owned chat projection.
#[derive(Debug, Clone, Copy, PartialEq, Eq, Structural)]
pub struct ChatRuntimeConfig {
    /// Number of semantic events retained in memory per thread for cursor replay.
    pub replay_capacity: usize,
    /// Thread to project into by default; a fresh one when absent.
    pub default_thread_id: Option<ThreadId>,
}

impl Default for ChatRuntimeConfig {
    fn default() -> (c: Self)
        ensures
            c.replay_capacity == 512,
            c.default_thread_id.is_none(),
    {
        ChatRuntimeConfig { replay_capacity: 512, default_thread_id: None }
    }
}

} // verus!
