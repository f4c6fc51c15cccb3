//! Errors of the semantic chat runtime and their messages.

use vstd::prelude::*;
use vstd::string::*;

use crate::domain::TurnStatus;
use crate::dup::Duplicate;
use crate::ids::{ThreadId, TurnId};
use crate::text::{decimal_text, push_decimal};

verus! {

/// Errors returned by semantic chat runtime APIs.
#[derive(Debug, Clone, PartialEq, Eq)]
pub enum AgentRuntimeError {
    RuntimeBusy,
    ThreadNotFound { thread_id: ThreadId },
    TurnNotFound { turn_id: TurnId },
    AlreadyTerminal { turn_id: TurnId, status: TurnStatus },
    StaleRuntime {
        thread_id: ThreadId,
        requested_seq: u64,
        oldest_available_seq: u64,
        latest_seq: u64,
    },
    ProjectionFailed { message: String },
}

#[verifier::ext_equal]
pub enum ErrorView {
    RuntimeBusy,
    ThreadNotFound { thread_id: ThreadId },
    TurnNotFound { turn_id: TurnId },
    AlreadyTerminal { turn_id: TurnId, status: TurnStatus },
    StaleRuntime {
        thread_id: ThreadId,
        requested_seq: u64,
        oldest_available_seq: u64,
        latest_seq: u64,
    },
    ProjectionFailed { message: Seq<char> },
}

impl View for AgentRuntimeError {
    type V = ErrorView;

    open spec fn view(&self) -> ErrorView {
        match self {
            AgentRuntimeError::RuntimeBusy => ErrorView::RuntimeBusy,
            AgentRuntimeError::ThreadNotFound { thread_id } => ErrorView::ThreadNotFound {
                thread_id: *thread_id,
            },
            AgentRuntimeError::TurnNotFound { turn_id } => ErrorView::TurnNotFound {
                turn_id: *turn_id,
            },
            AgentRuntimeError::AlreadyTerminal { turn_id, status } => ErrorView::AlreadyTerminal {
                turn_id: *turn_id,
                status: *status,
            },
            AgentRuntimeError::StaleRuntime {
                thread_id,
                requested_seq,
                oldest_available_seq,
                latest_seq,
            } => ErrorView::StaleRuntime {
                thread_id: *thread_id,
                requested_seq: *requested_seq,
                oldest_available_seq: *oldest_available_seq,
                latest_seq: *latest_seq,
            },
            AgentRuntimeError::ProjectionFailed { message } => ErrorView::ProjectionFailed {
                message: message@,
            },
        }
    }
}

impl Duplicate for AgentRuntimeError {
    fn duplicate(&self) -> (r: Self) {
        match self {
            AgentRuntimeError::RuntimeBusy => AgentRuntimeError::RuntimeBusy,
            AgentRuntimeError::ThreadNotFound { thread_id } => AgentRuntimeError::ThreadNotFound {
                thread_id: *thread_id,
            },
            AgentRuntimeError::TurnNotFound { turn_id } => AgentRuntimeError::TurnNotFound {
                turn_id: *turn_id,
            },
            AgentRuntimeError::AlreadyTerminal { turn_id, status } => {
                AgentRuntimeError::AlreadyTerminal { turn_id: *turn_id, status: *status }
            },
            AgentRuntimeError::StaleRuntime {
                thread_id,
                requested_seq,
                oldest_available_seq,
                latest_seq,
            } => AgentRuntimeError::StaleRuntime {
                thread_id: *thread_id,
                requested_seq: *requested_seq,
                oldest_available_seq: *oldest_available_seq,
                latest_seq: *latest_seq,
            },
            AgentRuntimeError::ProjectionFailed { message } => {
                AgentRuntimeError::ProjectionFailed { message: message.duplicate() }
            },
        }
    }
}

/// The `Debug` name of a turn status.
pub open spec fn status_name(status: TurnStatus) -> Seq<char> {
    match status {
        TurnStatus::Queued => "Queued"@,
        TurnStatus::Running => "Running"@,
        TurnStatus::Completed => "Completed"@,
        TurnStatus::Failed => "Failed"@,
        TurnStatus::Canceled => "Canceled"@,
    }
}

/// Renders a turn status as `Debug` does.
pub fn status_name_text(status: TurnStatus) -> (s: String)
    ensures
        s@ == status_name(status),
{
    match status {
        TurnStatus::Queued => String::from_str("Queued"),
        TurnStatus::Running => String::from_str("Running"),
        TurnStatus::Completed => String::from_str("Completed"),
        TurnStatus::Failed => String::from_str("Failed"),
        TurnStatus::Canceled => String::from_str("Canceled"),
    }
}

/// The human-readable message of an error.
pub open spec fn error_text(e: ErrorView) -> Seq<char> {
    match e {
        ErrorView::RuntimeBusy => "runtime is busy"@,
        ErrorView::ThreadNotFound { thread_id } => "thread not found: "@ + thread_id.text(),
        ErrorView::TurnNotFound { turn_id } => "turn not found: "@ + turn_id.text(),
        ErrorView::AlreadyTerminal { turn_id, status } => "turn already terminal: "@
            + turn_id.text() + " ("@ + status_name(status) + ")"@,
        ErrorView::StaleRuntime { thread_id, requested_seq, oldest_available_seq, latest_seq } =>
        "runtime cursor is stale for thread "@ + thread_id.text() + ": requested seq "@
            + decimal_text(requested_seq as nat) + ", oldest available "@ + decimal_text(
            oldest_available_seq as nat,
        ) + ", latest seq "@ + decimal_text(latest_seq as nat),
        ErrorView::ProjectionFailed { message } => "chat projection failed: "@ + message,
    }
}

impl AgentRuntimeError {
    /// The human-readable message of this error.
    pub fn message(&self) -> (s: String)
        ensures
            s@ == error_text(self@),
    {
        match self {
            AgentRuntimeError::RuntimeBusy => String::from_str("runtime is busy"),
            AgentRuntimeError::ThreadNotFound { thread_id } => {
                let mut s = String::from_str("thread not found: ");
                let t = thread_id.to_text();
                s.append(t.as_str());
                s
            },
            AgentRuntimeError::TurnNotFound { turn_id } => {
                let mut s = String::from_str("turn not found: ");
                let t = turn_id.to_text();
                s.append(t.as_str());
                s
            },
            AgentRuntimeError::AlreadyTerminal { turn_id, status } => {
                let mut s = String::from_str("turn already terminal: ");
                let t = turn_id.to_text();
                s.append(t.as_str());
                s.append(" (");
                let n = status_name_text(*status);
                s.append(n.as_str());
                s.append(")");
                proof {
                    assert(s@ =~= error_text(self@));
                }
                s
            },
            AgentRuntimeError::StaleRuntime {
                thread_id,
                requested_seq,
                oldest_available_seq,
                latest_seq,
            } => {
                let mut s = String::from_str("runtime cursor is stale for thread ");
                let t = thread_id.to_text();
                s.append(t.as_str());
                s.append(": requested seq ");
                push_decimal(&mut s, *requested_seq);
                s.append(", oldest available ");
                push_decimal(&mut s, *oldest_available_seq);
                s.append(", latest seq ");
                push_decimal(&mut s, *latest_seq);
                proof {
                    assert(s@ =~= error_text(self@));
                }
                s
            },
            AgentRuntimeError::ProjectionFailed { message } => {
                let mut s = String::from_str("chat projection failed: ");
                s.append(message.as_str());
                s
            },
        }
    }
}

/// A `ProjectionFailed` error with `prefix` followed by `subject`.
pub fn projection_failed(prefix: &str, subject: &str) -> (e: AgentRuntimeError)
    ensures
        e@ == (ErrorView::ProjectionFailed { message: prefix@ + subject@ }),
{
    let mut message = String::from_str(prefix);
    message.append(subject);
    AgentRuntimeError::ProjectionFailed { message }
}

/// Errors of the agent runtime's own operations.
#[derive(Debug, Clone, PartialEq, Eq)]
pub enum RociError {
    /// The runtime cannot do this in its current state, or the input is invalid.
    InvalidState(String),
    /// The runtime's configuration is invalid.
    Configuration(String),
}

pub enum RociErrorView {
    InvalidState(Seq<char>),
    Configuration(Seq<char>),
}

impl View for RociError {
    type V = RociErrorView;

    open spec fn view(&self) -> RociErrorView {
        match self {
            RociError::InvalidState(m) => RociErrorView::InvalidState(m@),
            RociError::Configuration(m) => RociErrorView::Configuration(m@),
        }
    }
}

/// An `InvalidState` error with `message`.
pub open spec fn invalid_state(message: Seq<char>) -> RociErrorView {
    RociErrorView::InvalidState(message)
}

/// An `InvalidState` error holding `message`.
pub fn invalid(message: &str) -> (e: RociError)
    ensures
        e@ == invalid_state(message@),
{
    RociError::InvalidState(String::from_str(message))
}

/// The runtime error reported for a failed chat projection step.
pub open spec fn projection_error_text(e: ErrorView) -> Seq<char> {
    "chat projection failed: "@ + error_text(e)
}

/// Wraps a chat projection failure as an `InvalidState` error of the runtime.
pub fn map_chat_projection_error(err: AgentRuntimeError) -> (e: RociError)
    ensures
        e@ == invalid_state(projection_error_text(err@)),
{
    let mut message = String::from_str("chat projection failed: ");
    let text = err.message();
    message.append(text.as_str());
    RociError::InvalidState(message)
}

} // verus!
