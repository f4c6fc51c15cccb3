//! Value types of the agent runtime: its run state, queue draining, the
//! observable snapshot, and the data exchanged with session summary hooks.

use vstd::prelude::*;
use vstd::string::*;

use crate::domain::{ChatMessage, ChatMessageView};
use crate::dup::{lemma_seq_view_empty, seq_view, Duplicate};
use crate::error::{RociError, RociErrorView};

verus! {

/// Agent runtime state.
#[derive(Debug, Clone, Copy, PartialEq, Eq, Structural)]
pub enum AgentState {
    /// No run in progress; ready to accept prompts.
    Idle,
    /// A run is actively executing.
    Running,
    /// An abort has been requested; waiting for the run to wind down.
    Aborting,
}

/// Queue drain behavior for steering/follow-up messages.
#[derive(Debug, Clone, Copy, PartialEq, Eq, Structural)]
pub enum QueueDrainMode {
    /// Drain all queued messages at once.
    All,
    /// Drain at most one message per turn/phase.
    OneAtATime,
}

/// What one drain takes from the front of `queue`.
pub open spec fn drained<T>(queue: Seq<T>, mode: QueueDrainMode) -> Seq<T> {
    match mode {
        QueueDrainMode::All => queue,
        QueueDrainMode::OneAtATime => if queue.len() == 0 {
            Seq::empty()
        } else {
            seq![queue[0]]
        },
    }
}

/// Takes the messages due from `queue`: all of them, or the oldest one; the
/// rest stay queued in order.
pub fn drain_queue<T>(queue: &mut Vec<T>, mode: QueueDrainMode) -> (r: Vec<T>)
    ensures
        r@ == drained(old(queue)@, mode),
        old(queue)@ == r@ + final(queue)@,
{
    match mode {
        QueueDrainMode::All => {
            let mut taken: Vec<T> = Vec::new();
            std::mem::swap(queue, &mut taken);
            proof {
                assert(old(queue)@ =~= taken@ + queue@);
            }
            taken
        },
        QueueDrainMode::OneAtATime => {
            if queue.len() == 0 {
                let r: Vec<T> = Vec::new();
                proof {
                    assert(old(queue)@ =~= r@ + queue@);
                }
                r
            } else {
                let first = queue.remove(0);
                let mut r: Vec<T> = Vec::new();
                r.push(first);
                proof {
                    assert(r@ =~= seq![old(queue)@[0]]);
                    assert(old(queue)@ =~= r@ + queue@);
                }
                r
            }
        },
    }
}

/// Point-in-time snapshot of the agent's observable state.
#[derive(Debug, Clone, PartialEq)]
pub struct AgentSnapshot {
    pub state: AgentState,
    pub turn_index: usize,
    pub message_count: usize,
    pub is_streaming: bool,
    pub last_error: Option<String>,
}

/// Full compaction override returned by the `session_before_compact` hook.
#[derive(Debug, Clone, PartialEq, Eq)]
pub struct SessionCompactionOverride {
    pub summary: String,
    pub first_kept_entry_id: usize,
    pub tokens_before: usize,
    pub details: Option<String>,
}

#[verifier::ext_equal]
pub struct CompactionOverrideView {
    pub summary: Seq<char>,
    pub first_kept_entry_id: usize,
    pub tokens_before: usize,
    pub details: Option<Seq<char>>,
}

impl View for SessionCompactionOverride {
    type V = CompactionOverrideView;

    open spec fn view(&self) -> CompactionOverrideView {
        CompactionOverrideView {
            summary: self.summary@,
            first_kept_entry_id: self.first_kept_entry_id,
            tokens_before: self.tokens_before,
            details: match self.details {
                Some(d) => Some(d@),
                None => None,
            },
        }
    }
}

/// Outcome returned by the `session_before_compact` hook.
#[derive(Debug, Clone, PartialEq, Eq)]
pub enum SessionBeforeCompactOutcome {
    /// Continue with normal compaction summary generation.
    Continue,
    /// Skip compaction for this operation.
    Cancel,
    /// Override compaction summary and kept-boundary metadata.
    OverrideCompaction(SessionCompactionOverride),
}

/// Outcome returned by the `session_before_tree` hook.
#[derive(Debug, Clone, PartialEq, Eq)]
pub enum SessionBeforeTreeOutcome {
    /// Continue with normal branch summary generation.
    Continue,
    /// Skip branch summary generation for this operation.
    Cancel,
    /// Use the provided summary text instead of model-generated text.
    OverrideSummary(String),
}

/// Files read and modified by the tool calls of some messages.
#[derive(Debug, Clone, PartialEq, Eq)]
pub struct FileOperationSet {
    pub read_files: Vec<String>,
    pub modified_files: Vec<String>,
}

/// Settings of a branch summary.
#[derive(Debug, Clone, PartialEq, Eq)]
pub struct BranchSummarySettings {
    /// Token budget for the entries summarized, newest first.
    pub reserve_tokens: usize,
    /// Model used for the summary; the run's model when absent.
    pub model: Option<String>,
}

/// Sum of the first `n` token estimates.
pub open spec fn token_sum(estimates: Seq<usize>, n: int) -> nat
    decreases n,
{
    if n <= 0 {
        0
    } else {
        token_sum(estimates, n - 1) + estimates[n - 1] as nat
    }
}

/// Prepared summary input exposed to session hooks: the messages, their
/// total estimated tokens and the file operations they record.
#[derive(Debug, Clone, PartialEq)]
pub struct SummaryPreparationData {
    pub messages: Vec<ChatMessage>,
    pub token_count: usize,
    pub file_operations: FileOperationSet,
}

impl SummaryPreparationData {
    /// Prepares `messages`, whose estimated token counts are `token_estimates`
    /// (one per message) and whose file operations are `file_operations`.
    pub fn from_messages(
        messages: Vec<ChatMessage>,
        token_estimates: &Vec<usize>,
        file_operations: FileOperationSet,
    ) -> (r: Self)
        requires
            token_estimates.len() == messages.len(),
            token_sum(token_estimates@, token_estimates.len() as int) <= usize::MAX,
        ensures
            seq_view(r.messages@) == seq_view(messages@),
            r.token_count == token_sum(token_estimates@, token_estimates.len() as int),
            r.file_operations == file_operations,
    {
        let token_count = sum_estimates(token_estimates, token_estimates.len());
        SummaryPreparationData { messages, token_count, file_operations }
    }
}

/// Payload for the `session_before_tree` hook.
#[derive(Debug, Clone, PartialEq)]
pub struct SessionBeforeTreePayload {
    pub to_summarize: SummaryPreparationData,
    pub settings: BranchSummarySettings,
}

proof fn lemma_token_sum_monotone(estimates: Seq<usize>, i: int, j: int)
    requires
        0 <= i <= j <= estimates.len(),
    ensures
        token_sum(estimates, i) <= token_sum(estimates, j),
    decreases j - i,
{
    if i < j {
        lemma_token_sum_monotone(estimates, i, j - 1);
    }
}

/// Sum of the first `n` token estimates.
pub fn sum_estimates(estimates: &Vec<usize>, n: usize) -> (r: usize)
    requires
        n <= estimates.len(),
        token_sum(estimates@, n as int) <= usize::MAX,
    ensures
        r == token_sum(estimates@, n as int),
{
    let mut total: usize = 0;
    let mut i: usize = 0;
    while i < n
        invariant
            i <= n <= estimates.len(),
            token_sum(estimates@, n as int) <= usize::MAX,
            total == token_sum(estimates@, i as int),
        decreases n - i,
    {
        proof {
            lemma_token_sum_monotone(estimates@, i + 1, n as int);
        }
        total = total + estimates[i];
        i = i + 1;
    }
    total
}

/// How often a transient provider failure is retried.
#[derive(Debug, Clone, Copy, PartialEq, Eq, Structural)]
pub enum RetryMode {
    /// At most `max_attempts` attempts in all.
    Bounded { max_attempts: u32 },
}

/// Attempts of the default retry backoff policy.
pub const DEFAULT_BACKOFF_MAX_ATTEMPTS: u32 = 3;

/// The retry mode a run uses: the explicit mode, else one bounded by the
/// backoff policy's attempts; zero attempts is a configuration error.
pub open spec fn retry_mode_spec(retry_mode: Option<RetryMode>, backoff_max_attempts: u32) -> Result<RetryMode, RociErrorView> {
    match retry_mode {
        Some(RetryMode::Bounded { max_attempts }) => if max_attempts == 0 {
            Err(RociErrorView::Configuration("retry_mode bounded max_attempts must be at least 1"@))
        } else {
            Ok(RetryMode::Bounded { max_attempts })
        },
        None => if backoff_max_attempts == 0 {
            Err(RociErrorView::Configuration("retry_backoff max_attempts must be at least 1"@))
        } else {
            Ok(RetryMode::Bounded { max_attempts: backoff_max_attempts })
        },
    }
}

/// The retry mode a run uses; see [`retry_mode_spec`].
pub fn effective_retry_mode(retry_mode: Option<RetryMode>, backoff_max_attempts: u32) -> (r: Result<RetryMode, RociError>)
    ensures
        match r {
            Ok(m) => retry_mode_spec(retry_mode, backoff_max_attempts) == Ok::<RetryMode, RociErrorView>(m),
            Err(e) => retry_mode_spec(retry_mode, backoff_max_attempts) == Err::<RetryMode, RociErrorView>(e@),
        },
{
    match retry_mode {
        Some(RetryMode::Bounded { max_attempts }) => if max_attempts == 0 {
            Err(RociError::Configuration(String::from_str("retry_mode bounded max_attempts must be at least 1")))
        } else {
            Ok(RetryMode::Bounded { max_attempts })
        },
        None => if backoff_max_attempts == 0 {
            Err(RociError::Configuration(String::from_str("retry_backoff max_attempts must be at least 1")))
        } else {
            Ok(RetryMode::Bounded { max_attempts: backoff_max_attempts })
        },
    }
}

/// Token usage, per run or accumulated over a session.
#[derive(Debug, Clone, Copy, PartialEq, Eq, Structural)]
pub struct Usage {
    pub input_tokens: u64,
    pub output_tokens: u64,
    pub total_tokens: u64,
}

/// Adds two token counts, stopping at the largest count.
pub open spec fn saturating_sum(a: u64, b: u64) -> u64 {
    if a + b > u64::MAX {
        u64::MAX
    } else {
        (a + b) as u64
    }
}

/// `a` with `delta` added to each of its counts.
pub open spec fn merged_usage(a: Usage, delta: Usage) -> Usage {
    Usage {
        input_tokens: saturating_sum(a.input_tokens, delta.input_tokens),
        output_tokens: saturating_sum(a.output_tokens, delta.output_tokens),
        total_tokens: saturating_sum(a.total_tokens, delta.total_tokens),
    }
}

/// No usage.
pub open spec fn zero_usage() -> Usage {
    Usage { input_tokens: 0, output_tokens: 0, total_tokens: 0 }
}

impl Usage {
    /// Adds `delta` to each count; see [`merged_usage`].
    pub fn merge(&mut self, delta: &Usage)
        ensures
            *final(self) == merged_usage(*old(self), *delta),
    {
        self.input_tokens = self.input_tokens.saturating_add(delta.input_tokens);
        self.output_tokens = self.output_tokens.saturating_add(delta.output_tokens);
        self.total_tokens = self.total_tokens.saturating_add(delta.total_tokens);
    }
}

impl Default for Usage {
    fn default() -> (r: Self)
        ensures
            r == zero_usage(),
    {
        Usage { input_tokens: 0, output_tokens: 0, total_tokens: 0 }
    }
}

} // verus!
