//! Compaction and branch-summary decisions: where the kept history starts,
//! which messages are summarized, and how hook overrides are checked.

use vstd::prelude::*;
use vstd::string::*;

use crate::domain::{ChatMessage, ChatMessageView, Role};
use crate::dup::{lemma_seq_view_add, lemma_seq_view_empty, lemma_seq_view_push, seq_view, Duplicate};
use crate::error::{invalid, invalid_state, RociError, RociErrorView};
use crate::runtime_types::{sum_estimates, token_sum, CompactionOverrideView, SessionCompactionOverride};
use crate::text::{decimal_text, lemma_trimmed_idempotent, push_decimal, trim_text, trimmed};

verus! {

/// Outcome of a session summary hook.
#[derive(Debug, Clone, PartialEq, Eq)]
pub enum SessionSummaryHookOutcome {
    /// Continue with the model-generated summary.
    Continue,
    /// Skip the operation.
    Cancel,
    /// Use this summary text.
    OverrideSummary(String),
    /// Use this summary and kept boundary.
    OverrideCompaction(SessionCompactionOverride),
}

/// Index of the last user message before position `k`, or -1.
pub open spec fn last_user_before(s: Seq<ChatMessageView>, k: int) -> int
    decreases k,
{
    if k <= 0 {
        -1
    } else if s[k - 1].role == Role::User {
        k - 1
    } else {
        last_user_before(s, k - 1)
    }
}

/// The split of `s` at the first kept entry `k`: messages to summarize, the
/// prefix of a turn cut by `k` (from its user message on), the kept messages,
/// and whether a turn was split.
pub open spec fn compaction_split(s: Seq<ChatMessageView>, k: int) -> (
    Seq<ChatMessageView>,
    Seq<ChatMessageView>,
    Seq<ChatMessageView>,
    bool,
) {
    if k >= s.len() || last_user_before(s, k) < 0 {
        (s.take(k), Seq::empty(), s.skip(k), false)
    } else {
        let u = last_user_before(s, k);
        (s.take(u), s.subrange(u, k), s.skip(k), true)
    }
}

proof fn lemma_last_user_bounds(s: Seq<ChatMessageView>, k: int)
    requires
        k <= s.len(),
    ensures
        -1 <= last_user_before(s, k) < k || (k <= 0 && last_user_before(s, k) == -1),
        last_user_before(s, k) >= 0 ==> s[last_user_before(s, k)].role == Role::User,
    decreases k,
{
    if k > 0 && s[k - 1].role != Role::User {
        lemma_last_user_bounds(s, k - 1);
    }
}

/// Copies `v[a..b]`.
pub fn copy_messages(v: &Vec<ChatMessage>, a: usize, b: usize) -> (r: Vec<ChatMessage>)
    requires
        a <= b <= v.len(),
    ensures
        seq_view(r@) == seq_view(v@).subrange(a as int, b as int),
{
    let mut r: Vec<ChatMessage> = Vec::new();
    let mut i: usize = a;
    proof {
        lemma_seq_view_empty::<ChatMessage>();
    }
    while i < b
        invariant
            a <= i <= b <= v.len(),
            seq_view(r@) == seq_view(v@).subrange(a as int, i as int),
        decreases b - i,
    {
        let m = v[i].duplicate();
        proof {
            lemma_seq_view_push(r@, m);
            assert(seq_view(v@).subrange(a as int, i + 1) =~= seq_view(v@).subrange(a as int, i as int).push(m@));
        }
        r.push(m);
        i = i + 1;
    }
    r
}

/// Position of the last user message before `k`.
fn last_user_index(v: &Vec<ChatMessage>, k: usize) -> (r: Option<usize>)
    requires
        k <= v.len(),
    ensures
        match r {
            Some(i) => i == last_user_before(seq_view(v@), k as int) && i < k,
            None => last_user_before(seq_view(v@), k as int) == -1,
        },
{
    let ghost s = seq_view(v@);
    let mut i: usize = k;
    while i > 0
        invariant
            i <= k <= v.len(),
            s == seq_view(v@),
            last_user_before(s, k as int) == last_user_before(s, i as int),
        decreases i,
    {
        if v[i - 1].role == Role::User {
            return Some(i - 1);
        }
        i = i - 1;
    }
    None
}

/// Splits the conversation at the first kept entry; see [`compaction_split`].
pub fn split_messages_for_compaction(
    conversation_messages: &Vec<ChatMessage>,
    first_kept_entry_id: usize,
) -> (r: (Vec<ChatMessage>, Vec<ChatMessage>, Vec<ChatMessage>, bool))
    requires
        first_kept_entry_id <= conversation_messages.len(),
    ensures
        ({
            let s = compaction_split(seq_view(conversation_messages@), first_kept_entry_id as int);
            &&& seq_view(r.0@) == s.0
            &&& seq_view(r.1@) == s.1
            &&& seq_view(r.2@) == s.2
            &&& r.3 == s.3
        }),
{
    let ghost s = seq_view(conversation_messages@);
    let n = conversation_messages.len();
    let k = first_kept_entry_id;
    let turn_start = if k < n {
        match last_user_index(conversation_messages, k) {
            Some(u) => u,
            None => k,
        }
    } else {
        k
    };
    proof {
        assert(s.take(k as int) =~= s.subrange(0, k as int));
        assert(s.skip(k as int) =~= s.subrange(k as int, n as int));
        assert(s.take(turn_start as int) =~= s.subrange(0, turn_start as int));
    }
    if turn_start < k {
        (
            copy_messages(conversation_messages, 0, turn_start),
            copy_messages(conversation_messages, turn_start, k),
            copy_messages(conversation_messages, k, n),
            true,
        )
    } else {
        proof {
            lemma_seq_view_empty::<ChatMessage>();
        }
        (copy_messages(conversation_messages, 0, k), Vec::new(), copy_messages(conversation_messages, k, n), false)
    }
}

/// Estimated tokens of the entries before the first kept one.
pub fn count_tokens_before_entry(token_estimates: &Vec<usize>, first_kept_entry_id: usize) -> (r: usize)
    requires
        first_kept_entry_id <= token_estimates.len(),
        token_sum(token_estimates@, first_kept_entry_id as int) <= usize::MAX,
    ensures
        r == token_sum(token_estimates@, first_kept_entry_id as int),
{
    sum_estimates(token_estimates, first_kept_entry_id)
}

/// The override built from a summary text alone: the kept boundary is the
/// prepared cut (at most the conversation's length) and its token count.
pub open spec fn legacy_override(summary: Seq<char>, cut_index: usize, estimates: Seq<usize>) -> CompactionOverrideView {
    let k = if cut_index < estimates.len() { cut_index } else { estimates.len() as usize };
    CompactionOverrideView {
        summary,
        first_kept_entry_id: k,
        tokens_before: token_sum(estimates, k as int) as usize,
        details: None,
    }
}

/// Builds the override of a summary-only hook answer; see [`legacy_override`].
pub fn legacy_summary_override(summary: String, cut_index: usize, token_estimates: &Vec<usize>) -> (r: SessionCompactionOverride)
    requires
        token_sum(token_estimates@, token_estimates.len() as int) <= usize::MAX,
    ensures
        r@ == legacy_override(summary@, cut_index, token_estimates@),
{
    let k = if cut_index < token_estimates.len() { cut_index } else { token_estimates.len() };
    proof {
        lemma_token_sum_le(token_estimates@, k as int, token_estimates.len() as int);
    }
    let tokens_before = count_tokens_before_entry(token_estimates, k);
    SessionCompactionOverride { summary, first_kept_entry_id: k, tokens_before, details: None }
}

proof fn lemma_token_sum_le(estimates: Seq<usize>, i: int, j: int)
    requires
        0 <= i <= j <= estimates.len(),
    ensures
        token_sum(estimates, i) <= token_sum(estimates, j),
    decreases j - i,
{
    if i < j {
        lemma_token_sum_le(estimates, i, j - 1);
    }
}

/// The checked form of a compaction override, or why it is refused: the
/// trimmed summary must not be empty; the first kept entry must be within
/// `1..=len` and not a tool result; `tokens_before` must match the estimate
/// of the entries before it. Details are trimmed, and dropped when empty.
pub open spec fn checked_override(
    o: CompactionOverrideView,
    msgs: Seq<ChatMessageView>,
    estimates: Seq<usize>,
) -> Result<CompactionOverrideView, RociErrorView> {
    let summary = trimmed(o.summary);
    let k = o.first_kept_entry_id;
    if summary.len() == 0 {
        Err(invalid_state("compaction override summary must not be empty"@))
    } else if k == 0 || k > msgs.len() {
        Err(
            invalid_state(
                "compaction override first_kept_entry_id must be within 1..="@ + decimal_text(msgs.len()) + " (got "@
                    + decimal_text(k as nat) + ")"@,
            ),
        )
    } else if k < msgs.len() && msgs[k as int].role == Role::Tool {
        Err(
            invalid_state(
                "compaction override first_kept_entry_id="@ + decimal_text(k as nat)
                    + " cannot point to a tool result entry"@,
            ),
        )
    } else if o.tokens_before != token_sum(estimates, k as int) {
        Err(
            invalid_state(
                "compaction override tokens_before="@ + decimal_text(o.tokens_before as nat) + " does not match expected "@
                    + decimal_text(token_sum(estimates, k as int)) + " for first_kept_entry_id="@ + decimal_text(
                    k as nat,
                ),
            ),
        )
    } else {
        Ok(
            CompactionOverrideView {
                summary,
                first_kept_entry_id: k,
                tokens_before: o.tokens_before,
                details: match o.details {
                    Some(d) => if trimmed(d).len() == 0 {
                        None
                    } else {
                        Some(trimmed(d))
                    },
                    None => None,
                },
            },
        )
    }
}

/// Checks a compaction override against the conversation (whose token
/// estimates are `token_estimates`); see [`checked_override`].
pub fn validate_compaction_override(
    override_data: SessionCompactionOverride,
    conversation_messages: &Vec<ChatMessage>,
    token_estimates: &Vec<usize>,
) -> (r: Result<SessionCompactionOverride, RociError>)
    requires
        token_estimates.len() == conversation_messages.len(),
        token_sum(token_estimates@, token_estimates.len() as int) <= usize::MAX,
    ensures
        match r {
            Ok(o) => checked_override(override_data@, seq_view(conversation_messages@), token_estimates@) == Ok::<
                CompactionOverrideView,
                RociErrorView,
            >(o@),
            Err(e) => checked_override(override_data@, seq_view(conversation_messages@), token_estimates@) == Err::<
                CompactionOverrideView,
                RociErrorView,
            >(e@),
        },
        r is Ok <==> ({
            let k = override_data.first_kept_entry_id as int;
            &&& trimmed(override_data.summary@).len() > 0
            &&& 1 <= k <= conversation_messages.len()
            &&& (k == conversation_messages.len() || conversation_messages@[k].role != Role::Tool)
            &&& override_data.tokens_before == token_sum(token_estimates@, k)
        }),
        r matches Err(e) ==> e is InvalidState,
        r matches Ok(v) ==> {
            &&& v.summary@ == trimmed(override_data.summary@)
            &&& v.first_kept_entry_id == override_data.first_kept_entry_id
            &&& v.tokens_before == override_data.tokens_before
            &&& checked_override(v@, seq_view(conversation_messages@), token_estimates@) == Ok::<
                CompactionOverrideView,
                RociErrorView,
            >(v@)
        },
{
    proof {
        lemma_trimmed_idempotent(override_data.summary@);
        if override_data.details is Some {
            lemma_trimmed_idempotent(override_data.details->Some_0@);
        }
    }
    let summary = trim_text(override_data.summary.as_str());
    if summary.as_str().unicode_len() == 0 {
        return Err(invalid("compaction override summary must not be empty"));
    }
    let k = override_data.first_kept_entry_id;
    let n = conversation_messages.len();
    if k == 0 || k > n {
        let mut message = String::from_str("compaction override first_kept_entry_id must be within 1..=");
        push_decimal(&mut message, n as u64);
        message.append(" (got ");
        push_decimal(&mut message, k as u64);
        message.append(")");
        return Err(RociError::InvalidState(message));
    }
    if k < n && conversation_messages[k].role == Role::Tool {
        let mut message = String::from_str("compaction override first_kept_entry_id=");
        push_decimal(&mut message, k as u64);
        message.append(" cannot point to a tool result entry");
        return Err(RociError::InvalidState(message));
    }
    proof {
        lemma_token_sum_le(token_estimates@, k as int, n as int);
    }
    let expected = count_tokens_before_entry(token_estimates, k);
    if override_data.tokens_before != expected {
        let mut message = String::from_str("compaction override tokens_before=");
        push_decimal(&mut message, override_data.tokens_before as u64);
        message.append(" does not match expected ");
        push_decimal(&mut message, expected as u64);
        message.append(" for first_kept_entry_id=");
        push_decimal(&mut message, k as u64);
        return Err(RociError::InvalidState(message));
    }
    let details = match override_data.details {
        Some(value) => {
            let t = trim_text(value.as_str());
            if t.as_str().unicode_len() == 0 {
                None
            } else {
                Some(t)
            }
        },
        None => None,
    };
    Ok(SessionCompactionOverride { summary, first_kept_entry_id: k, tokens_before: override_data.tokens_before, details })
}

/// A compaction prepared by the token-budget policy.
pub struct PreparedCompaction {
    pub messages_to_summarize: Vec<ChatMessage>,
    pub turn_prefix_messages: Vec<ChatMessage>,
    pub kept_messages: Vec<ChatMessage>,
    pub split_turn: bool,
    /// Index of the first kept conversation entry.
    pub cut_index: usize,
}

/// What a compaction summarizes and keeps, with the summary (and details)
/// a hook supplied, if any.
pub struct CompactionSelection {
    pub messages_to_summarize: Vec<ChatMessage>,
    pub turn_prefix_messages: Vec<ChatMessage>,
    pub kept_messages: Vec<ChatMessage>,
    pub split_turn: bool,
    pub summary_override: Option<String>,
    pub override_details: Option<String>,
}

pub struct SelectionView {
    pub messages_to_summarize: Seq<ChatMessageView>,
    pub turn_prefix_messages: Seq<ChatMessageView>,
    pub kept_messages: Seq<ChatMessageView>,
    pub split_turn: bool,
    pub summary_override: Option<Seq<char>>,
    pub override_details: Option<Seq<char>>,
}

impl View for CompactionSelection {
    type V = SelectionView;

    open spec fn view(&self) -> SelectionView {
        SelectionView {
            messages_to_summarize: seq_view(self.messages_to_summarize@),
            turn_prefix_messages: seq_view(self.turn_prefix_messages@),
            kept_messages: seq_view(self.kept_messages@),
            split_turn: self.split_turn,
            summary_override: match self.summary_override {
                Some(t) => Some(t@),
                None => None,
            },
            override_details: match self.override_details {
                Some(t) => Some(t@),
                None => None,
            },
        }
    }
}

/// The override a hook outcome asks for, if any, or the refusal of a canceled compaction.
pub open spec fn requested_override(
    outcome: Option<SessionSummaryHookOutcome>,
    cut_index: usize,
    estimates: Seq<usize>,
) -> Result<Option<CompactionOverrideView>, RociErrorView> {
    match outcome {
        None => Ok(None),
        Some(SessionSummaryHookOutcome::Continue) => Ok(None),
        Some(SessionSummaryHookOutcome::Cancel) => Err(invalid_state("compaction canceled by session_before_compact hook"@)),
        Some(SessionSummaryHookOutcome::OverrideSummary(summary)) => Ok(Some(legacy_override(summary@, cut_index, estimates))),
        Some(SessionSummaryHookOutcome::OverrideCompaction(o)) => Ok(Some(o@)),
    }
}

/// What compaction summarizes and keeps: the prepared split, or the split at
/// a checked override's boundary, which must leave something to summarize.
pub open spec fn selection_spec(
    prepared: SelectionView,
    cut_index: usize,
    outcome: Option<SessionSummaryHookOutcome>,
    msgs: Seq<ChatMessageView>,
    estimates: Seq<usize>,
) -> Result<SelectionView, RociErrorView> {
    match requested_override(outcome, cut_index, estimates) {
        Err(e) => Err(e),
        Ok(None) => Ok(prepared),
        Ok(Some(o)) => match checked_override(o, msgs, estimates) {
            Err(e) => Err(e),
            Ok(v) => {
                let split = compaction_split(msgs, v.first_kept_entry_id as int);
                if split.0.len() == 0 {
                    Err(
                        invalid_state(
                            "compaction override first_kept_entry_id="@ + decimal_text(v.first_kept_entry_id as nat)
                                + " leaves no entries to summarize"@,
                        ),
                    )
                } else {
                    Ok(
                        SelectionView {
                            messages_to_summarize: split.0,
                            turn_prefix_messages: split.1,
                            kept_messages: split.2,
                            split_turn: split.3,
                            summary_override: Some(v.summary),
                            override_details: v.details,
                        },
                    )
                }
            },
        },
    }
}

/// The prepared selection, before any hook.
pub open spec fn prepared_selection(p: PreparedCompaction) -> SelectionView {
    SelectionView {
        messages_to_summarize: seq_view(p.messages_to_summarize@),
        turn_prefix_messages: seq_view(p.turn_prefix_messages@),
        kept_messages: seq_view(p.kept_messages@),
        split_turn: p.split_turn,
        summary_override: None,
        override_details: None,
    }
}

/// Applies the `session_before_compact` hook's outcome (`None` when no hook
/// is configured) to the prepared compaction; see [`selection_spec`].
pub fn select_compaction(
    prepared: PreparedCompaction,
    outcome: Option<SessionSummaryHookOutcome>,
    conversation_messages: &Vec<ChatMessage>,
    token_estimates: &Vec<usize>,
) -> (r: Result<CompactionSelection, RociError>)
    requires
        token_estimates.len() == conversation_messages.len(),
        token_sum(token_estimates@, token_estimates.len() as int) <= usize::MAX,
    ensures
        match r {
            Ok(s) => selection_spec(prepared_selection(prepared), prepared.cut_index, outcome, seq_view(conversation_messages@), token_estimates@)
                == Ok::<SelectionView, RociErrorView>(s@),
            Err(e) => selection_spec(prepared_selection(prepared), prepared.cut_index, outcome, seq_view(conversation_messages@), token_estimates@)
                == Err::<SelectionView, RociErrorView>(e@),
        },
{
    let requested = match outcome {
        None => None,
        Some(SessionSummaryHookOutcome::Continue) => None,
        Some(SessionSummaryHookOutcome::Cancel) => {
            return Err(invalid("compaction canceled by session_before_compact hook"));
        },
        Some(SessionSummaryHookOutcome::OverrideSummary(summary)) => Some(
            legacy_summary_override(summary, prepared.cut_index, token_estimates),
        ),
        Some(SessionSummaryHookOutcome::OverrideCompaction(o)) => Some(o),
    };
    match requested {
        None => Ok(
            CompactionSelection {
                messages_to_summarize: prepared.messages_to_summarize,
                turn_prefix_messages: prepared.turn_prefix_messages,
                kept_messages: prepared.kept_messages,
                split_turn: prepared.split_turn,
                summary_override: None,
                override_details: None,
            },
        ),
        Some(o) => {
            let checked = validate_compaction_override(o, conversation_messages, token_estimates)?;
            let k = checked.first_kept_entry_id;
            let (to_summarize, turn_prefix, kept, split_turn) = split_messages_for_compaction(conversation_messages, k);
            if to_summarize.len() == 0 {
                let mut message = String::from_str("compaction override first_kept_entry_id=");
                push_decimal(&mut message, k as u64);
                message.append(" leaves no entries to summarize");
                return Err(RociError::InvalidState(message));
            }
            Ok(
                CompactionSelection {
                    messages_to_summarize: to_summarize,
                    turn_prefix_messages: turn_prefix,
                    kept_messages: kept,
                    split_turn,
                    summary_override: Some(checked.summary),
                    override_details: checked.details,
                },
            )
        },
    }
}

/// Number of leading system messages.
pub open spec fn system_prefix_count(s: Seq<ChatMessageView>, i: int) -> int
    decreases s.len() - i,
{
    if i < 0 || i >= s.len() || s[i].role != Role::System {
        0
    } else {
        1 + system_prefix_count(s, i + 1)
    }
}

/// Length of the leading run of system messages.
pub fn system_prefix_len(messages: &Vec<ChatMessage>) -> (r: usize)
    ensures
        r == system_prefix_count(seq_view(messages@), 0),
        r <= messages.len(),
{
    let ghost s = seq_view(messages@);
    let mut i: usize = 0;
    while i < messages.len() && messages[i].role == Role::System
        invariant
            i <= messages.len(),
            s == seq_view(messages@),
            system_prefix_count(s, 0) == i + system_prefix_count(s, i as int),
        decreases messages.len() - i,
    {
        i = i + 1;
    }
    i
}

/// The notes kept with a compaction summary: a split turn, and any override details.
pub open spec fn critical_context(split_turn: bool, details: Option<Seq<char>>) -> Seq<Seq<char>> {
    let base = if split_turn {
        seq!["A turn split was preserved to avoid cutting a user/tool exchange"@]
    } else {
        Seq::empty()
    };
    match details {
        Some(d) => base.push("Compaction override details: "@ + d),
        None => base,
    }
}

/// The notes kept with a compaction summary; see [`critical_context`].
pub fn compaction_critical_context(split_turn: bool, details: Option<String>) -> (r: Vec<String>)
    ensures
        seq_view(r@) == critical_context(split_turn, match details {
            Some(d) => Some(d@),
            None => None,
        }),
{
    let mut r: Vec<String> = Vec::new();
    proof {
        lemma_seq_view_empty::<String>();
    }
    if split_turn {
        let note = String::from_str("A turn split was preserved to avoid cutting a user/tool exchange");
        proof {
            lemma_seq_view_push(r@, note);
        }
        r.push(note);
    }
    match details {
        Some(d) => {
            let mut note = String::from_str("Compaction override details: ");
            note.append(d.as_str());
            proof {
                lemma_seq_view_push(r@, note);
            }
            r.push(note);
        },
        None => {},
    }
    proof {
        assert(seq_view(r@) =~= critical_context(split_turn, match details {
            Some(d) => Some(d@),
            None => None,
        }));
    }
    r
}

/// The summary text a model returned, trimmed, or the error `empty_message`
/// when nothing is left.
pub open spec fn nonempty_summary(text: Seq<char>, empty_message: Seq<char>) -> Result<Seq<char>, RociErrorView> {
    if trimmed(text).len() == 0 {
        Err(invalid_state(empty_message))
    } else {
        Ok(trimmed(text))
    }
}

/// Trims a model's summary; see [`nonempty_summary`].
pub fn summary_text(text: &str, empty_message: &str) -> (r: Result<String, RociError>)
    ensures
        match r {
            Ok(s) => nonempty_summary(text@, empty_message@) == Ok::<Seq<char>, RociErrorView>(s@),
            Err(e) => nonempty_summary(text@, empty_message@) == Err::<Seq<char>, RociErrorView>(e@),
        },
{
    let t = trim_text(text);
    if t.as_str().unicode_len() == 0 {
        Err(invalid(empty_message))
    } else {
        Ok(t)
    }
}

/// The compacted history: the system prefix, the summary message, the
/// prefix of a split turn, then the kept messages.
pub fn compacted_history(
    system_prefix: Vec<ChatMessage>,
    summary_message: ChatMessage,
    turn_prefix_messages: Vec<ChatMessage>,
    kept_messages: Vec<ChatMessage>,
) -> (r: Vec<ChatMessage>)
    ensures
        seq_view(r@) == seq_view(system_prefix@).push(summary_message@) + seq_view(turn_prefix_messages@) + seq_view(
            kept_messages@,
        ),
{
    let mut r = system_prefix;
    let mut tail = turn_prefix_messages;
    let mut kept = kept_messages;
    let ghost a = seq_view(r@);
    let ghost b = seq_view(tail@);
    let ghost c = seq_view(kept@);
    proof {
        lemma_seq_view_push(r@, summary_message);
    }
    r.push(summary_message);
    let ghost r1 = r@;
    let ghost t1 = tail@;
    r.append(&mut tail);
    proof {
        lemma_seq_view_add(r1, t1);
    }
    let ghost r2 = r@;
    let ghost k1 = kept@;
    r.append(&mut kept);
    proof {
        lemma_seq_view_add(r2, k1);
    }
    r
}

/// What a branch summary does with the `session_before_tree` hook's outcome
/// (`None` when no hook is configured): `Ok(None)` to summarize with the
/// model, `Ok(Some(text))` to use the hook's text, or the refusal.
pub open spec fn branch_plan(selected: nat, outcome: Option<SessionSummaryHookOutcome>) -> Result<Option<Seq<char>>, RociErrorView> {
    if selected == 0 {
        Err(invalid_state("branch summary requires at least one entry within token budget"@))
    } else {
        match outcome {
            None => Ok(None),
            Some(SessionSummaryHookOutcome::Continue) => Ok(None),
            Some(SessionSummaryHookOutcome::Cancel) => Err(invalid_state("branch summary canceled by session_before_tree hook"@)),
            Some(SessionSummaryHookOutcome::OverrideSummary(s)) => if trimmed(s@).len() == 0 {
                Err(invalid_state("branch summary text must not be empty"@))
            } else {
                Ok(Some(trimmed(s@)))
            },
            Some(SessionSummaryHookOutcome::OverrideCompaction(_)) => Err(
                invalid_state("branch summary hook does not accept compaction override object"@),
            ),
        }
    }
}

/// Decides a branch summary from the number of entries selected within the
/// token budget and the hook's outcome; see [`branch_plan`].
pub fn branch_summary_plan(selected: usize, outcome: Option<SessionSummaryHookOutcome>) -> (r: Result<Option<String>, RociError>)
    ensures
        match r {
            Ok(None) => branch_plan(selected as nat, outcome) == Ok::<Option<Seq<char>>, RociErrorView>(None),
            Ok(Some(t)) => branch_plan(selected as nat, outcome) == Ok::<Option<Seq<char>>, RociErrorView>(Some(t@)),
            Err(e) => branch_plan(selected as nat, outcome) == Err::<Option<Seq<char>>, RociErrorView>(e@),
        },
{
    if selected == 0 {
        return Err(invalid("branch summary requires at least one entry within token budget"));
    }
    match outcome {
        None => Ok(None),
        Some(SessionSummaryHookOutcome::Continue) => Ok(None),
        Some(SessionSummaryHookOutcome::Cancel) => Err(invalid("branch summary canceled by session_before_tree hook")),
        Some(SessionSummaryHookOutcome::OverrideSummary(s)) => {
            let t = trim_text(s.as_str());
            if t.as_str().unicode_len() == 0 {
                Err(invalid("branch summary text must not be empty"))
            } else {
                Ok(Some(t))
            }
        },
        Some(SessionSummaryHookOutcome::OverrideCompaction(_)) => Err(
            invalid("branch summary hook does not accept compaction override object"),
        ),
    }
}

/// The request text asking a model to summarize a conversation transcript.
pub fn compaction_summary_prompt(transcript: &str) -> (r: String)
    ensures
        r@ == "Summarize the conversation transcript into concise bullets focused on user goals, constraints, progress, decisions, next steps, and critical context.\n\nTranscript:\n"@
            + transcript@,
{
    let mut r = String::from_str(
        "Summarize the conversation transcript into concise bullets focused on user goals, constraints, progress, decisions, next steps, and critical context.\n\nTranscript:\n",
    );
    r.append(transcript);
    r
}

/// The request text asking a model to summarize a branch transition transcript.
pub fn branch_summary_prompt(transcript: &str) -> (r: String)
    ensures
        r@ == "Summarize the branch transition transcript into concise bullets focused on user goals, constraints, progress, decisions, next steps, and critical context.\n\nTranscript:\n"@
            + transcript@,
{
    let mut r = String::from_str(
        "Summarize the branch transition transcript into concise bullets focused on user goals, constraints, progress, decisions, next steps, and critical context.\n\nTranscript:\n",
    );
    r.append(transcript);
    r
}

/// Where the conversation to compact starts, if there is enough of it: the
/// leading system messages stay aside, and fewer than two conversation
/// messages leave nothing to compact.
pub open spec fn compactable_start(s: Seq<ChatMessageView>) -> Option<int> {
    let k = system_prefix_count(s, 0);
    if s.len() - k < 2 {
        None
    } else {
        Some(k)
    }
}

/// The start of the conversation to compact, or `None` when there is too
/// little to compact; see [`compactable_start`].
pub fn compaction_conversation_start(messages: &Vec<ChatMessage>) -> (r: Option<usize>)
    ensures
        match r {
            Some(k) => compactable_start(seq_view(messages@)) == Some(k as int),
            None => compactable_start(seq_view(messages@)) is None,
        },
{
    let k = system_prefix_len(messages);
    if messages.len() - k < 2 {
        None
    } else {
        Some(k)
    }
}

proof fn lemma_system_prefix_bounds(s: Seq<ChatMessageView>, i: int)
    requires
        0 <= i <= s.len(),
    ensures
        0 <= system_prefix_count(s, i) <= s.len() - i,
    decreases s.len() - i,
{
    if i < s.len() && s[i].role == Role::System {
        lemma_system_prefix_bounds(s, i + 1);
    }
}

/// The leading system messages are a prefix of the history.
pub proof fn lemma_system_prefix_in_range(s: Seq<ChatMessageView>)
    ensures
        0 <= system_prefix_count(s, 0) <= s.len(),
{
    lemma_system_prefix_bounds(s, 0);
}

/// The history a compaction leaves: the leading system messages, the
/// summary message, then the selection's split-turn prefix and its kept
/// messages.
pub open spec fn compacted_spec(s: Seq<ChatMessageView>, sel: SelectionView, summary: ChatMessageView) -> Seq<ChatMessageView> {
    s.take(system_prefix_count(s, 0)).push(summary) + sel.turn_prefix_messages + sel.kept_messages
}

/// Compacts `messages` with what `selection` keeps and the summary message
/// written for what it summarizes; see [`compacted_spec`].
pub fn compact_messages(messages: &Vec<ChatMessage>, selection: CompactionSelection, summary_message: ChatMessage) -> (r: Vec<
    ChatMessage,
>)
    ensures
        seq_view(r@) == compacted_spec(seq_view(messages@), selection@, summary_message@),
{
    let p = system_prefix_len(messages);
    let prefix = copy_messages(messages, 0, p);
    proof {
        assert(seq_view(messages@).subrange(0, p as int) =~= seq_view(messages@).take(p as int));
    }
    compacted_history(prefix, summary_message, selection.turn_prefix_messages, selection.kept_messages)
}

} // verus!
