//! What single operations do to what they touch, stated over their inputs
//! and results: profile inheritance and overrides, settling approvals and
//! human interactions, streaming plans, diffs and reasoning, and which turns
//! a reset cancels.

use vstd::prelude::*;

use crate::domain::{
    spec_is_terminal, ChatMessageView, Role, ApprovalDecision, ApprovalStatus, HumanInteractionStatus, MessageStatus, ToolStatus, TurnStatus,
    TurnView,
};
use crate::event::PayloadView;
use crate::find::{first_index, lemma_first_index_push, lemma_first_index_spec, lemma_first_index_update};
use crate::ids::{MessageId, TurnId};
use crate::runtime::{all_open_turn_ids, continue_error, open_turn_ids, prompt_messages, RuntimeView};
use crate::runtime_types::{drained, merged_usage, zero_usage, QueueDrainMode, Usage};
use crate::subagents::{
    chain_spec, fold_chain, override_spec, profile_named, resolve_spec, ProfileView, SubagentOverrides,
    ToolPolicyView,
};
use crate::thread::{
    approval_index, change_message_spec, complete_tool_spec, diff_is, interaction_index, message_index, plan_is,
    reasoning_index, reasoning_is, request_interaction_spec, require_approval_spec, settle_approval_spec,
    settle_interaction_spec, start_tool_spec, start_turn_spec, terminal_turn_spec, tool_index, turn_index, turn_is,
    update_diff_spec, update_plan_spec, update_reasoning_spec, update_tool_spec, without, ThreadStateView,
};

verus! {

proof fn lemma_chain_ends_with_named(reg: Seq<ProfileView>, name: Seq<char>, path: Seq<Seq<char>>, fuel: nat)
    ensures
        chain_spec(reg, name, path, fuel) matches Ok(c) ==> {
            let i = first_index(reg, profile_named(name));
            &&& 0 <= i < reg.len()
            &&& reg[i].name == name
            &&& c.len() >= 1
            &&& c.last() == reg[i]
            &&& (reg[i].inherits is None ==> c == seq![reg[i]])
            &&& (reg[i].inherits matches Some(q) ==> chain_spec(reg, q, path.push(name), (fuel - 1) as nat) == Ok::<
                Seq<ProfileView>,
                crate::subagents::ProfileErrorView,
            >(c.drop_last()))
        },
    decreases fuel,
{
    lemma_first_index_spec(reg, profile_named(name));
    if let Ok(c) = chain_spec(reg, name, path, fuel) {
        let p = reg[first_index(reg, profile_named(name))];
        if let Some(q) = p.inherits {
            lemma_chain_ends_with_named(reg, q, path.push(name), (fuel - 1) as nat);
            let c0 = chain_spec(reg, q, path.push(name), (fuel - 1) as nat)->Ok_0;
            assert(c.drop_last() =~= c0);
        }
    }
}

proof fn lemma_chain_unique(
    reg: Seq<ProfileView>,
    name: Seq<char>,
    path1: Seq<Seq<char>>,
    fuel1: nat,
    path2: Seq<Seq<char>>,
    fuel2: nat,
)
    requires
        chain_spec(reg, name, path1, fuel1) is Ok,
        chain_spec(reg, name, path2, fuel2) is Ok,
    ensures
        chain_spec(reg, name, path1, fuel1) == chain_spec(reg, name, path2, fuel2),
    decreases fuel1,
{
    let p = reg[first_index(reg, profile_named(name))];
    if let Some(q) = p.inherits {
        lemma_chain_unique(reg, q, path1.push(name), (fuel1 - 1) as nat, path2.push(name), (fuel2 - 1) as nat);
    }
}

/// A profile's own settings win when it is resolved: every field it sets
/// (description, kind, system prompt, default timeout; its models when it
/// lists any; its tool policy unless that is `Inherit`) is the resolved
/// profile's, whatever it inherits. The result keeps its name and version
/// and inherits nothing further; a profile that inherits nothing resolves
/// to itself.
pub proof fn law_own_settings_win(reg: Seq<ProfileView>, name: Seq<char>)
    requires
        resolve_spec(reg, name) is Ok,
    ensures
        ({
            let i = first_index(reg, profile_named(name));
            let p = reg[i];
            let r = resolve_spec(reg, name)->Ok_0;
            &&& 0 <= i < reg.len()
            &&& p.name == name
            &&& r.name == name
            &&& r.version == p.version
            &&& r.inherits is None
            &&& p.description is Some ==> r.description == p.description
            &&& p.kind is Some ==> r.kind == p.kind
            &&& p.system_prompt is Some ==> r.system_prompt == p.system_prompt
            &&& p.default_timeout_ms is Some ==> r.default_timeout_ms == p.default_timeout_ms
            &&& p.models.len() > 0 ==> r.models == p.models
            &&& !(p.tools is Inherit) ==> r.tools == p.tools
            &&& p.inherits is None ==> r == (ProfileView { inherits: None, ..p })
        }),
{
    let fuel = (reg.len() + 1) as nat;
    lemma_chain_ends_with_named(reg, name, Seq::empty(), fuel);
    let c = chain_spec(reg, name, Seq::empty(), fuel)->Ok_0;
    if c.len() == 1 {
        assert(c[0] == c.last());
    }
}

/// What a profile leaves unset comes from its parent: when a profile and the
/// parent it names both resolve, each field the profile leaves unset
/// (description, kind, system prompt, default timeout; its models when it
/// lists none; its tool policy when it is `Inherit`) is the resolved
/// parent's.
pub proof fn law_parent_fills_unset(reg: Seq<ProfileView>, name: Seq<char>, parent: Seq<char>)
    requires
        resolve_spec(reg, name) is Ok,
        reg[first_index(reg, profile_named(name))].inherits == Some(parent),
        resolve_spec(reg, parent) is Ok,
    ensures
        ({
            let p = reg[first_index(reg, profile_named(name))];
            let r = resolve_spec(reg, name)->Ok_0;
            let b = resolve_spec(reg, parent)->Ok_0;
            &&& p.description is None ==> r.description == b.description
            &&& p.kind is None ==> r.kind == b.kind
            &&& p.system_prompt is None ==> r.system_prompt == b.system_prompt
            &&& p.default_timeout_ms is None ==> r.default_timeout_ms == b.default_timeout_ms
            &&& p.models.len() == 0 ==> r.models == b.models
            &&& p.tools is Inherit ==> r.tools == b.tools
        }),
{
    let fuel = (reg.len() + 1) as nat;
    lemma_chain_ends_with_named(reg, name, Seq::empty(), fuel);
    let c = chain_spec(reg, name, Seq::empty(), fuel)->Ok_0;
    let inner = Seq::<Seq<char>>::empty().push(name);
    lemma_chain_ends_with_named(reg, parent, inner, (fuel - 1) as nat);
    lemma_chain_unique(reg, parent, inner, (fuel - 1) as nat, Seq::empty(), fuel);
    assert(c.len() >= 2);
    assert(c =~= c.drop_last().push(c.last()));
}

/// Per-launch overrides win: each override given (system prompt, model,
/// tool policy, timeout) replaces the profile's setting, whatever the profile
/// had; each one not given leaves the profile's; nothing else changes.
pub proof fn law_overrides_win(p: ProfileView, o: SubagentOverrides)
    ensures
        ({
            let r = override_spec(p, o);
            &&& o.system_prompt matches Some(s) ==> r.system_prompt == Some(s@)
            &&& o.system_prompt is None ==> r.system_prompt == p.system_prompt
            &&& o.model matches Some(m) ==> r.models == seq![m@]
            &&& o.model is None ==> r.models == p.models
            &&& o.tools matches Some(t) ==> r.tools == t@
            &&& o.tools is None ==> r.tools == p.tools
            &&& o.timeout_ms matches Some(t) ==> r.default_timeout_ms == Some(t)
            &&& o.timeout_ms is None ==> r.default_timeout_ms == p.default_timeout_ms
            &&& r.name == p.name && r.version == p.version && r.description == p.description
            &&& r.kind == p.kind && r.inherits == p.inherits
        }),
{
}

/// Settling an approval records the decision taken: resolving with `d`
/// leaves the approval of that turn and request id `Resolved` with decision
/// `d`, canceling leaves it `Canceled` with decision `Cancel`; it is settled
/// at `now`, the emitted event carries the settled approval, and every other
/// approval is untouched.
pub proof fn law_settling_approval_records_decision(
    t: ThreadStateView,
    turn_id: TurnId,
    id: Seq<char>,
    decision: Option<ApprovalDecision>,
    now: i64,
)
    requires
        settle_approval_spec(t, turn_id, id, decision, now).1 is Ok,
    ensures
        ({
            let (t2, r) = settle_approval_spec(t, turn_id, id, decision, now);
            let k = approval_index(t, turn_id, id);
            let a = t2.snapshot.approvals[k];
            &&& 0 <= k < t.snapshot.approvals.len()
            &&& t2.snapshot.approvals.len() == t.snapshot.approvals.len()
            &&& a.turn_id == turn_id && a.request.id == id
            &&& a.request == t.snapshot.approvals[k].request
            &&& a.resolved_at == Some(now)
            &&& match decision {
                Some(d) => {
                    &&& a.status == ApprovalStatus::Resolved
                    &&& a.decision == Some(d)
                    &&& r->Ok_0.payload == PayloadView::ApprovalResolved { approval: a }
                },
                None => {
                    &&& a.status == ApprovalStatus::Canceled
                    &&& a.decision == Some(ApprovalDecision::Cancel)
                    &&& r->Ok_0.payload == PayloadView::ApprovalCanceled { approval: a }
                },
            }
            &&& forall|j: int| 0 <= j < t.snapshot.approvals.len() && j != k ==> t2.snapshot.approvals[j]
                == t.snapshot.approvals[j]
        }),
{
    lemma_first_index_spec(t.snapshot.approvals, crate::thread::approval_is(turn_id, id));
}

/// Settling a human interaction records its outcome: answering with a
/// response leaves the interaction of that turn and request id `Resolved`
/// with that response and no error, canceling leaves it `Canceled` with the
/// given reason; it is settled at `now`, the emitted event carries it, and
/// every other interaction is untouched.
pub proof fn law_settling_interaction_records_outcome(
    t: ThreadStateView,
    turn_id: TurnId,
    id: u128,
    response: Option<crate::domain::HumanInteractionResponseView>,
    reason: Option<Seq<char>>,
    now: i64,
)
    requires
        settle_interaction_spec(t, turn_id, id, response, reason, now).1 is Ok,
    ensures
        ({
            let (t2, r) = settle_interaction_spec(t, turn_id, id, response, reason, now);
            let k = interaction_index(t, turn_id, id);
            let h = t2.snapshot.human_interactions[k];
            &&& 0 <= k < t.snapshot.human_interactions.len()
            &&& t2.snapshot.human_interactions.len() == t.snapshot.human_interactions.len()
            &&& h.turn_id == turn_id && h.request.request_id == id
            &&& h.resolved_at == Some(now)
            &&& match response {
                Some(resp) => {
                    &&& h.status == HumanInteractionStatus::Resolved
                    &&& h.response == Some(resp)
                    &&& h.error is None
                    &&& r->Ok_0.payload == PayloadView::HumanInteractionResolved { interaction: h }
                },
                None => {
                    &&& h.status == HumanInteractionStatus::Canceled
                    &&& h.error == reason
                    &&& r->Ok_0.payload == PayloadView::HumanInteractionCanceled { interaction: h }
                },
            }
            &&& forall|j: int| 0 <= j < t.snapshot.human_interactions.len() && j != k ==> t2.snapshot.human_interactions[j]
                == t.snapshot.human_interactions[j]
        }),
{
    lemma_first_index_spec(t.snapshot.human_interactions, crate::thread::interaction_is(turn_id, id));
}

/// A plan update makes `plan` the turn's plan, whether or not the turn had
/// one: afterwards the turn's plan entry holds `plan`, updated at `now`; the
/// emitted event carries that entry; a new entry is added only when the turn
/// had none, and the plans of other entries are untouched.
pub proof fn law_plan_update_replaces_plan(t: ThreadStateView, turn_id: TurnId, plan: Seq<char>, now: i64)
    requires
        update_plan_spec(t, turn_id, plan, now).1 is Ok,
    ensures
        ({
            let (t2, r) = update_plan_spec(t, turn_id, plan, now);
            let had = first_index(t.snapshot.plans, plan_is(turn_id)) >= 0;
            let k = first_index(t2.snapshot.plans, plan_is(turn_id));
            &&& 0 <= k < t2.snapshot.plans.len()
            &&& t2.snapshot.plans[k].plan == plan
            &&& t2.snapshot.plans[k].turn_id == turn_id
            &&& t2.snapshot.plans[k].updated_at == now
            &&& r->Ok_0.payload == PayloadView::PlanUpdated { plan: t2.snapshot.plans[k] }
            &&& t2.snapshot.plans.len() == t.snapshot.plans.len() + if had { 0int } else { 1int }
            &&& forall|j: int| 0 <= j < t.snapshot.plans.len() && j != k ==> t2.snapshot.plans[j] == t.snapshot.plans[j]
        }),
{
    let k0 = first_index(t.snapshot.plans, plan_is(turn_id));
    lemma_first_index_spec(t.snapshot.plans, plan_is(turn_id));
    if k0 >= 0 {
        let np = crate::domain::PlanView { plan, updated_at: now, ..t.snapshot.plans[k0] };
        lemma_first_index_update(t.snapshot.plans, k0, np, plan_is(turn_id));
    } else {
        let np = crate::domain::PlanView { thread_id: t.snapshot.thread_id, turn_id, plan, updated_at: now };
        lemma_first_index_push(t.snapshot.plans, np, plan_is(turn_id));
    }
}

/// A diff update makes `diff` the turn's diff, whether or not the turn had
/// one: afterwards the turn's diff entry holds `diff`, updated at `now`; the
/// emitted event carries that entry; a new entry is added only when the turn
/// had none, and other entries are untouched.
pub proof fn law_diff_update_replaces_diff(t: ThreadStateView, turn_id: TurnId, diff: Seq<char>, now: i64)
    requires
        update_diff_spec(t, turn_id, diff, now).1 is Ok,
    ensures
        ({
            let (t2, r) = update_diff_spec(t, turn_id, diff, now);
            let had = first_index(t.snapshot.diffs, diff_is(turn_id)) >= 0;
            let k = first_index(t2.snapshot.diffs, diff_is(turn_id));
            &&& 0 <= k < t2.snapshot.diffs.len()
            &&& t2.snapshot.diffs[k].diff == diff
            &&& t2.snapshot.diffs[k].turn_id == turn_id
            &&& t2.snapshot.diffs[k].updated_at == now
            &&& r->Ok_0.payload == PayloadView::DiffUpdated { diff: t2.snapshot.diffs[k] }
            &&& t2.snapshot.diffs.len() == t.snapshot.diffs.len() + if had { 0int } else { 1int }
            &&& forall|j: int| 0 <= j < t.snapshot.diffs.len() && j != k ==> t2.snapshot.diffs[j] == t.snapshot.diffs[j]
        }),
{
    let k0 = first_index(t.snapshot.diffs, diff_is(turn_id));
    lemma_first_index_spec(t.snapshot.diffs, diff_is(turn_id));
    if k0 >= 0 {
        let nd = crate::domain::DiffView { diff, updated_at: now, ..t.snapshot.diffs[k0] };
        lemma_first_index_update(t.snapshot.diffs, k0, nd, diff_is(turn_id));
    } else {
        let nd = crate::domain::DiffView { thread_id: t.snapshot.thread_id, turn_id, diff, updated_at: now };
        lemma_first_index_push(t.snapshot.diffs, nd, diff_is(turn_id));
    }
}

/// Reasoning accumulates: after an update with `delta`, the reasoning of the
/// turn (and message) is what it was before (nothing when there was none)
/// followed by `delta`; the emitted event carries it and the delta, and other
/// entries are untouched.
pub proof fn law_reasoning_appends_delta(
    t: ThreadStateView,
    turn_id: TurnId,
    message_id: Option<MessageId>,
    delta: Seq<char>,
    now: i64,
)
    requires
        update_reasoning_spec(t, turn_id, message_id, delta, now).1 is Ok,
    ensures
        ({
            let (t2, r) = update_reasoning_spec(t, turn_id, message_id, delta, now);
            let k0 = reasoning_index(t, turn_id, message_id);
            let k = reasoning_index(t2, turn_id, message_id);
            let before = if k0 >= 0 { t.snapshot.reasoning[k0].text } else { Seq::<char>::empty() };
            &&& 0 <= k < t2.snapshot.reasoning.len()
            &&& t2.snapshot.reasoning[k].text == before + delta
            &&& t2.snapshot.reasoning[k].updated_at == now
            &&& r->Ok_0.payload == PayloadView::ReasoningUpdated { reasoning: t2.snapshot.reasoning[k], delta }
            &&& forall|j: int| 0 <= j < t.snapshot.reasoning.len() && j != k ==> t2.snapshot.reasoning[j]
                == t.snapshot.reasoning[j]
        }),
{
    let k0 = reasoning_index(t, turn_id, message_id);
    lemma_first_index_spec(t.snapshot.reasoning, reasoning_is(turn_id, message_id));
    if k0 >= 0 {
        let nr = crate::domain::ReasoningView {
            text: t.snapshot.reasoning[k0].text + delta,
            updated_at: now,
            ..t.snapshot.reasoning[k0]
        };
        lemma_first_index_update(t.snapshot.reasoning, k0, nr, reasoning_is(turn_id, message_id));
    } else {
        let nr = crate::domain::ReasoningView {
            thread_id: t.snapshot.thread_id,
            turn_id,
            message_id,
            text: delta,
            updated_at: now,
        };
        lemma_first_index_push(t.snapshot.reasoning, nr, reasoning_is(turn_id, message_id));
        assert(Seq::<char>::empty() + delta =~= delta);
    }
}

proof fn lemma_open_turn_ids_members(turns: Seq<TurnView>, id: TurnId)
    ensures
        open_turn_ids(turns).contains(id) <==> exists|j: int|
            0 <= j < turns.len() && (#[trigger] turns[j]).turn_id == id && (turns[j].status == TurnStatus::Queued
                || turns[j].status == TurnStatus::Running),
    decreases turns.len(),
{
    if turns.len() > 0 {
        let init = turns.drop_last();
        lemma_open_turn_ids_members(init, id);
        let r = open_turn_ids(init);
        let last = turns.last();
        if open_turn_ids(turns).contains(id) {
            let k = choose|k: int| 0 <= k < open_turn_ids(turns).len() && open_turn_ids(turns)[k] == id;
            if k < r.len() {
                assert(r[k] == id);
                assert(r.contains(id));
                let j = choose|j: int|
                    0 <= j < init.len() && (#[trigger] init[j]).turn_id == id && (init[j].status == TurnStatus::Queued
                        || init[j].status == TurnStatus::Running);
                assert(turns[j] == init[j]);
            } else {
                assert(turns[turns.len() - 1] == last);
            }
        }
        if exists|j: int|
            0 <= j < turns.len() && (#[trigger] turns[j]).turn_id == id && (turns[j].status == TurnStatus::Queued
                || turns[j].status == TurnStatus::Running) {
            let j = choose|j: int|
                0 <= j < turns.len() && (#[trigger] turns[j]).turn_id == id && (turns[j].status == TurnStatus::Queued
                    || turns[j].status == TurnStatus::Running);
            if j < init.len() {
                assert(init[j] == turns[j]);
                assert(r.contains(id));
                let k = choose|k: int| 0 <= k < r.len() && r[k] == id;
                assert(open_turn_ids(turns)[k] == id);
            } else {
                assert(open_turn_ids(turns) == r.push(last.turn_id));
                assert(open_turn_ids(turns)[r.len() as int] == id);
            }
        }
    }
}

/// The turns a reset cancels are exactly the open ones: a turn id is among
/// the open turns of the projected threads exactly when some thread holds
/// that turn queued or running.
pub proof fn law_open_turns_are_queued_or_running(threads: Seq<ThreadStateView>, id: TurnId)
    ensures
        all_open_turn_ids(threads).contains(id) <==> exists|i: int, j: int|
            0 <= i < threads.len() && 0 <= j < threads[i].snapshot.turns.len() && (#[trigger] threads[i].snapshot.turns[j]).turn_id
                == id && (threads[i].snapshot.turns[j].status == TurnStatus::Queued || threads[i].snapshot.turns[j].status
                == TurnStatus::Running),
    decreases threads.len(),
{
    if threads.len() > 0 {
        let init = threads.drop_last();
        let a = all_open_turn_ids(init);
        let last = threads.last();
        let b = open_turn_ids(last.snapshot.turns);
        law_open_turns_are_queued_or_running(init, id);
        lemma_open_turn_ids_members(last.snapshot.turns, id);
        let s = a + b;
        assert(all_open_turn_ids(threads) == s);
        if s.contains(id) {
            let k = choose|k: int| 0 <= k < s.len() && s[k] == id;
            if k < a.len() {
                assert(a[k] == id);
                assert(a.contains(id));
                let (i, j) = choose|i: int, j: int|
                    0 <= i < init.len() && 0 <= j < init[i].snapshot.turns.len() && (#[trigger] init[i].snapshot.turns[j]).turn_id
                        == id && (init[i].snapshot.turns[j].status == TurnStatus::Queued || init[i].snapshot.turns[j].status
                        == TurnStatus::Running);
                assert(threads[i] == init[i]);
                assert(threads[i].snapshot.turns[j].turn_id == id);
            } else {
                assert(b[k - a.len()] == id);
                assert(b.contains(id));
                let j = choose|j: int|
                    0 <= j < last.snapshot.turns.len() && (#[trigger] last.snapshot.turns[j]).turn_id == id
                        && (last.snapshot.turns[j].status == TurnStatus::Queued || last.snapshot.turns[j].status
                        == TurnStatus::Running);
                let i = threads.len() - 1;
                assert(threads[i] == last);
                assert(threads[i].snapshot.turns[j].turn_id == id);
            }
        }
        if exists|i: int, j: int|
            0 <= i < threads.len() && 0 <= j < threads[i].snapshot.turns.len() && (#[trigger] threads[i].snapshot.turns[j]).turn_id
                == id && (threads[i].snapshot.turns[j].status == TurnStatus::Queued || threads[i].snapshot.turns[j].status
                == TurnStatus::Running) {
            let (i, j) = choose|i: int, j: int|
                0 <= i < threads.len() && 0 <= j < threads[i].snapshot.turns.len() && (#[trigger] threads[i].snapshot.turns[j]).turn_id
                    == id && (threads[i].snapshot.turns[j].status == TurnStatus::Queued || threads[i].snapshot.turns[j].status
                    == TurnStatus::Running);
            if i < init.len() {
                assert(init[i] == threads[i]);
                assert(init[i].snapshot.turns[j].turn_id == id);
                assert(a.contains(id));
                let k = choose|k: int| 0 <= k < a.len() && a[k] == id;
                assert(s[k] == id);
            } else {
                assert(threads[i] == last);
                assert(last.snapshot.turns[j].turn_id == id);
                assert(b.contains(id));
                let k = choose|k: int| 0 <= k < b.len() && b[k] == id;
                assert(s[a.len() + k] == id);
            }
        }
    }
}

/// Requesting an approval appends it pending: the new last approval carries
/// the request, the turn, no decision yet and `now` as its request time, the
/// emitted event carries it, earlier approvals are untouched, and the turn had
/// no approval with that request id before.
pub proof fn law_requesting_approval_appends_pending(
    t: ThreadStateView,
    turn_id: TurnId,
    request: crate::domain::ApprovalRequestView,
    now: i64,
)
    requires
        require_approval_spec(t, turn_id, request, now).1 is Ok,
    ensures
        ({
            let (t2, r) = require_approval_spec(t, turn_id, request, now);
            let n = t.snapshot.approvals.len() as int;
            let a = t2.snapshot.approvals[n];
            &&& approval_index(t, turn_id, request.id) < 0
            &&& t2.snapshot.approvals.len() == n + 1
            &&& t2.snapshot.approvals.take(n) == t.snapshot.approvals
            &&& a.request == request && a.turn_id == turn_id && a.thread_id == t.snapshot.thread_id
            &&& a.status == ApprovalStatus::Pending && a.decision is None
            &&& a.requested_at == now && a.resolved_at is None
            &&& r->Ok_0.payload == PayloadView::ApprovalRequired { approval: a }
        }),
{
    let n = t.snapshot.approvals.len() as int;
    let (t2, r) = require_approval_spec(t, turn_id, request, now);
    let a = t2.snapshot.approvals[n];
    lemma_first_index_push(t.snapshot.approvals, a, crate::thread::approval_is(turn_id, request.id));
    assert(t2.snapshot.approvals.take(n) =~= t.snapshot.approvals);
}

/// Asking the human appends the interaction pending: the new last
/// interaction carries the request, the turn, no response or error yet and
/// `now` as its request time, the emitted event carries it, earlier ones are
/// untouched, and the turn had none with that request id before.
pub proof fn law_requesting_interaction_appends_pending(
    t: ThreadStateView,
    turn_id: TurnId,
    request: crate::domain::HumanInteractionRequestView,
    now: i64,
)
    requires
        request_interaction_spec(t, turn_id, request, now).1 is Ok,
    ensures
        ({
            let (t2, r) = request_interaction_spec(t, turn_id, request, now);
            let n = t.snapshot.human_interactions.len() as int;
            let h = t2.snapshot.human_interactions[n];
            &&& interaction_index(t, turn_id, request.request_id) < 0
            &&& t2.snapshot.human_interactions.len() == n + 1
            &&& t2.snapshot.human_interactions.take(n) == t.snapshot.human_interactions
            &&& h.request == request && h.turn_id == turn_id && h.thread_id == t.snapshot.thread_id
            &&& h.status == HumanInteractionStatus::Pending && h.response is None && h.error is None
            &&& h.requested_at == now && h.resolved_at is None
            &&& r->Ok_0.payload == PayloadView::HumanInteractionRequested { interaction: h }
        }),
{
    let n = t.snapshot.human_interactions.len() as int;
    let (t2, r) = request_interaction_spec(t, turn_id, request, now);
    let h = t2.snapshot.human_interactions[n];
    lemma_first_index_push(t.snapshot.human_interactions, h, crate::thread::interaction_is(turn_id, request.request_id));
    assert(t2.snapshot.human_interactions.take(n) =~= t.snapshot.human_interactions);
}

/// Starting a turn makes it running, started at `now` and the thread's
/// active turn; the emitted event carries the started turn, and every other
/// turn is untouched.
pub proof fn law_starting_turn_runs_it(t: ThreadStateView, id: TurnId, now: i64)
    requires
        start_turn_spec(t, id, now).1 is Ok,
    ensures
        ({
            let (t2, r) = start_turn_spec(t, id, now);
            let k = turn_index(t, id);
            let u = t2.snapshot.turns[k];
            &&& 0 <= k < t.snapshot.turns.len()
            &&& t2.snapshot.turns.len() == t.snapshot.turns.len()
            &&& t.snapshot.turns[k].status == TurnStatus::Queued
            &&& u.turn_id == id && u.status == TurnStatus::Running && u.started_at == Some(now)
            &&& u.message_ids == t.snapshot.turns[k].message_ids && u.queued_at == t.snapshot.turns[k].queued_at
            &&& t2.snapshot.active_turn_id == Some(id)
            &&& r->Ok_0.payload == PayloadView::TurnStarted { turn: u }
            &&& forall|j: int| 0 <= j < t.snapshot.turns.len() && j != k ==> t2.snapshot.turns[j] == t.snapshot.turns[j]
        }),
{
    lemma_first_index_spec(t.snapshot.turns, turn_is(id));
}

/// Closing a turn gives it the requested terminal status, completed at
/// `now`, with the given error; it stops being the active turn (another
/// active turn stays), and the emitted event reports the status, with the
/// error for a failure. Other turns are untouched.
pub proof fn law_closing_turn_sets_status(
    t: ThreadStateView,
    id: TurnId,
    status: TurnStatus,
    error: Option<Seq<char>>,
    now: i64,
)
    requires
        spec_is_terminal(status),
        terminal_turn_spec(t, id, status, error, now).1 is Ok,
    ensures
        ({
            let (t2, r) = terminal_turn_spec(t, id, status, error, now);
            let k = turn_index(t, id);
            let u = t2.snapshot.turns[k];
            &&& 0 <= k < t.snapshot.turns.len()
            &&& !spec_is_terminal(t.snapshot.turns[k].status)
            &&& u.turn_id == id && u.status == status && u.completed_at == Some(now) && u.error == error
            &&& u.started_at == t.snapshot.turns[k].started_at
            &&& t2.snapshot.active_turn_id == if t.snapshot.active_turn_id == Some(id) {
                None
            } else {
                t.snapshot.active_turn_id
            }
            &&& status == TurnStatus::Completed ==> r->Ok_0.payload == PayloadView::TurnCompleted { turn: u }
            &&& status == TurnStatus::Failed ==> r->Ok_0.payload == PayloadView::TurnFailed { turn: u, error: error->Some_0 }
            &&& status == TurnStatus::Canceled ==> r->Ok_0.payload == PayloadView::TurnCanceled { turn: u }
            &&& forall|j: int| 0 <= j < t.snapshot.turns.len() && j != k ==> t2.snapshot.turns[j] == t.snapshot.turns[j]
        }),
{
    lemma_first_index_spec(t.snapshot.turns, turn_is(id));
}

/// Updating or completing a message gives it the new payload; completing
/// also marks it completed at `now`, while an update leaves its status; the
/// emitted event carries the changed message, and other messages are
/// untouched.
pub proof fn law_message_change_sets_payload(
    t: ThreadStateView,
    id: MessageId,
    m: crate::domain::ChatMessageView,
    complete: bool,
    now: i64,
)
    requires
        change_message_spec(t, id, m, complete, now).1 is Ok,
    ensures
        ({
            let (t2, r) = change_message_spec(t, id, m, complete, now);
            let k = message_index(t, id);
            let v = t2.snapshot.messages[k];
            &&& 0 <= k < t.snapshot.messages.len()
            &&& v.message_id == id && v.payload == m
            &&& v.turn_id == t.snapshot.messages[k].turn_id
            &&& complete ==> v.status == MessageStatus::Completed && v.completed_at == Some(now)
                && r->Ok_0.payload == PayloadView::MessageCompleted { message: v }
            &&& !complete ==> v.status == t.snapshot.messages[k].status && r->Ok_0.payload
                == PayloadView::MessageUpdated { message: v }
            &&& forall|j: int| 0 <= j < t.snapshot.messages.len() && j != k ==> t2.snapshot.messages[j]
                == t.snapshot.messages[j]
        }),
{
    lemma_first_index_spec(t.snapshot.messages, crate::thread::message_is(id));
}

/// A tool starts running with the given name and arguments, no result yet,
/// started at `now`; its call id joins the turn's active tools, the emitted
/// event carries it, and the turn had no tool with that call id before.
pub proof fn law_starting_tool_runs_it(
    t: ThreadStateView,
    turn_id: TurnId,
    call_id: Seq<char>,
    name: Seq<char>,
    args: Seq<char>,
    now: i64,
)
    requires
        start_tool_spec(t, turn_id, call_id, name, args, now).1 is Ok,
    ensures
        ({
            let (t2, r) = start_tool_spec(t, turn_id, call_id, name, args, now);
            let n = t.snapshot.tools.len() as int;
            let x = t2.snapshot.tools[n];
            let ti = turn_index(t, turn_id);
            &&& tool_index(t, turn_id, call_id) < 0
            &&& t2.snapshot.tools.len() == n + 1
            &&& t2.snapshot.tools.take(n) == t.snapshot.tools
            &&& x.tool_call_id == call_id && x.turn_id == turn_id && x.tool_name == name && x.args == args
            &&& x.status == ToolStatus::Running && x.partial_result is None && x.final_result is None
            &&& x.started_at == now && x.completed_at is None
            &&& t2.snapshot.turns[ti].active_tool_call_ids == t.snapshot.turns[ti].active_tool_call_ids.push(call_id)
            &&& r->Ok_0.payload == PayloadView::ToolStarted { tool: x }
        }),
{
    let n = t.snapshot.tools.len() as int;
    let (t2, r) = start_tool_spec(t, turn_id, call_id, name, args, now);
    lemma_first_index_spec(t.snapshot.turns, turn_is(turn_id));
    lemma_first_index_push(t.snapshot.tools, t2.snapshot.tools[n], crate::thread::tool_is(turn_id, call_id));
    assert(t2.snapshot.tools.take(n) =~= t.snapshot.tools);
}

/// A tool's streamed partial result is kept as its latest partial result,
/// and the emitted event carries the tool; other tools are untouched.
pub proof fn law_tool_update_keeps_partial(
    t: ThreadStateView,
    turn_id: TurnId,
    call_id: Seq<char>,
    partial: crate::domain::ToolUpdateView,
    now: i64,
)
    requires
        update_tool_spec(t, turn_id, call_id, partial, now).1 is Ok,
    ensures
        ({
            let (t2, r) = update_tool_spec(t, turn_id, call_id, partial, now);
            let k = tool_index(t, turn_id, call_id);
            let x = t2.snapshot.tools[k];
            &&& 0 <= k < t.snapshot.tools.len()
            &&& x.partial_result == Some(partial)
            &&& x.status == t.snapshot.tools[k].status && x.final_result == t.snapshot.tools[k].final_result
            &&& r->Ok_0.payload == PayloadView::ToolUpdated { tool: x }
            &&& forall|j: int| 0 <= j < t.snapshot.tools.len() && j != k ==> t2.snapshot.tools[j] == t.snapshot.tools[j]
        }),
{
    lemma_first_index_spec(t.snapshot.tools, crate::thread::tool_is(turn_id, call_id));
}

/// Completing a tool records its final result, marks it completed at `now`
/// and takes its call id out of the turn's active tools; the emitted event
/// carries the tool, and other tools are untouched.
pub proof fn law_tool_completion_records_result(
    t: ThreadStateView,
    turn_id: TurnId,
    call_id: Seq<char>,
    result: crate::domain::ToolResultView,
    now: i64,
)
    requires
        complete_tool_spec(t, turn_id, call_id, result, now).1 is Ok,
    ensures
        ({
            let (t2, r) = complete_tool_spec(t, turn_id, call_id, result, now);
            let k = tool_index(t, turn_id, call_id);
            let x = t2.snapshot.tools[k];
            let ti = turn_index(t, turn_id);
            &&& 0 <= k < t.snapshot.tools.len()
            &&& x.status == ToolStatus::Completed && x.final_result == Some(result) && x.completed_at == Some(now)
            &&& x.partial_result == t.snapshot.tools[k].partial_result
            &&& !t2.snapshot.turns[ti].active_tool_call_ids.contains(call_id)
            &&& r->Ok_0.payload == PayloadView::ToolCompleted { tool: x }
            &&& forall|j: int| 0 <= j < t.snapshot.tools.len() && j != k ==> t2.snapshot.tools[j] == t.snapshot.tools[j]
        }),
{
    lemma_first_index_spec(t.snapshot.tools, crate::thread::tool_is(turn_id, call_id));
    lemma_first_index_spec(t.snapshot.turns, turn_is(turn_id));
    lemma_without_drops(t.snapshot.turns[turn_index(t, turn_id)].active_tool_call_ids, call_id);
}

proof fn lemma_without_drops(ids: Seq<Seq<char>>, x: Seq<char>)
    ensures
        !without(ids, x).contains(x),
    decreases ids.len(),
{
    if ids.len() > 0 {
        let init = ids.drop_last();
        lemma_without_drops(init, x);
        let r = without(init, x);
        if ids.last() != x {
            if r.push(ids.last()).contains(x) {
                let q = choose|q: int| 0 <= q < r.len() + 1 && r.push(ids.last())[q] == x;
                if q < r.len() {
                    assert(r[q] == x);
                }
            }
        }
    }
}

/// Draining a queue takes what is due, oldest first: everything in `All`
/// mode, only the oldest message (if any) one at a time.
pub proof fn law_drain_takes_oldest_first<T>(queue: Seq<T>, mode: QueueDrainMode)
    ensures
        mode == QueueDrainMode::All ==> drained(queue, mode) == queue,
        mode == QueueDrainMode::OneAtATime ==> drained(queue, mode) == queue.take(if queue.len() == 0 { 0int } else { 1int }),
{
    if mode == QueueDrainMode::OneAtATime && queue.len() > 0 {
        assert(drained(queue, mode) =~= queue.take(1));
    }
    if mode == QueueDrainMode::OneAtATime && queue.len() == 0 {
        assert(drained(queue, mode) =~= queue.take(0));
    }
}

/// A prompt adds the user's text as a user message, last; the system prompt
/// comes first exactly when one is set and the history is still empty.
pub proof fn law_prompt_ends_with_user_text(v: RuntimeView, text: Seq<char>)
    ensures
        ({
            let m = prompt_messages(v, text);
            &&& m.len() >= 1
            &&& m.last() == (ChatMessageView { role: Role::User, text })
            &&& (m.len() == 2) == (v.system_prompt is Some && v.messages.len() == 0)
            &&& m.len() == 2 ==> m[0] == (ChatMessageView { role: Role::System, text: v.system_prompt->Some_0 })
            &&& m.len() <= 2
        }),
{
}

/// A run can continue from the history exactly when there is one and its
/// last message is not the assistant's, unless steering or follow-up
/// messages are waiting.
pub proof fn law_continue_needs_input(v: RuntimeView)
    ensures
        continue_error(v).is_none() <==> (v.messages.len() > 0 && (v.messages.last().role != Role::Assistant
            || v.steering_queue.len() > 0 || v.follow_up_queue.len() > 0)),
        continue_error(v) matches Some(e) ==> e is InvalidState,
{
}

/// Merging usage adds each count, saturating at the largest count: each
/// merged count is the sum, or the maximum when the sum does not fit; merging
/// no usage changes nothing, and the order of two deltas does not matter.
pub proof fn law_usage_merge_adds(a: Usage, d: Usage, d2: Usage)
    ensures
        ({
            let m = merged_usage(a, d);
            &&& m.input_tokens == if a.input_tokens + d.input_tokens <= u64::MAX { a.input_tokens + d.input_tokens } else { u64::MAX as int }
            &&& m.output_tokens == if a.output_tokens + d.output_tokens <= u64::MAX { a.output_tokens + d.output_tokens } else { u64::MAX as int }
            &&& m.total_tokens == if a.total_tokens + d.total_tokens <= u64::MAX { a.total_tokens + d.total_tokens } else { u64::MAX as int }
            &&& merged_usage(a, zero_usage()) == a
            &&& merged_usage(merged_usage(a, d), d2) == merged_usage(merged_usage(a, d2), d)
        }),
{
}

} // verus!
