//! Properties that hold across the operations of the runtime, proved over
//! the same specifications the operations' contracts use.

use vstd::prelude::*;

use crate::compaction::{
    checked_override, compacted_spec, compaction_split, last_user_before, lemma_system_prefix_in_range, requested_override,
    selection_spec, system_prefix_count, SelectionView, SessionSummaryHookOutcome,
};
use crate::jsonl::{appended_all, batch_rejects, record_effect, RecordView};
use crate::projection::{
    after_start, change_step, ensure_started_spec, open_then_change, project_spec, tool_step, AgentEvent,
    ChatProjectionRunState, Projected,
};
use crate::runtime_types::{token_sum, CompactionOverrideView};
use crate::text::{lemma_trimmed_idempotent, trimmed};
use crate::domain::{ChatMessage, ChatMessageView, MessageStatus, MessageView, Role};
use crate::error::RociErrorView;
use crate::runtime::{finish_run_spec, reset_spec, terminal_outcome, RunOutcome, RunStatus, RuntimeView};
use crate::runtime_types::{merged_usage, zero_usage, AgentState};
use crate::dup::seq_view;
use crate::domain::ThreadView;
use crate::projector::lemma_replace_keeps_wf;
use crate::subagents::{override_spec, ProfileView, SubagentOverrides};
use crate::thread::{cancel_pending_approvals_spec, cancel_pending_interactions_spec};
use crate::turn_ops::terminal_events_spec;
use crate::error::ErrorView;
use crate::event::EventView;
use crate::ids::{MessageId, RuntimeCursor, ThreadId};
use crate::store::{
    appended, entry_in, invalidated, keep_newest, latest_in, oldest_available, oldest_replayable,
    rejects, replay, thread_ordered, ThreadLogView,
};
use crate::domain::{spec_is_terminal, ApprovalStatus, TurnStatus};
use crate::find::{lemma_first_index_spec, lemma_first_index_update};
use crate::ids::TurnId;
use crate::projector::{lift, projector_wf, thread_at, thread_map, thread_pos, ProjectorView};
use crate::subscription::{note_seq, seen_seq};
use crate::thread::{
    bootstrap_spec, can_queue_turn, change_message_spec, complete_tool_spec, start_message_spec, start_tool_spec,
    update_tool_spec, events_after_spec, events_newer_than, lemma_queue_messages,
    queue_message_step, queue_messages, queue_turn_spec, record_event, replay_kept, start_turn_spec, terminal_turn_spec, turn_index, turn_is,
    turn_lookup_error, ThreadStateView,
};

verus! {

/// Every kept thread is keyed by its own id and its replay is ordered, as
/// [`crate::store::EventLog::lemma_ordered`] guarantees of a store.
pub open spec fn log_well_kept(m: Map<ThreadId, ThreadLogView>) -> bool {
    forall|id: ThreadId| #[trigger] m.contains_key(id) ==> m[id].thread_id == id && thread_ordered(m[id])
}

proof fn lemma_newer_than_all_old(s: Seq<EventView>, seq: u64)
    requires
        forall|i: int| 0 <= i < s.len() ==> (#[trigger] s[i]).seq <= seq,
    ensures
        events_newer_than(s, seq) == Seq::<EventView>::empty(),
    decreases s.len(),
{
    if s.len() > 0 {
        lemma_newer_than_all_old(s.drop_last(), seq);
    }
}

proof fn lemma_newer_than_members(s: Seq<EventView>, seq: u64)
    ensures
        forall|i: int| 0 <= i < events_newer_than(s, seq).len() ==> (#[trigger] events_newer_than(s, seq)[i]).seq > seq
            && s.contains(events_newer_than(s, seq)[i]),
    decreases s.len(),
{
    if s.len() > 0 {
        lemma_newer_than_members(s.drop_last(), seq);
        let r = events_newer_than(s.drop_last(), seq);
        assert forall|i: int| 0 <= i < events_newer_than(s, seq).len() implies (#[trigger] events_newer_than(s, seq)[i]).seq > seq
            && s.contains(events_newer_than(s, seq)[i]) by {
            if i < r.len() {
                assert(s.drop_last().contains(r[i]));
                let j = choose|j: int| 0 <= j < s.drop_last().len() && s.drop_last()[j] == r[i];
                assert(s[j] == r[i]);
            } else {
                assert(s[s.len() - 1] == s.last());
            }
        }
    }
}

/// Read after write: once an event is accepted, replaying its thread from
/// just before it gives back exactly that event (with or without a bound on
/// retained events).
pub proof fn law_append_then_replay(m: Map<ThreadId, ThreadLogView>, e: EventView, cap: Option<usize>)
    requires
        log_well_kept(m),
        rejects(m, e).is_none(),
        cap matches Some(c) ==> c > 0,
    ensures
        replay(appended(m, e, cap), RuntimeCursor { thread_id: e.thread_id, seq: (e.seq - 1) as u64 }) == Ok::<
            Seq<EventView>,
            ErrorView,
        >(seq![e]),
{
    let old_events = entry_in(m, e.thread_id).events;
    let latest = latest_in(m, e.thread_id);
    let s = old_events.push(e);
    let kept = keep_newest(s, cap);
    let t = appended(m, e, cap)[e.thread_id];
    assert(t.events == kept);
    assert forall|i: int| 0 <= i < old_events.len() implies (#[trigger] old_events[i]).seq <= latest by {
    }
    let k = kept.len();
    assert(k > 0 && kept[k - 1] == e) by {
        match cap {
            Some(c) => if s.len() > c {
                assert(kept[k - 1] == s[s.len() - 1]);
            },
            None => {},
        }
    }
    assert(kept.drop_last().len() == k - 1);
    assert forall|i: int| 0 <= i < kept.drop_last().len() implies (#[trigger] kept.drop_last()[i]).seq <= e.seq - 1 by {
        let j = match cap {
            Some(c) => if s.len() > c {
                i + s.len() - c
            } else {
                i
            },
            None => i,
        };
        assert(kept.drop_last()[i] == s[j]);
        assert(j < old_events.len());
        assert(old_events[j].seq <= latest);
    }
    lemma_newer_than_all_old(kept.drop_last(), (e.seq - 1) as u64);
    assert(kept[0].seq <= e.seq) by {
        if k > 1 {
            assert(kept.drop_last()[0] == kept[0]);
        }
    }
    assert(oldest_available(t) <= e.seq);
}

/// After a thread is invalidated at `latest`, every cursor before `latest`
/// is stale and the cursor at `latest` replays nothing.
pub proof fn law_invalidate_marks_stale(m: Map<ThreadId, ThreadLogView>, id: ThreadId, latest: u64, requested: u64)
    requires
        latest < u64::MAX,
    ensures
        requested < latest ==> replay(invalidated(m, id, latest), RuntimeCursor { thread_id: id, seq: requested }) == Err::<
            Seq<EventView>,
            ErrorView,
        >(
            ErrorView::StaleRuntime {
                thread_id: id,
                requested_seq: requested,
                oldest_available_seq: (latest + 1) as u64,
                latest_seq: latest,
            },
        ),
        replay(invalidated(m, id, latest), RuntimeCursor { thread_id: id, seq: latest }) == Ok::<Seq<EventView>, ErrorView>(
            Seq::empty(),
        ),
{
}

/// A replay holds only events of the cursor's thread, after the cursor, in
/// strictly ascending order.
pub proof fn law_replay_is_after_cursor(m: Map<ThreadId, ThreadLogView>, cursor: RuntimeCursor)
    requires
        log_well_kept(m),
    ensures
        replay(m, cursor) matches Ok(es) ==> {
            &&& forall|i: int| 0 <= i < es.len() ==> (#[trigger] es[i]).seq > cursor.seq && es[i].thread_id == cursor.thread_id
            &&& forall|i: int, j: int| 0 <= i < j < es.len() ==> (#[trigger] es[i]).seq < (#[trigger] es[j]).seq
        },
{
    if m.contains_key(cursor.thread_id) {
        let t = m[cursor.thread_id];
        let es = events_newer_than(t.events, cursor.seq);
        lemma_newer_than_members(t.events, cursor.seq);
        lemma_newer_than_ordered(t.events, cursor.seq);
        assert forall|i: int| 0 <= i < es.len() implies (#[trigger] es[i]).thread_id == cursor.thread_id by {
            assert(t.events.contains(es[i]));
        }
    }
}

proof fn lemma_newer_than_ordered(s: Seq<EventView>, seq: u64)
    requires
        forall|i: int, j: int| 0 <= i < j < s.len() ==> (#[trigger] s[i]).seq < (#[trigger] s[j]).seq,
    ensures
        forall|i: int, j: int| 0 <= i < j < events_newer_than(s, seq).len() ==> (#[trigger] events_newer_than(s, seq)[i]).seq
            < (#[trigger] events_newer_than(s, seq)[j]).seq,
    decreases s.len(),
{
    if s.len() > 0 {
        let p = s.drop_last();
        assert forall|i: int, j: int| 0 <= i < j < p.len() implies (#[trigger] p[i]).seq < (#[trigger] p[j]).seq by {
            assert(p[i] == s[i] && p[j] == s[j]);
        }
        lemma_newer_than_ordered(p, seq);
        lemma_newer_than_members(p, seq);
        let r = events_newer_than(p, seq);
        assert forall|i: int| 0 <= i < r.len() implies (#[trigger] r[i]).seq < s.last().seq by {
            assert(p.contains(r[i]));
            let j = choose|j: int| 0 <= j < p.len() && p[j] == r[i];
            assert(s[j] == p[j]);
        }
    }
}

/// A bounded store never keeps more than its capacity of events per thread.
pub proof fn law_capacity_bounds_replay(m: Map<ThreadId, ThreadLogView>, e: EventView, c: usize)
    ensures
        appended(m, e, Some(c))[e.thread_id].events.len() <= c,
{
}

/// Splitting a conversation for compaction loses and reorders nothing, and a
/// split turn's prefix starts at its user message.
pub proof fn law_compaction_split_partitions(s: Seq<ChatMessageView>, k: int)
    requires
        0 <= k <= s.len(),
    ensures
        ({
            let p = compaction_split(s, k);
            &&& p.0 + p.1 + p.2 == s
            &&& p.3 ==> p.1.len() > 0 && p.1[0].role == Role::User
            &&& p.2 == s.skip(k)
        }),
{
    lemma_last_user_in_range(s, k);
    let p = compaction_split(s, k);
    if k >= s.len() || last_user_before(s, k) < 0 {
        assert(p.0 + p.1 + p.2 =~= s);
    } else {
        let u = last_user_before(s, k);
        assert(p.0 + p.1 + p.2 =~= s);
    }
}

proof fn lemma_last_user_in_range(s: Seq<ChatMessageView>, k: int)
    requires
        0 <= k <= s.len(),
    ensures
        -1 <= last_user_before(s, k) < k,
        last_user_before(s, k) >= 0 ==> s[last_user_before(s, k)].role == Role::User,
    decreases k,
{
    if k > 0 && s[k - 1].role != Role::User {
        lemma_last_user_in_range(s, k - 1);
    }
}

/// A closed turn stays closed: once completing, failing or canceling a
/// turn succeeds, any further attempt to close it is refused with
/// `AlreadyTerminal` and the status it was closed with, changing nothing.
pub proof fn law_closed_turn_stays_closed(
    t: ThreadStateView,
    id: TurnId,
    status: TurnStatus,
    error: Option<Seq<char>>,
    now: i64,
    status2: TurnStatus,
    error2: Option<Seq<char>>,
    now2: i64,
)
    requires
        spec_is_terminal(status),
        terminal_turn_spec(t, id, status, error, now).1 is Ok,
    ensures
        ({
            let t2 = terminal_turn_spec(t, id, status, error, now).0;
            terminal_turn_spec(t2, id, status2, error2, now2) == (t2, Err::<EventView, ErrorView>(
                ErrorView::AlreadyTerminal { turn_id: id, status },
            ))
        }),
{
    let i = turn_index(t, id);
    lemma_first_index_spec(t.snapshot.turns, turn_is(id));
    let turn = t.snapshot.turns[i];
    let done = crate::domain::TurnView { status, completed_at: Some(now), error, ..turn };
    lemma_first_index_update(t.snapshot.turns, i, done, turn_is(id));
}

/// Replacing a thread's history makes every turn id minted before stale:
/// closing such a turn is refused with `StaleRuntime` at the new revision.
pub proof fn law_bootstrap_makes_turns_stale(
    t: ThreadStateView,
    messages: Seq<ChatMessageView>,
    now: i64,
    id: TurnId,
    status: TurnStatus,
    error: Option<Seq<char>>,
    now2: i64,
)
    requires
        t.snapshot.revision < u64::MAX,
        id.revision == t.snapshot.revision,
    ensures
        ({
            let b = bootstrap_spec(t, messages, now);
            terminal_turn_spec(b, id, status, error, now2) == (b, Err::<EventView, ErrorView>(
                ErrorView::StaleRuntime {
                    thread_id: t.snapshot.thread_id,
                    requested_seq: id.revision,
                    oldest_available_seq: (t.snapshot.revision + 1) as u64,
                    latest_seq: (t.snapshot.revision + 1) as u64,
                },
            ))
        }),
{
}

/// Recording an event gives it the thread's next sequence number, which
/// becomes the thread's latest.
pub proof fn law_event_takes_next_seq(
    t: ThreadStateView,
    turn_id: Option<TurnId>,
    payload: crate::event::PayloadView,
    now: i64,
)
    requires
        t.snapshot.last_seq < u64::MAX,
    ensures
        record_event(t, turn_id, payload, now).1.seq == t.snapshot.last_seq + 1,
        record_event(t, turn_id, payload, now).0.snapshot.last_seq == t.snapshot.last_seq + 1,
        record_event(t, turn_id, payload, now).1.thread_id == t.snapshot.thread_id,
{
}

proof fn lemma_queue_messages_seqs(t: ThreadStateView, id: TurnId, msgs: Seq<ChatMessageView>, now: i64)
    requires
        turn_index(t, id) >= 0,
        t.snapshot.last_seq + 2 * msgs.len() <= u64::MAX,
        t.next_message_ordinal + msgs.len() <= u64::MAX,
    ensures
        ({
            let (t2, es) = queue_messages(t, id, msgs, now);
            &&& es.len() == 2 * msgs.len()
            &&& forall|k: int| 0 <= k < es.len() ==> (#[trigger] es[k]).seq == t.snapshot.last_seq + 1 + k
                && es[k].thread_id == t.snapshot.thread_id
            &&& forall|k: int| 0 <= k < es.len() ==> ((#[trigger] es[k]).payload is MessageStarted <==> k % 2 == 0)
                && (es[k].payload is MessageCompleted <==> k % 2 == 1)
        }),
    decreases msgs.len(),
{
    lemma_queue_messages(t, id, msgs, now);
    if msgs.len() > 0 {
        lemma_queue_messages_seqs(t, id, msgs.drop_last(), now);
        lemma_queue_messages(t, id, msgs.drop_last(), now);
        let (t1, es1) = queue_messages(t, id, msgs.drop_last(), now);
        let (t2, es2) = queue_message_step(t1, id, msgs.last(), now);
        let es = es1 + es2;
        assert(es2.len() == 2);
        assert forall|k: int| 0 <= k < es.len() implies (#[trigger] es[k]).seq == t.snapshot.last_seq + 1 + k
            && es[k].thread_id == t.snapshot.thread_id by {
            if k < es1.len() {
                assert(es[k] == es1[k]);
            } else {
                assert(es[k] == es2[k - es1.len()]);
            }
        }
        assert forall|k: int| 0 <= k < es.len() implies ((#[trigger] es[k]).payload is MessageStarted <==> k % 2 == 0)
            && (es[k].payload is MessageCompleted <==> k % 2 == 1) by {
            if k < es1.len() {
                assert(es[k] == es1[k]);
            } else {
                assert(es[k] == es2[k - es1.len()]);
                assert((k - es1.len()) % 2 == k % 2);
            }
        }
    }
}

proof fn lemma_queue_messages_appends(t: ThreadStateView, id: TurnId, msgs: Seq<ChatMessageView>, now: i64)
    requires
        turn_index(t, id) >= 0,
        t.snapshot.last_seq + 2 * msgs.len() <= u64::MAX,
        t.next_message_ordinal + msgs.len() <= u64::MAX,
        forall|j: int| 0 <= j < t.snapshot.messages.len() ==> (#[trigger] t.snapshot.messages[j]).message_id.ordinal
            < t.next_message_ordinal,
    ensures
        ({
            let t2 = queue_messages(t, id, msgs, now).0;
            let n = t.snapshot.messages.len() as int;
            &&& t2.snapshot.messages.len() == n + msgs.len()
            &&& forall|j: int| 0 <= j < n ==> #[trigger] t2.snapshot.messages[j] == t.snapshot.messages[j]
            &&& forall|j: int| 0 <= j < msgs.len() ==> {
                &&& (#[trigger] t2.snapshot.messages[n + j]).payload == msgs[j]
                &&& t2.snapshot.messages[n + j].status == MessageStatus::Completed
                &&& t2.snapshot.messages[n + j].turn_id == id
            }
            &&& forall|j: int| 0 <= j < t2.snapshot.messages.len() ==> (#[trigger] t2.snapshot.messages[j]).message_id.ordinal
                < t2.next_message_ordinal
        }),
    decreases msgs.len(),
{
    if msgs.len() > 0 {
        let init = msgs.drop_last();
        lemma_queue_messages_appends(t, id, init, now);
        lemma_queue_messages(t, id, init, now);
        let t1 = queue_messages(t, id, init, now).0;
        let n = t.snapshot.messages.len() as int;
        let n1 = t1.snapshot.messages.len() as int;
        let mid = crate::thread::next_message_id(t1);
        let ta = crate::thread::add_streaming_message(t1, id, msgs.last(), now);
        let started = ta.snapshot.messages[n1];
        assert(ta.snapshot.messages == t1.snapshot.messages.push(started));
        crate::find::lemma_first_index_push(t1.snapshot.messages, started, crate::thread::message_is(mid));
        assert forall|j: int| 0 <= j < t1.snapshot.messages.len() implies !crate::thread::message_is(mid)(
            #[trigger] t1.snapshot.messages[j],
        ) by {
            assert(t1.snapshot.messages[j].message_id.ordinal < t1.next_message_ordinal);
        }
        crate::find::lemma_first_index_absent(t1.snapshot.messages, crate::thread::message_is(mid));
        assert(crate::thread::message_index(ta, mid) == n1);
        let t2 = queue_messages(t, id, msgs, now).0;
        assert(t2.snapshot.messages.len() == n1 + 1);
        assert forall|j: int| 0 <= j < n1 implies #[trigger] t2.snapshot.messages[j] == t1.snapshot.messages[j] by {}
        assert forall|j: int| 0 <= j < msgs.len() implies {
            &&& (#[trigger] t2.snapshot.messages[n + j]).payload == msgs[j]
            &&& t2.snapshot.messages[n + j].status == MessageStatus::Completed
            &&& t2.snapshot.messages[n + j].turn_id == id
        } by {
            if j < init.len() {
                assert(t2.snapshot.messages[n + j] == t1.snapshot.messages[n + j]);
                assert(init[j] == msgs[j]);
            }
        }
    }
}

/// Queueing a turn mints its id in the thread's current revision and emits
/// one event for the turn and two for each input message, numbered
/// consecutively after the thread's latest sequence number.
pub proof fn law_queue_turn_numbering(t: ThreadStateView, input: Seq<ChatMessageView>, now: i64)
    requires
        can_queue_turn(t, input.len()),
    ensures
        ({
            let (t2, id, es) = queue_turn_spec(t, input, now);
            &&& id.thread_id == t.snapshot.thread_id
            &&& id.revision == t.snapshot.revision
            &&& es.len() == 1 + 2 * input.len()
            &&& forall|k: int| 0 <= k < es.len() ==> (#[trigger] es[k]).seq == t.snapshot.last_seq + 1 + k
                && es[k].thread_id == t.snapshot.thread_id
            &&& t2.snapshot.last_seq == t.snapshot.last_seq + es.len()
            &&& t.snapshot.active_turn_id.is_none() ==> t2.snapshot.active_turn_id == Some(id)
            &&& id.ordinal == t.next_turn_ordinal
            &&& t2.next_turn_ordinal == t.next_turn_ordinal + 1
            &&& t2.next_message_ordinal == t.next_message_ordinal + input.len()
            &&& es[0].payload is TurnQueued
            &&& forall|k: int| 1 <= k < es.len() ==> ((#[trigger] es[k]).payload is MessageStarted <==> k % 2 == 1)
                && (es[k].payload is MessageCompleted <==> k % 2 == 0)
            &&& (forall|j: int| 0 <= j < t.snapshot.turns.len() ==> (#[trigger] t.snapshot.turns[j]).turn_id.ordinal
                < t.next_turn_ordinal) ==> forall|j: int| 0 <= j < t.snapshot.turns.len() ==> (#[trigger] t.snapshot.turns[j]).turn_id != id
            &&& t.snapshot.active_turn_id.is_some() ==> t2.snapshot.active_turn_id == t.snapshot.active_turn_id
            &&& (forall|j: int| 0 <= j < t.snapshot.messages.len() ==> (#[trigger] t.snapshot.messages[j]).message_id.ordinal
                < t.next_message_ordinal) ==> {
                let n = t.snapshot.messages.len() as int;
                &&& t2.snapshot.messages.len() == n + input.len()
                &&& forall|j: int| 0 <= j < n ==> #[trigger] t2.snapshot.messages[j] == t.snapshot.messages[j]
                &&& forall|j: int| 0 <= j < input.len() ==> {
                    &&& (#[trigger] t2.snapshot.messages[n + j]).payload == input[j]
                    &&& t2.snapshot.messages[n + j].status == MessageStatus::Completed
                    &&& t2.snapshot.messages[n + j].turn_id == id
                }
            }
        }),
{
    let id = crate::thread::next_turn_id(t);
    let t1 = crate::thread::add_queued_turn(t, now);
    crate::find::lemma_first_index_push(t.snapshot.turns, crate::thread::queued_turn(t, now), turn_is(id));
    lemma_first_index_spec(t.snapshot.turns, turn_is(id));
    if turn_index(t, id) >= 0 {
        assert(t.snapshot.turns[turn_index(t, id)].turn_id == id);
    }
    let (t2, e0) = record_event(t1, Some(id), crate::event::PayloadView::TurnQueued {
        turn: t1.snapshot.turns[turn_index(t1, id)],
    }, now);
    lemma_queue_messages_seqs(t2, id, input, now);
    lemma_queue_messages(t2, id, input, now);
    if forall|j: int| 0 <= j < t.snapshot.messages.len() ==> (#[trigger] t.snapshot.messages[j]).message_id.ordinal
        < t.next_message_ordinal {
        assert(t2.snapshot.messages == t.snapshot.messages);
        lemma_queue_messages_appends(t2, id, input, now);
    }
    let (t3, es) = queue_messages(t2, id, input, now);
    let all = seq![e0] + es;
    assert forall|k: int| 0 <= k < all.len() implies (#[trigger] all[k]).seq == t.snapshot.last_seq + 1 + k
        && all[k].thread_id == t.snapshot.thread_id by {
        if k > 0 {
            assert(all[k] == es[k - 1]);
        }
    }
    assert forall|k: int| 1 <= k < all.len() implies ((#[trigger] all[k]).payload is MessageStarted <==> k % 2 == 1)
        && (all[k].payload is MessageCompleted <==> k % 2 == 0) by {
        assert(all[k] == es[k - 1]);
        assert((k - 1) % 2 == 0 <==> k % 2 == 1);
    }
}

/// Canceling a turn leaves none of its approvals pending.
pub proof fn law_cancel_settles_approvals(t: ThreadStateView, id: TurnId, now: i64)
    requires
        terminal_turn_spec(t, id, TurnStatus::Canceled, None, now).1 is Ok,
    ensures
        forall|k: int| 0 <= k < terminal_turn_spec(t, id, TurnStatus::Canceled, None, now).0.snapshot.approvals.len()
            ==> (#[trigger] terminal_turn_spec(t, id, TurnStatus::Canceled, None, now).0.snapshot.approvals[k]).turn_id == id
            ==> terminal_turn_spec(t, id, TurnStatus::Canceled, None, now).0.snapshot.approvals[k].status != ApprovalStatus::Pending,
{
}

/// Closing the thread's active turn leaves the thread with no active turn.
pub proof fn law_closing_active_turn_clears_it(
    t: ThreadStateView,
    id: TurnId,
    status: TurnStatus,
    error: Option<Seq<char>>,
    now: i64,
)
    requires
        t.snapshot.active_turn_id == Some(id),
        terminal_turn_spec(t, id, status, error, now).1 is Ok,
    ensures
        terminal_turn_spec(t, id, status, error, now).0.snapshot.active_turn_id.is_none(),
{
}

/// Replay is scoped to its thread: a cursor for another thread is refused
/// with `ThreadNotFound`.
pub proof fn law_replay_is_thread_scoped(t: ThreadStateView, cursor: RuntimeCursor)
    requires
        cursor.thread_id != t.snapshot.thread_id,
    ensures
        events_after_spec(t, cursor) == Err::<Seq<EventView>, ErrorView>(ErrorView::ThreadNotFound { thread_id: cursor.thread_id }),
{
}

/// An operation on one thread leaves every other thread as it was, and the
/// projector keeps its order and its default thread.
pub proof fn law_other_threads_untouched<R>(p: ProjectorView, id: ThreadId, step: (ThreadStateView, Result<R, ErrorView>), other: ThreadId)
    requires
        projector_wf(p),
        step.0.snapshot.thread_id == id,
        other != id,
    ensures
        projector_wf(lift(p, id, step).0),
        thread_map(lift(p, id, step).0).contains_key(other) == thread_map(p).contains_key(other),
        thread_map(p).contains_key(other) ==> thread_map(lift(p, id, step).0)[other] == thread_map(p)[other],
{
    if crate::projector::thread_pos(p, id) >= 0 {
        crate::projector::lemma_replace_keeps_wf(p, id, step.0);
        let q = lift(p, id, step).0;
        lemma_first_index_spec(p.threads, crate::projector::thread_is(other));
        lemma_first_index_spec(p.threads, crate::projector::thread_is(id));
        if crate::projector::thread_pos(p, other) >= 0 {
            assert(crate::projector::thread_pos(p, other) != crate::projector::thread_pos(p, id));
        }
    }
}

/// After a subscription sees `seq` on a thread, the thread's latest is at
/// least `seq`, so no event up to it is delivered again; other threads keep
/// their latest.
pub proof fn law_seen_events_not_redelivered(entries: Seq<(ThreadId, u64)>, id: ThreadId, seq: u64, other: ThreadId)
    ensures
        seen_seq(note_seq(entries, id, seq), id) matches Some(s) && s >= seq,
        other != id ==> seen_seq(note_seq(entries, id, seq), other) == seen_seq(entries, other),
    decreases entries.len(),
{
    let n = note_seq(entries, id, seq);
    if entries.len() > 0 && entries[0].0 != id {
        law_seen_events_not_redelivered(entries.drop_first(), id, seq, other);
        assert(n[0] == entries[0]);
        assert(n.drop_first() =~= note_seq(entries.drop_first(), id, seq));
        if other != id && other != entries[0].0 {
            assert(seen_seq(n, other) == seen_seq(n.drop_first(), other));
            assert(seen_seq(entries, other) == seen_seq(entries.drop_first(), other));
        }
        assert(seen_seq(n, id) == seen_seq(n.drop_first(), id));
    } else if entries.len() > 0 {
        assert(n.drop_first() =~= entries.drop_first());
        if other != id {
            assert(seen_seq(n, other) == seen_seq(n.drop_first(), other));
            assert(seen_seq(entries, other) == seen_seq(entries.drop_first(), other));
        }
    } else {
        assert(n.drop_first() =~= Seq::<(ThreadId, u64)>::empty());
        if other != id {
            assert(seen_seq(n, other) == seen_seq(n.drop_first(), other));
        }
    }
}

/// Replacing a thread's history imports it exactly and quietly: the
/// revision grows by one; every message comes back in order, completed and
/// minted in the new revision; a non-empty history forms one completed turn
/// that lists the messages in order; nothing is active, no tool, approval or
/// interaction is kept, and the imported history is not offered for replay.
pub proof fn law_bootstrap_imports_history(t: ThreadStateView, messages: Seq<ChatMessageView>, now: i64)
    requires
        t.snapshot.revision < u64::MAX,
    ensures
        ({
            let b = bootstrap_spec(t, messages, now);
            &&& b.snapshot.thread_id == t.snapshot.thread_id
            &&& b.snapshot.revision == t.snapshot.revision + 1
            &&& b.events.len() == 0
            &&& b.snapshot.active_turn_id.is_none()
            &&& b.snapshot.tools.len() == 0
            &&& b.snapshot.approvals.len() == 0
            &&& b.snapshot.human_interactions.len() == 0
            &&& b.snapshot.messages.len() == messages.len()
            &&& forall|k: int|
                0 <= k < messages.len() ==> {
                    let m = #[trigger] b.snapshot.messages[k];
                    &&& m.payload == messages[k]
                    &&& m.status == MessageStatus::Completed
                    &&& m.completed_at.is_some()
                    &&& m.message_id.revision == b.snapshot.revision
                }
            &&& messages.len() == 0 ==> b.snapshot.turns.len() == 0
            &&& messages.len() > 0 ==> {
                &&& b.snapshot.turns.len() == 1
                &&& b.snapshot.turns[0].status == TurnStatus::Completed
                &&& b.snapshot.turns[0].turn_id.revision == b.snapshot.revision
                &&& b.snapshot.turns[0].message_ids == b.snapshot.messages.map_values(|m: MessageView| m.message_id)
            }
        }),
{
    let b = bootstrap_spec(t, messages, now);
    if messages.len() > 0 {
        assert(b.snapshot.turns[0].message_ids =~= b.snapshot.messages.map_values(|m: MessageView| m.message_id));
    }
}

/// Closing a turn a second time changes nothing: any further close is
/// refused with `AlreadyTerminal` and the status the turn was closed with,
/// which the runtime answers with nothing to publish when the status is the
/// same.
pub proof fn law_repeat_close_changes_nothing(
    t: ThreadStateView,
    id: TurnId,
    status: TurnStatus,
    error: Option<Seq<char>>,
    now: i64,
    status2: TurnStatus,
    error2: Option<Seq<char>>,
    now2: i64,
)
    requires
        spec_is_terminal(status),
        spec_is_terminal(status2),
        terminal_events_spec(t, id, status, error, now).1 is Ok,
    ensures
        ({
            let t2 = terminal_events_spec(t, id, status, error, now).0;
            &&& terminal_events_spec(t2, id, status2, error2, now2) == (t2, Err::<Seq<EventView>, ErrorView>(
                ErrorView::AlreadyTerminal { turn_id: id, status },
            ))
            &&& terminal_outcome(terminal_events_spec(t2, id, status, error2, now2).1, status) == Ok::<
                Option<Seq<EventView>>,
                RociErrorView,
            >(None)
        }),
{
    let last = match status {
        TurnStatus::Canceled => {
            let t1 = cancel_pending_approvals_spec(t, id, now).0;
            cancel_pending_interactions_spec(t1, id, now).0
        },
        _ => t,
    };
    let closed_error = match status {
        TurnStatus::Failed => error,
        _ => None,
    };
    law_closed_turn_stays_closed(last, id, status, closed_error, now, status2, error2, now2);
    law_closed_turn_stays_closed(last, id, status, closed_error, now, status, error2, now2);
}

/// Launching with no overrides leaves a resolved profile as it is.
pub proof fn law_empty_overrides_keep_profile(p: ProfileView, o: SubagentOverrides)
    requires
        o.system_prompt.is_none(),
        o.model.is_none(),
        o.tools.is_none(),
        o.timeout_ms.is_none(),
    ensures
        override_spec(p, o) == p,
{
}

proof fn lemma_none_newer(s: Seq<EventView>, seq: u64)
    requires
        forall|i: int| 0 <= i < s.len() ==> (#[trigger] s[i]).seq <= seq,
    ensures
        events_newer_than(s, seq) == Seq::<EventView>::empty(),
    decreases s.len(),
{
    if s.len() > 0 {
        let p = s.drop_last();
        assert forall|i: int| 0 <= i < p.len() implies (#[trigger] p[i]).seq <= seq by {
            assert(p[i] == s[i]);
        }
        lemma_none_newer(p, seq);
    }
}

/// Read after write on a thread: an event just emitted is what a replay from
/// the cursor just before it gives back, whenever the thread retains events.
pub proof fn law_emitted_event_is_replayed(
    t: ThreadStateView,
    turn_id: Option<TurnId>,
    payload: crate::event::PayloadView,
    now: i64,
)
    requires
        t.snapshot.last_seq < u64::MAX,
        t.replay_capacity > 0,
        forall|i: int| 0 <= i < t.events.len() ==> (#[trigger] t.events[i]).seq <= t.snapshot.last_seq,
    ensures
        ({
            let (t2, e) = record_event(t, turn_id, payload, now);
            events_after_spec(t2, RuntimeCursor { thread_id: t.snapshot.thread_id, seq: t.snapshot.last_seq })
                == Ok::<Seq<EventView>, ErrorView>(seq![e])
        }),
{
    let (t2, e) = record_event(t, turn_id, payload, now);
    let last = t.snapshot.last_seq;
    let s = t.events.push(e);
    let kept = t2.events;
    assert(kept.len() > 0 && kept.last() == e && kept.drop_last().len() < s.len()) by {
        if s.len() > t.replay_capacity {
            assert(kept =~= s.subrange(s.len() - t.replay_capacity, s.len() as int));
        }
    }
    let before = kept.drop_last();
    assert forall|i: int| 0 <= i < before.len() implies (#[trigger] before[i]).seq <= last by {
        if s.len() > t.replay_capacity {
            let off = s.len() - t.replay_capacity;
            assert(before[i] == s[off + i]);
            assert(s[off + i] == t.events[off + i]);
        } else {
            assert(before[i] == t.events[i]);
        }
    }
    lemma_none_newer(before, last);
    assert(kept.drop_last() == before);
    assert(events_newer_than(kept, last) =~= seq![e]);
    assert(kept[0].seq <= e.seq) by {
        if kept.len() > 1 {
            assert(kept[0] == before[0]);
        }
    }
}

/// Closing a turn that is already closed (whoever closed it) is refused
/// with `AlreadyTerminal` and the turn's status, changing nothing; the
/// runtime answers a close with that same status with nothing to publish.
pub proof fn law_closing_closed_turn_is_refused(
    t: ThreadStateView,
    id: TurnId,
    status: TurnStatus,
    error: Option<Seq<char>>,
    now: i64,
)
    requires
        turn_lookup_error(t, id).is_none(),
        spec_is_terminal(t.snapshot.turns[turn_index(t, id)].status),
        spec_is_terminal(status),
    ensures
        ({
            let closed = t.snapshot.turns[turn_index(t, id)].status;
            &&& terminal_events_spec(t, id, status, error, now) == (t, Err::<Seq<EventView>, ErrorView>(
                ErrorView::AlreadyTerminal { turn_id: id, status: closed },
            ))
            &&& terminal_outcome(terminal_events_spec(t, id, closed, error, now).1, closed) == Ok::<
                Option<Seq<EventView>>,
                RociErrorView,
            >(None)
        }),
{
}

/// A compaction override is accepted exactly when its trimmed summary is not
/// empty, its first kept entry is within `1..=len` and is not a tool result,
/// and its token count matches the estimates of the entries before it.
pub proof fn law_override_accepted_iff(o: CompactionOverrideView, msgs: Seq<ChatMessageView>, estimates: Seq<usize>)
    ensures
        checked_override(o, msgs, estimates) is Ok <==> {
            let k = o.first_kept_entry_id as int;
            &&& trimmed(o.summary).len() > 0
            &&& 1 <= k <= msgs.len()
            &&& (k == msgs.len() || msgs[k].role != Role::Tool)
            &&& o.tokens_before == token_sum(estimates, k)
        },
{
}

/// An accepted override keeps its boundary and token count, trims its
/// summary and details (dropping blank details), and is accepted unchanged
/// when checked again.
pub proof fn law_override_check_is_idempotent(
    o: CompactionOverrideView,
    msgs: Seq<ChatMessageView>,
    estimates: Seq<usize>,
)
    requires
        checked_override(o, msgs, estimates) is Ok,
    ensures
        ({
            let v = checked_override(o, msgs, estimates)->Ok_0;
            &&& v.summary == trimmed(o.summary)
            &&& v.first_kept_entry_id == o.first_kept_entry_id
            &&& v.tokens_before == o.tokens_before
            &&& v.details == match o.details {
                Some(d) => if trimmed(d).len() == 0 {
                    None
                } else {
                    Some(trimmed(d))
                },
                None => None,
            }
            &&& checked_override(v, msgs, estimates) == Ok::<CompactionOverrideView, RociErrorView>(v)
        }),
{
    lemma_trimmed_idempotent(o.summary);
    match o.details {
        Some(d) => lemma_trimmed_idempotent(d),
        None => {},
    }
}

/// The state that replaying records builds.
pub open spec fn replay_records(m: Map<ThreadId, ThreadLogView>, rs: Seq<RecordView>) -> Map<ThreadId, ThreadLogView>
    decreases rs.len(),
{
    if rs.len() == 0 {
        m
    } else {
        record_effect(replay_records(m, rs.drop_last()), rs.last()).0
    }
}

/// What the writer does with a record it commits: append the event, append
/// the batch, or invalidate the thread.
pub open spec fn written_effect(m: Map<ThreadId, ThreadLogView>, r: RecordView) -> Map<ThreadId, ThreadLogView> {
    match r {
        RecordView::Event { event } => appended(m, event, None),
        RecordView::EventBatch { events } => appended_all(m, events),
        RecordView::ThreadInvalidated { thread_id, latest_seq } => invalidated(m, thread_id, latest_seq),
    }
}

/// The writer accepts `r` in state `m`: events must advance their threads.
pub open spec fn writer_accepts(m: Map<ThreadId, ThreadLogView>, r: RecordView) -> bool {
    match r {
        RecordView::Event { event } => rejects(m, event).is_none(),
        RecordView::EventBatch { events } => batch_rejects(m, events).is_none(),
        RecordView::ThreadInvalidated { .. } => true,
    }
}

/// The writer's state after committing `rs`, each accepted in turn.
pub open spec fn written_records(m: Map<ThreadId, ThreadLogView>, rs: Seq<RecordView>) -> Map<ThreadId, ThreadLogView>
    decreases rs.len(),
{
    if rs.len() == 0 {
        m
    } else {
        written_effect(written_records(m, rs.drop_last()), rs.last())
    }
}

/// Every record of `rs` was accepted by the writer when it was committed.
pub open spec fn all_accepted(m: Map<ThreadId, ThreadLogView>, rs: Seq<RecordView>) -> bool
    decreases rs.len(),
{
    rs.len() == 0 || (all_accepted(m, rs.drop_last()) && writer_accepts(written_records(m, rs.drop_last()), rs.last()))
}

/// Reopening the durable store rebuilds the writer's state: replaying the
/// records the writer committed refuses none of them and yields what the
/// writer held.
pub proof fn law_reopen_equals_writer(m: Map<ThreadId, ThreadLogView>, rs: Seq<RecordView>)
    requires
        all_accepted(m, rs),
    ensures
        replay_records(m, rs) == written_records(m, rs),
        forall|i: int| 0 <= i < rs.len() ==> (#[trigger] record_effect(replay_records(m, rs.take(i)), rs[i])).1.is_none(),
    decreases rs.len(),
{
    if rs.len() > 0 {
        let p = rs.drop_last();
        law_reopen_equals_writer(m, p);
        assert forall|i: int| 0 <= i < rs.len() implies (#[trigger] record_effect(replay_records(m, rs.take(i)), rs[i])).1.is_none() by {
            if i < p.len() {
                assert(rs.take(i) =~= p.take(i));
                assert(rs[i] == p[i]);
            } else {
                assert(rs.take(i) =~= p);
            }
        }
    }
}

/// A batch is all or nothing: a refused batch record leaves the state as it
/// was, an accepted one appends every event.
pub proof fn law_batch_is_atomic(m: Map<ThreadId, ThreadLogView>, events: Seq<EventView>)
    ensures
        batch_rejects(m, events) is Some ==> record_effect(m, RecordView::EventBatch { events }) == (
            m,
            batch_rejects(m, events),
        ),
        batch_rejects(m, events) is None ==> record_effect(m, RecordView::EventBatch { events }) == (
            appended_all(m, events),
            None::<ErrorView>,
        ),
{
}

/// The agent-loop events that reach the projection.
pub open spec fn projects(ev: AgentEvent) -> bool {
    ||| ev is TurnStart
    ||| ev is MessageStart
    ||| ev is MessageUpdate
    ||| ev is MessageEnd
    ||| ev is ToolExecutionStart
    ||| ev is ToolExecutionUpdate
    ||| ev is ToolExecutionEnd
}

/// The run's turn is started at most once: an event of a kind that does not
/// project changes nothing and emits nothing; a turn start after the turn
/// was started emits nothing; before, a successful turn start emits exactly
/// one `TurnStarted` event and marks the run started.
pub proof fn law_turn_started_once(t: ThreadStateView, rs: ChatProjectionRunState, id: TurnId, ev: AgentEvent, now: i64)
    ensures
        ({
            let s = project_spec(t, rs, id, ev, now);
            &&& !projects(ev) ==> s == (t, rs, Ok::<Seq<EventView>, ErrorView>(Seq::empty()))
            &&& (ev is TurnStart && rs.turn_started) ==> s == (t, rs, Ok::<Seq<EventView>, ErrorView>(Seq::empty()))
            &&& (ev is TurnStart && !rs.turn_started && s.2 is Ok) ==> {
                &&& s.1.turn_started
                &&& s.2->Ok_0.len() == 1
                &&& s.2->Ok_0[0].payload is TurnStarted
            }
        }),
{
    reveal(ensure_started_spec);
}

/// No event of `s` reports a turn start.
pub open spec fn no_turn_started(s: Seq<EventView>) -> bool {
    forall|i: int| 0 <= i < s.len() ==> !((#[trigger] s[i]).payload is TurnStarted)
}

/// Loop events of one run projected in order, each at its own time: the
/// thread and run state after them, and all the events they emitted, or the
/// first refusal.
pub open spec fn project_run(
    t: ThreadStateView,
    rs: ChatProjectionRunState,
    id: TurnId,
    evs: Seq<(AgentEvent, i64)>,
) -> (ThreadStateView, ChatProjectionRunState, Result<Seq<EventView>, ErrorView>)
    decreases evs.len(),
{
    if evs.len() == 0 {
        (t, rs, Ok(Seq::empty()))
    } else {
        let prev = project_run(t, rs, id, evs.drop_last());
        match prev.2 {
            Err(e) => (prev.0, prev.1, Err(e)),
            Ok(out) => {
                let s = project_spec(prev.0, prev.1, id, evs.last().0, evs.last().1);
                match s.2 {
                    Err(e) => (s.0, s.1, Err(e)),
                    Ok(more) => (s.0, s.1, Ok(out + more)),
                }
            },
        }
    }
}

proof fn lemma_ensure_started_once(t: ThreadStateView, rs: ChatProjectionRunState, id: TurnId, now: i64)
    ensures
        ({
            let st = ensure_started_spec(t, rs, id, now);
            st.2 is Ok ==> {
                &&& st.1.turn_started
                &&& rs.turn_started ==> st.1 == rs && st.2->Ok_0.len() == 0
                &&& !rs.turn_started ==> st.1 == (ChatProjectionRunState { turn_started: true, ..rs }) && st.2->Ok_0.len()
                    == 1 && st.2->Ok_0[0].payload is TurnStarted
            }
        }),
{
    reveal(ensure_started_spec);
}

proof fn lemma_after_start_once(rs: ChatProjectionRunState, first: Projected, step: Projected)
    requires
        first.2 is Ok ==> {
            &&& first.1.turn_started
            &&& rs.turn_started ==> first.2->Ok_0.len() == 0
            &&& !rs.turn_started ==> first.2->Ok_0.len() == 1 && first.2->Ok_0[0].payload is TurnStarted
        },
        (first.2 is Ok && step.2 is Ok) ==> step.1.turn_started == first.1.turn_started && no_turn_started(step.2->Ok_0),
    ensures
        ({
            let r = after_start(first, step);
            r.2 is Ok ==> {
                &&& r.1.turn_started
                &&& rs.turn_started ==> no_turn_started(r.2->Ok_0)
                &&& !rs.turn_started ==> r.2->Ok_0.len() > 0 && r.2->Ok_0[0].payload is TurnStarted && no_turn_started(
                    r.2->Ok_0.drop_first(),
                )
            }
        }),
{
    let r = after_start(first, step);
    if r.2 is Ok {
        let a = first.2->Ok_0;
        let b = step.2->Ok_0;
        let out = r.2->Ok_0;
        assert(out == a + b);
        if rs.turn_started {
            assert(out =~= b);
        } else {
            assert(out.drop_first() =~= b);
        }
    }
}

proof fn lemma_start_message_payload(t: ThreadStateView, id: TurnId, m: ChatMessageView, now: i64)
    ensures
        start_message_spec(t, id, m, now).1 matches Ok(x) ==> x.1.payload is MessageStarted,
{
}

proof fn lemma_change_step_no_start(t: ThreadStateView, rs: ChatProjectionRunState, mid: MessageId, m: ChatMessage, complete: bool, now: i64)
    ensures
        change_step(t, rs, mid, m, complete, now).2 is Ok ==> change_step(t, rs, mid, m, complete, now).1 == rs
            && no_turn_started(change_step(t, rs, mid, m, complete, now).2->Ok_0),
{
}

proof fn lemma_open_then_change_no_start(t: ThreadStateView, rs: ChatProjectionRunState, id: TurnId, m: ChatMessage, complete: bool, keep: bool, now: i64)
    ensures
        open_then_change(t, rs, id, m, complete, keep, now).2 is Ok ==> open_then_change(t, rs, id, m, complete, keep, now).1.turn_started
            == rs.turn_started && no_turn_started(open_then_change(t, rs, id, m, complete, keep, now).2->Ok_0),
{
    let o = open_then_change(t, rs, id, m, complete, keep, now);
    if o.2 is Ok {
        let (t3, r3) = start_message_spec(t, id, m@, now);
        let mid2 = r3->Ok_0.0;
        let (t4, r4) = change_message_spec(t3, mid2, m@, complete, now);
        assert(o.2->Ok_0 == seq![r3->Ok_0.1, r4->Ok_0]);
    }
}

proof fn lemma_tool_step_no_start(
    t: ThreadStateView,
    id: TurnId,
    call_id: Seq<char>,
    name: Seq<char>,
    args: Seq<char>,
    op: spec_fn(ThreadStateView) -> (ThreadStateView, Result<EventView, ErrorView>),
    now: i64,
)
    requires
        forall|s: ThreadStateView| (#[trigger] op(s)).1 matches Ok(e) ==> !(e.payload is TurnStarted),
    ensures
        tool_step(t, id, call_id, name, args, op, now).1 is Ok ==> no_turn_started(
            tool_step(t, id, call_id, name, args, op, now).1->Ok_0,
        ),
{
    reveal(tool_step);
    let (t2, r2) = op(t);
    if r2 is Err {
        let (t3, r3) = start_tool_spec(t2, id, call_id, name, args, now);
        if r3 is Ok {
            let (t4, r4) = op(t3);
        }
    }
}

proof fn lemma_step_starts_once(t: ThreadStateView, rs: ChatProjectionRunState, id: TurnId, ev: AgentEvent, now: i64)
    ensures
        ({
            let s = project_spec(t, rs, id, ev, now);
            s.2 is Ok ==> {
                &&& rs.turn_started ==> s.1.turn_started && no_turn_started(s.2->Ok_0)
                &&& !rs.turn_started ==> {
                    &&& (s.1.turn_started <==> s.2->Ok_0.len() > 0)
                    &&& s.2->Ok_0.len() > 0 ==> s.2->Ok_0[0].payload is TurnStarted && no_turn_started(
                        s.2->Ok_0.drop_first(),
                    )
                }
                &&& ev is TurnStart ==> s.1.turn_started
            }
        }),
{
    lemma_ensure_started_once(t, rs, id, now);
    let st = ensure_started_spec(t, rs, id, now);
    match ev {
        AgentEvent::TurnStart { .. } => {
            if st.2 is Ok && !rs.turn_started {
                assert(st.2->Ok_0.drop_first() =~= Seq::<EventView>::empty());
            }
        },
        AgentEvent::MessageStart { message } => {
            if rs.remaining_context_message_lifecycles == 0 {
                lemma_start_message_payload(st.0, id, message@, now);
                let (t2, r2) = start_message_spec(st.0, id, message@, now);
                let step = match r2 {
                    Err(e) => (t2, st.1, Err(e)),
                    Ok((mid, e)) => (t2, ChatProjectionRunState { active_message_id: Some(mid), ..st.1 }, Ok(seq![e])),
                };
                lemma_after_start_once(rs, st, step);
            }
        },
        AgentEvent::MessageUpdate { message } => {
            match st.1.active_message_id {
                Some(mid) => {
                    lemma_change_step_no_start(st.0, st.1, mid, message, false, now);
                    lemma_after_start_once(rs, st, change_step(st.0, st.1, mid, message, false, now));
                },
                None => {
                    lemma_open_then_change_no_start(st.0, st.1, id, message, false, true, now);
                    lemma_after_start_once(rs, st, open_then_change(st.0, st.1, id, message, false, true, now));
                },
            }
        },
        AgentEvent::MessageEnd { message } => {
            if !rs.skipping_context_message {
                let rs2 = ChatProjectionRunState { active_message_id: None, ..st.1 };
                match st.1.active_message_id {
                    Some(mid) => {
                        lemma_change_step_no_start(st.0, rs2, mid, message, true, now);
                        lemma_after_start_once(rs, st, change_step(st.0, rs2, mid, message, true, now));
                    },
                    None => {
                        lemma_open_then_change_no_start(st.0, rs2, id, message, true, false, now);
                        lemma_after_start_once(rs, st, open_then_change(st.0, rs2, id, message, true, false, now));
                    },
                }
            }
        },
        AgentEvent::ToolExecutionStart { tool_call_id, tool_name, args } => {
            let (t2, r2) = start_tool_spec(st.0, id, tool_call_id@, tool_name@, args@, now);
            let step = match r2 {
                Err(e) => (t2, st.1, Err(e)),
                Ok(e) => (t2, st.1, Ok(seq![e])),
            };
            lemma_after_start_once(rs, st, step);
        },
        AgentEvent::ToolExecutionUpdate { tool_call_id, tool_name, args, partial_result } => {
            let op = |s: ThreadStateView| update_tool_spec(s, id, tool_call_id@, partial_result@, now);
            lemma_tool_step_no_start(st.0, id, tool_call_id@, tool_name@, args@, op, now);
            let step = tool_step(st.0, id, tool_call_id@, tool_name@, args@, op, now);
            lemma_after_start_once(rs, st, (step.0, st.1, step.1));
        },
        AgentEvent::ToolExecutionEnd { tool_call_id, tool_name, result } => {
            let op = |s: ThreadStateView| complete_tool_spec(s, id, tool_call_id@, result@, now);
            lemma_tool_step_no_start(st.0, id, tool_call_id@, tool_name@, "null"@, op, now);
            let step = tool_step(st.0, id, tool_call_id@, tool_name@, "null"@, op, now);
            lemma_after_start_once(rs, st, (step.0, st.1, step.1));
        },
        _ => {},
    }
}

/// Over a whole run, the turn is started once: starting from a run that has
/// not started its turn, the events emitted hold exactly one `TurnStarted`,
/// emitted before any other, exactly when the run state records the turn
/// as started; once a turn start has been projected the turn is started.
/// (Events of kinds that do not project change nothing; see
/// [`law_turn_started_once`].)
pub proof fn law_run_starts_turn_once(
    t: ThreadStateView,
    rs: ChatProjectionRunState,
    id: TurnId,
    evs: Seq<(AgentEvent, i64)>,
)
    requires
        !rs.turn_started,
        project_run(t, rs, id, evs).2 is Ok,
    ensures
        ({
            let r = project_run(t, rs, id, evs);
            let out = r.2->Ok_0;
            &&& (r.1.turn_started <==> out.len() > 0)
            &&& out.len() > 0 ==> out[0].payload is TurnStarted && no_turn_started(out.drop_first())
            &&& (exists|i: int| 0 <= i < evs.len() && (#[trigger] evs[i]).0 is TurnStart) ==> r.1.turn_started
        }),
    decreases evs.len(),
{
    if evs.len() > 0 {
        let init = evs.drop_last();
        let prev = project_run(t, rs, id, init);
        law_run_starts_turn_once(t, rs, id, init);
        let out0 = prev.2->Ok_0;
        let (ev, now) = evs.last();
        lemma_step_starts_once(prev.0, prev.1, id, ev, now);
        let s = project_spec(prev.0, prev.1, id, ev, now);
        let more = s.2->Ok_0;
        let out = out0 + more;
        if prev.1.turn_started {
            assert(out[0] == out0[0]);
            assert forall|i: int| 0 <= i < out.drop_first().len() implies !((#[trigger] out.drop_first()[i]).payload is TurnStarted) by {
                if i + 1 < out0.len() {
                    assert(out.drop_first()[i] == out0.drop_first()[i]);
                } else {
                    assert(out.drop_first()[i] == more[i + 1 - out0.len()]);
                }
            }
        } else {
            assert(out0.len() == 0);
            assert(out =~= more);
        }
        if exists|i: int| 0 <= i < evs.len() && (#[trigger] evs[i]).0 is TurnStart {
            let i = choose|i: int| 0 <= i < evs.len() && (#[trigger] evs[i]).0 is TurnStart;
            if i < init.len() {
                assert(init[i] == evs[i]);
            }
        }
    }
}

/// A turn that is already closed refuses to start, complete, fail or cancel
/// again: each is answered `AlreadyTerminal` with the turn's status, and the
/// projector is left exactly as it was.
pub proof fn law_closed_turn_refuses_transitions(p: ProjectorView, id: TurnId, error: Seq<char>, now: i64)
    requires
        thread_pos(p, id.thread_id) >= 0,
        id.revision == thread_at(p, id.thread_id).snapshot.revision,
        turn_index(thread_at(p, id.thread_id), id) >= 0,
        spec_is_terminal(thread_at(p, id.thread_id).snapshot.turns[turn_index(thread_at(p, id.thread_id), id)].status),
    ensures
        ({
            let t = thread_at(p, id.thread_id);
            let refused = Err::<EventView, ErrorView>(
                ErrorView::AlreadyTerminal { turn_id: id, status: t.snapshot.turns[turn_index(t, id)].status },
            );
            &&& lift(p, id.thread_id, start_turn_spec(t, id, now)) == (p, refused)
            &&& lift(p, id.thread_id, terminal_turn_spec(t, id, TurnStatus::Completed, None, now)) == (p, refused)
            &&& lift(p, id.thread_id, terminal_turn_spec(t, id, TurnStatus::Failed, Some(error), now)) == (p, refused)
            &&& lift(p, id.thread_id, terminal_turn_spec(t, id, TurnStatus::Canceled, None, now)) == (p, refused)
        }),
{
    let i = thread_pos(p, id.thread_id);
    assert(p.threads.update(i, p.threads[i]) =~= p.threads);
    assert(ProjectorView { threads: p.threads.update(i, p.threads[i]), ..p } == p);
}

/// A compaction keeps the leading system messages, puts the summary message
/// right after them, and then keeps a suffix of the conversation, having
/// summarized at least one of its messages: whenever what is summarized (not
/// empty), a split turn's prefix and the kept messages follow one another
/// to make up the conversation. So it never lengthens the history.
pub proof fn law_compaction_keeps_prefix_and_tail(s: Seq<ChatMessageView>, sel: SelectionView, summary: ChatMessageView)
    requires
        sel.messages_to_summarize + sel.turn_prefix_messages + sel.kept_messages == s.skip(system_prefix_count(s, 0)),
        sel.messages_to_summarize.len() > 0,
    ensures
        ({
            let p = system_prefix_count(s, 0);
            let v = compacted_spec(s, sel, summary);
            let j = sel.messages_to_summarize.len() as int;
            &&& 0 <= p <= s.len()
            &&& v.take(p) == s.take(p)
            &&& v[p] == summary
            &&& 1 <= j <= s.len() - p
            &&& v.skip(p + 1) == s.skip(p).skip(j)
            &&& v.len() <= s.len()
        }),
{
    lemma_system_prefix_in_range(s);
    let p = system_prefix_count(s, 0);
    let v = compacted_spec(s, sel, summary);
    let conv = s.skip(p);
    let j = sel.messages_to_summarize.len() as int;
    let a = sel.messages_to_summarize;
    let rest = sel.turn_prefix_messages + sel.kept_messages;
    assert(a + sel.turn_prefix_messages + sel.kept_messages =~= a + rest);
    assert(conv.skip(j) =~= rest) by {
        assert forall|i: int| 0 <= i < rest.len() implies conv.skip(j)[i] == rest[i] by {
            assert((a + rest)[j + i] == rest[i]);
        }
    }
    assert(v =~= s.take(p).push(summary) + rest);
    assert(v.take(p) =~= s.take(p));
    assert(v.skip(p + 1) =~= rest);
}

/// What compaction goes on with splits the conversation in order and
/// summarizes at least one message whenever the prepared compaction does: an
/// override from the hook is held to the same shape.
pub proof fn law_selection_splits_conversation(
    prepared: SelectionView,
    cut_index: usize,
    outcome: Option<SessionSummaryHookOutcome>,
    msgs: Seq<ChatMessageView>,
    estimates: Seq<usize>,
)
    requires
        prepared.messages_to_summarize + prepared.turn_prefix_messages + prepared.kept_messages == msgs,
        prepared.messages_to_summarize.len() > 0,
    ensures
        selection_spec(prepared, cut_index, outcome, msgs, estimates) matches Ok(sel) ==> {
            &&& sel.messages_to_summarize + sel.turn_prefix_messages + sel.kept_messages == msgs
            &&& sel.messages_to_summarize.len() > 0
        },
{
    match requested_override(outcome, cut_index, estimates) {
        Ok(Some(o)) => {
            if checked_override(o, msgs, estimates) is Ok {
                let v = checked_override(o, msgs, estimates)->Ok_0;
                law_compaction_split_partitions(msgs, v.first_kept_entry_id as int);
            }
        },
        _ => {},
    }
}

/// Every run ends with the runtime idle and not streaming, whatever its
/// outcome. A run's history and usage are kept together or not at all:
/// when it finished (not canceled), its turn was closed and no plan
/// contract failed, the history becomes the run's and its usage delta is
/// added to the session's; otherwise history and session usage stay as
/// they were.
pub proof fn law_run_ends_idle_keeping_all_or_nothing(
    v: RuntimeView,
    run: RunOutcome,
    projection_succeeded: bool,
    plan_contract_error: Option<Seq<char>>,
)
    ensures
        ({
            let w = finish_run_spec(v, run, projection_succeeded, plan_contract_error);
            &&& w.state == AgentState::Idle
            &&& !w.is_streaming
            &&& w.projector == v.projector
            &&& match run {
                RunOutcome::Finished { status, messages, usage_delta, .. } => if projection_succeeded
                    && plan_contract_error.is_none() && status != RunStatus::Canceled {
                    &&& w.messages == seq_view(messages@)
                    &&& w.session_usage == match usage_delta {
                        Some(d) => merged_usage(v.session_usage, d),
                        None => v.session_usage,
                    }
                } else {
                    w.messages == v.messages && w.session_usage == v.session_usage
                },
                RunOutcome::Errored { .. } => w.messages == v.messages && w.session_usage == v.session_usage,
            }
        }),
{
}

/// A reset leaves the runtime idle, with no history, nothing queued, no
/// last error and no session usage; the default thread keeps its id and is
/// empty (no turns, messages or tools, no active turn) under the next
/// revision, so turn ids minted before are stale. A second reset leaves the
/// same state but for the default thread's revision and sequence number.
pub proof fn law_reset_clears_all_state(v: RuntimeView, now: i64, now2: i64)
    requires
        projector_wf(v.projector),
        thread_at(v.projector, v.projector.default_thread_id).snapshot.revision < u64::MAX - 1,
        thread_at(v.projector, v.projector.default_thread_id).snapshot.last_seq < u64::MAX - 1,
    ensures
        ({
            let d = v.projector.default_thread_id;
            let t = thread_at(v.projector, d);
            let w = reset_spec(v, now, None);
            let w2 = reset_spec(w, now2, None);
            let t1 = thread_at(w.projector, d);
            let t2 = thread_at(w2.projector, d);
            &&& w.state == AgentState::Idle
            &&& w.messages.len() == 0 && w.steering_queue.len() == 0 && w.follow_up_queue.len() == 0
            &&& w.last_error.is_none() && !w.is_streaming
            &&& w.session_usage == zero_usage()
            &&& w.projector.default_thread_id == d
            &&& projector_wf(w.projector)
            &&& t1.snapshot.thread_id == d
            &&& t1.snapshot.turns.len() == 0 && t1.snapshot.messages.len() == 0 && t1.snapshot.tools.len() == 0
            &&& t1.snapshot.active_turn_id.is_none()
            &&& t1.snapshot.revision == t.snapshot.revision + 1
            &&& forall|id: TurnId| id.thread_id == d && id.revision <= t.snapshot.revision ==> turn_lookup_error(t1, id) is Some
            &&& w2 == (RuntimeView { projector: w2.projector, ..w })
            &&& t2 == (ThreadStateView {
                snapshot: ThreadView {
                    revision: (t1.snapshot.revision + 1) as u64,
                    last_seq: (t1.snapshot.last_seq + 1) as u64,
                    ..t1.snapshot
                },
                ..t1
            })
        }),
{
    let d = v.projector.default_thread_id;
    let t = thread_at(v.projector, d);
    crate::find::lemma_first_index_spec(v.projector.threads, crate::projector::thread_is(d));
    let b = bootstrap_spec(t, Seq::empty(), now);
    lemma_replace_keeps_wf(v.projector, d, b);
    let w = reset_spec(v, now, None);
    let t1 = thread_at(w.projector, d);
    assert(t1 == b);
    crate::find::lemma_first_index_spec(w.projector.threads, crate::projector::thread_is(d));
    let b2 = bootstrap_spec(t1, Seq::empty(), now2);
    lemma_replace_keeps_wf(w.projector, d, b2);
    let w2 = reset_spec(w, now2, None);
    assert(thread_at(w2.projector, d) == b2);
    assert(b2.snapshot =~= ThreadView {
        revision: (t1.snapshot.revision + 1) as u64,
        last_seq: (t1.snapshot.last_seq + 1) as u64,
        ..t1.snapshot
    });
}

proof fn lemma_newer_than_complete(s: Seq<EventView>, seq: u64)
    ensures
        forall|i: int| 0 <= i < s.len() && (#[trigger] s[i]).seq > seq ==> events_newer_than(s, seq).contains(s[i]),
    decreases s.len(),
{
    if s.len() > 0 {
        let p = s.drop_last();
        lemma_newer_than_complete(p, seq);
        let r = events_newer_than(p, seq);
        assert forall|i: int| 0 <= i < s.len() && (#[trigger] s[i]).seq > seq implies events_newer_than(s, seq).contains(s[i]) by {
            if i < p.len() {
                assert(p[i] == s[i]);
                assert(r.contains(s[i]));
                let k = choose|k: int| 0 <= k < r.len() && r[k] == s[i];
                assert(events_newer_than(s, seq)[k] == s[i]);
            } else {
                assert(events_newer_than(s, seq) == r.push(s.last()));
                assert(events_newer_than(s, seq)[r.len() as int] == s[i]);
            }
        }
    }
}

/// Replay from a cursor gives back, in increasing sequence order, exactly
/// the events the thread retains that come after the cursor, all of the
/// cursor's thread; a thread retains at most its replay capacity of events.
pub proof fn law_replay_in_order(t: ThreadStateView, cursor: RuntimeCursor)
    requires
        replay_kept(t),
    ensures
        t.events.len() <= t.replay_capacity,
        events_after_spec(t, cursor) matches Ok(es) ==> {
            &&& forall|i: int, j: int| 0 <= i < j < es.len() ==> (#[trigger] es[i]).seq < (#[trigger] es[j]).seq
            &&& forall|i: int| 0 <= i < es.len() ==> (#[trigger] es[i]).seq > cursor.seq && es[i].thread_id
                == cursor.thread_id && t.events.contains(es[i])
            &&& forall|i: int| 0 <= i < t.events.len() && (#[trigger] t.events[i]).seq > cursor.seq ==> es.contains(
                t.events[i],
            )
        },
{
    if events_after_spec(t, cursor) is Ok {
        let es = events_newer_than(t.events, cursor.seq);
        lemma_newer_than_ordered(t.events, cursor.seq);
        lemma_newer_than_members(t.events, cursor.seq);
        lemma_newer_than_complete(t.events, cursor.seq);
        assert forall|i: int| 0 <= i < es.len() implies (#[trigger] es[i]).thread_id == cursor.thread_id by {
            assert(t.events.contains(es[i]));
            let k = choose|k: int| 0 <= k < t.events.len() && t.events[k] == es[i];
            assert(t.events[k].thread_id == t.snapshot.thread_id);
        }
    }
}

} // verus!
