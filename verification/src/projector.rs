//! The chat projector: every projected thread, keyed by thread id, with one
//! default thread that new turns are queued on.

use vstd::prelude::*;

use crate::domain::{
    AgentToolResult, ApprovalDecision, ApprovalRequest, ChatMessage, ChatRuntimeConfig,
    HumanInteractionRequest, HumanInteractionResponse, RuntimeSnapshot, ThreadSnapshot, ThreadView,
    ToolUpdatePayload, TurnSnapshot, TurnStatus, TurnView,
};
use crate::dup::{
    lemma_seq_view_insert, lemma_seq_view_push, lemma_seq_view_update, opt_view, res_view, seq_view,
};
use crate::error::{AgentRuntimeError, ErrorView};
use crate::event::{events_res, AgentRuntimeEvent, EventView, AGENT_RUNTIME_EVENT_SCHEMA_VERSION};
use crate::find::{first_index, lemma_first_index_absent, lemma_first_index_found, lemma_first_index_spec};
use crate::ids::{MessageId, RuntimeCursor, ThreadId, TurnId};
use crate::projection::{
    lemma_project_keeps_thread, missing_thread_spec, project_missing_thread, project_spec,
    project_thread_event, projection_room, AgentEvent, ChatProjectionRunState,
};
use crate::turn_ops::{
    cancel_request, cancel_request_spec, cancel_res, closing_room, terminal_events, terminal_events_spec,
};
use crate::thread::{
    cancel_pending_approvals_spec, cancel_pending_interactions_spec, change_message_spec,
    complete_tool_spec, events_after_spec, request_interaction_spec, require_approval_spec,
    settle_approval_spec, settle_interaction_spec, start_message_spec, start_tool_spec,
    start_turn_spec, terminal_turn_spec, bootstrap_spec, empty_thread, can_queue_turn, from_snapshot_spec,
    max_message_ordinal, max_turn_ordinal, queue_turn_spec, replay_kept, lemma_record_keeps_replay,
    TurnProjection, turn_index, turn_lookup_error, update_diff_spec,
    update_plan_spec, update_reasoning_spec, update_tool_spec, MessageProjection, ThreadState,
    ThreadStateView,
};

verus! {

broadcast use lemma_record_keeps_replay;

/// Every projected thread, in ascending order of thread id, and the id of
/// the default thread.
pub struct ChatProjector {
    default_thread_id: ThreadId,
    threads: Vec<ThreadState>,
}

#[verifier::ext_equal]
pub struct ProjectorView {
    pub default_thread_id: ThreadId,
    pub threads: Seq<ThreadStateView>,
}

impl View for ChatProjector {
    type V = ProjectorView;

    closed spec fn view(&self) -> ProjectorView {
        ProjectorView { default_thread_id: self.default_thread_id, threads: seq_view(self.threads@) }
    }
}

pub open spec fn thread_is(id: ThreadId) -> spec_fn(ThreadStateView) -> bool {
    |t: ThreadStateView| t.snapshot.thread_id == id
}

/// Position of thread `id`, or -1 when it is not projected.
pub open spec fn thread_pos(p: ProjectorView, id: ThreadId) -> int {
    first_index(p.threads, thread_is(id))
}

/// The projection of thread `id` (meaningful when `thread_pos(p, id) >= 0`).
pub open spec fn thread_at(p: ProjectorView, id: ThreadId) -> ThreadStateView {
    p.threads[thread_pos(p, id)]
}

/// Threads are held in strictly ascending order of their ids' bits, so no id
/// occurs twice.
pub open spec fn ids_ascending(threads: Seq<ThreadStateView>) -> bool {
    forall|i: int, j: int|
        0 <= i < j < threads.len() ==> (#[trigger] threads[i]).snapshot.thread_id.spec_bits()
            < (#[trigger] threads[j]).snapshot.thread_id.spec_bits()
}

/// Well-formedness: ids ascending and the default thread present.
pub open spec fn projector_wf(p: ProjectorView) -> bool {
    &&& ids_ascending(p.threads)
    &&& thread_pos(p, p.default_thread_id) >= 0
}

/// Applies a thread-level step to thread `id`: the projector is unchanged and
/// `ThreadNotFound` is returned when `id` is not projected; otherwise the
/// thread is replaced by the step's new state and the step's result returned.
pub open spec fn lift<R>(p: ProjectorView, id: ThreadId, step: (ThreadStateView, Result<R, ErrorView>)) -> (
    ProjectorView,
    Result<R, ErrorView>,
) {
    if thread_pos(p, id) < 0 {
        (p, Err(ErrorView::ThreadNotFound { thread_id: id }))
    } else {
        (ProjectorView { threads: p.threads.update(thread_pos(p, id), step.0), ..p }, step.1)
    }
}

/// The view of a message-starting result.
pub open spec fn message_res(r: Result<MessageProjection, AgentRuntimeError>) -> Result<(MessageId, EventView), ErrorView> {
    match r {
        Ok(m) => Ok((m.message_id, m.event@)),
        Err(e) => Err(e@),
    }
}

/// The projected threads as a map from thread id.
pub open spec fn thread_map(p: ProjectorView) -> Map<ThreadId, ThreadStateView> {
    Map::new(|id: ThreadId| thread_pos(p, id) >= 0, |id: ThreadId| thread_at(p, id))
}

/// Replay capacity given to an imported thread `id`: the capacity of the
/// thread it replaces, else that of the default thread.
pub open spec fn import_capacity(p: ProjectorView, id: ThreadId) -> usize {
    if thread_pos(p, id) >= 0 {
        thread_at(p, id).replay_capacity
    } else {
        thread_at(p, p.default_thread_id).replay_capacity
    }
}

/// Room for `n` more events on thread `id`, when it is projected.
pub open spec fn seq_room(p: ProjectorView, id: ThreadId, n: nat) -> bool {
    thread_pos(p, id) >= 0 ==> thread_at(p, id).snapshot.last_seq + n <= u64::MAX
}

/// Every projected thread keeps its replay buffer in shape.
pub open spec fn replays_kept(p: ProjectorView) -> bool {
    forall|i: int| 0 <= i < p.threads.len() ==> replay_kept(#[trigger] p.threads[i])
}

proof fn lemma_replace_keeps_replay(p: ProjectorView, id: ThreadId, t2: ThreadStateView)
    requires
        replays_kept(p),
        replay_kept(t2),
        thread_pos(p, id) >= 0,
    ensures
        replays_kept(ProjectorView { threads: p.threads.update(thread_pos(p, id), t2), ..p }),
{
    lemma_first_index_spec(p.threads, thread_is(id));
    let q = ProjectorView { threads: p.threads.update(thread_pos(p, id), t2), ..p };
    assert forall|i: int| 0 <= i < q.threads.len() implies replay_kept(#[trigger] q.threads[i]) by {
        if i != thread_pos(p, id) {
            assert(q.threads[i] == p.threads[i]);
        }
    }
}

proof fn lemma_ids_distinct(threads: Seq<ThreadStateView>, i: int, j: int)
    requires
        ids_ascending(threads),
        0 <= i < threads.len(),
        0 <= j < threads.len(),
        i != j,
    ensures
        threads[i].snapshot.thread_id != threads[j].snapshot.thread_id,
{
    if i < j {
        assert(threads[i].snapshot.thread_id.spec_bits() < threads[j].snapshot.thread_id.spec_bits());
    } else {
        assert(threads[j].snapshot.thread_id.spec_bits() < threads[i].snapshot.thread_id.spec_bits());
    }
}

/// Replacing thread `id` by a state of the same id keeps the projector
/// well-formed and keeps every thread's position.
pub proof fn lemma_replace_keeps_wf(p: ProjectorView, id: ThreadId, t2: ThreadStateView)
    requires
        projector_wf(p),
        thread_pos(p, id) >= 0,
        t2.snapshot.thread_id == id,
    ensures
        projector_wf(ProjectorView { threads: p.threads.update(thread_pos(p, id), t2), ..p }),
        forall|other: ThreadId|
            thread_pos(ProjectorView { threads: p.threads.update(thread_pos(p, id), t2), ..p }, other)
                == thread_pos(p, other),
{
    let q = ProjectorView { threads: p.threads.update(thread_pos(p, id), t2), ..p };
    lemma_first_index_spec(p.threads, thread_is(id));
    assert forall|other: ThreadId| thread_pos(q, other) == thread_pos(p, other) by {
        crate::find::lemma_first_index_update(p.threads, thread_pos(p, id), t2, thread_is(other));
    }
}

/// In an ascending sequence the thread with id `id` is found at its only position.
proof fn lemma_pos_unique(threads: Seq<ThreadStateView>, k: int)
    requires
        ids_ascending(threads),
        0 <= k < threads.len(),
    ensures
        first_index(threads, thread_is(threads[k].snapshot.thread_id)) == k,
{
    let id = threads[k].snapshot.thread_id;
    assert forall|j: int| 0 <= j < k implies !thread_is(id)(threads[j]) by {
        lemma_ids_distinct(threads, j, k);
    }
    lemma_first_index_found(threads, thread_is(id), k);
}

/// Position of every thread after `t` is inserted at `j` in an ascending sequence.
proof fn lemma_insert_keeps_wf(p: ProjectorView, j: int, t: ThreadStateView)
    requires
        projector_wf(p),
        0 <= j <= p.threads.len(),
        forall|k: int| 0 <= k < j ==> (#[trigger] p.threads[k]).snapshot.thread_id.spec_bits()
            < t.snapshot.thread_id.spec_bits(),
        forall|k: int| j <= k < p.threads.len() ==> t.snapshot.thread_id.spec_bits()
            < (#[trigger] p.threads[k]).snapshot.thread_id.spec_bits(),
    ensures
        projector_wf(ProjectorView { threads: p.threads.insert(j, t), ..p }),
        thread_map(ProjectorView { threads: p.threads.insert(j, t), ..p }) == thread_map(p).insert(
            t.snapshot.thread_id,
            t,
        ),
{
    let q = ProjectorView { threads: p.threads.insert(j, t), ..p };
    let s = q.threads;
    assert(ids_ascending(s)) by {
        assert forall|a: int, b: int| 0 <= a < b < s.len() implies (#[trigger] s[a]).snapshot.thread_id.spec_bits()
            < (#[trigger] s[b]).snapshot.thread_id.spec_bits() by {
            if a < j && b < j {
            } else if a < j && b == j {
            } else if a < j {
                assert(s[b] == p.threads[b - 1]);
            } else if a == j {
                assert(s[b] == p.threads[b - 1]);
            } else {
                assert(s[a] == p.threads[a - 1]);
                assert(s[b] == p.threads[b - 1]);
            }
        }
    }
    let id = t.snapshot.thread_id;
    lemma_first_index_spec(p.threads, thread_is(id));
    if thread_pos(p, id) >= 0 {
        let k = thread_pos(p, id);
        if k < j {
            assert(p.threads[k].snapshot.thread_id.spec_bits() < id.spec_bits());
        } else {
            assert(id.spec_bits() < p.threads[k].snapshot.thread_id.spec_bits());
        }
        assert(false);
    }
    assert forall|other: ThreadId| #[trigger] thread_map(q).contains_key(other) == thread_map(p).insert(id, t).contains_key(other)
        && (thread_map(q).contains_key(other) ==> thread_map(q)[other] == thread_map(p).insert(id, t)[other]) by {
        lemma_first_index_spec(p.threads, thread_is(other));
        lemma_first_index_spec(s, thread_is(other));
        if other == id {
            assert(s[j] == t);
            lemma_pos_unique(s, j);
        } else if thread_pos(p, other) >= 0 {
            let k = thread_pos(p, other);
            let k2 = if k < j { k } else { k + 1 };
            assert(s[k2] == p.threads[k]);
            lemma_pos_unique(s, k2);
        } else {
            assert forall|m: int| 0 <= m < s.len() implies !thread_is(other)(s[m]) by {
                if m < j {
                    assert(s[m] == p.threads[m]);
                } else if m > j {
                    assert(s[m] == p.threads[m - 1]);
                }
            }
        }
    }
    assert(thread_map(q) =~= thread_map(p).insert(id, t));
    lemma_first_index_spec(s, thread_is(p.default_thread_id));
    assert(thread_map(q).contains_key(p.default_thread_id));
}

impl ChatProjector {
    /// The projector's state is well-formed.
    pub closed spec fn wf(&self) -> bool {
        projector_wf(self@) && replays_kept(self@)
    }

    /// What well-formedness guarantees.
    pub proof fn lemma_wf(&self)
        requires
            self.wf(),
        ensures
            projector_wf(self@),
            replays_kept(self@),
            thread_pos(self@, self@.default_thread_id) >= 0,
            thread_at(self@, self@.default_thread_id).snapshot.thread_id == self@.default_thread_id,
    {
        lemma_first_index_spec(self@.threads, thread_is(self@.default_thread_id));
    }

    /// Position of thread `id`.
    fn find_thread(&self, id: ThreadId) -> (r: Option<usize>)
        ensures
            match r {
                Some(i) => i == thread_pos(self@, id),
                None => thread_pos(self@, id) == -1,
            },
    {
        let mut i: usize = 0;
        while i < self.threads.len()
            invariant
                i <= self.threads.len(),
                forall|j: int| 0 <= j < i ==> !thread_is(id)(self@.threads[j]),
            decreases self.threads.len() - i,
        {
            if self.threads[i].thread_id() == id {
                proof {
                    lemma_first_index_found(self@.threads, thread_is(id), i as int);
                }
                return Some(i);
            }
            i = i + 1;
        }
        proof {
            lemma_first_index_absent(self@.threads, thread_is(id));
        }
        None
    }

    /// A projector whose default thread is `config.default_thread_id`, or
    /// `fresh_thread_id` (a newly drawn id) when the configuration names none.
    pub fn new(config: ChatRuntimeConfig, fresh_thread_id: ThreadId) -> (r: Self)
        ensures
            r.wf(),
            r@.default_thread_id == match config.default_thread_id {
                Some(id) => id,
                None => fresh_thread_id,
            },
            r@.threads.len() == 1,
            r@.threads[0] == empty_thread(r@.default_thread_id, config.replay_capacity),
    {
        let thread_id = match config.default_thread_id {
            Some(id) => id,
            None => fresh_thread_id,
        };
        Self::with_default_thread(thread_id, config)
    }

    /// A projector with one empty thread `thread_id`, the default.
    pub fn with_default_thread(thread_id: ThreadId, config: ChatRuntimeConfig) -> (r: Self)
        ensures
            r.wf(),
            r@.default_thread_id == thread_id,
            r@.threads.len() == 1,
            r@.threads[0] == empty_thread(thread_id, config.replay_capacity),
    {
        let mut threads: Vec<ThreadState> = Vec::new();
        let t = ThreadState::new(thread_id, config.replay_capacity);
        proof {
            lemma_seq_view_push(threads@, t);
        }
        threads.push(t);
        let r = ChatProjector { default_thread_id: thread_id, threads };
        proof {
            lemma_first_index_found(r@.threads, thread_is(thread_id), 0);
        }
        r
    }

    /// The default thread's id.
    pub fn default_thread_id(&self) -> (r: ThreadId)
        ensures
            r == self@.default_thread_id,
    {
        self.default_thread_id
    }

    /// Snapshots of every thread, in ascending order of thread id.
    pub fn read_snapshot(&self) -> (r: RuntimeSnapshot)
        ensures
            r.schema_version == AGENT_RUNTIME_EVENT_SCHEMA_VERSION,
            r.threads@.len() == self@.threads.len(),
            forall|i: int| 0 <= i < self@.threads.len() ==> (#[trigger] r.threads@[i])@ == self@.threads[i].snapshot,
    {
        let mut threads: Vec<ThreadSnapshot> = Vec::new();
        let mut i: usize = 0;
        while i < self.threads.len()
            invariant
                i <= self.threads.len(),
                threads.len() == i,
                forall|k: int| 0 <= k < i ==> (#[trigger] threads@[k])@ == self@.threads[k].snapshot,
            decreases self.threads.len() - i,
        {
            let s = self.threads[i].read_snapshot();
            threads.push(s);
            i = i + 1;
        }
        RuntimeSnapshot { schema_version: AGENT_RUNTIME_EVENT_SCHEMA_VERSION, threads }
    }

    /// The snapshot of thread `thread_id`.
    pub fn read_thread(&self, thread_id: ThreadId) -> (r: Result<ThreadSnapshot, AgentRuntimeError>)
        ensures
            match r {
                Ok(s) => thread_pos(self@, thread_id) >= 0 && s@ == thread_at(self@, thread_id).snapshot,
                Err(e) => thread_pos(self@, thread_id) < 0 && e@ == ErrorView::ThreadNotFound { thread_id },
            },
    {
        match self.find_thread(thread_id) {
            Some(i) => Ok(self.threads[i].read_snapshot()),
            None => Err(AgentRuntimeError::ThreadNotFound { thread_id }),
        }
    }

    /// The snapshot of turn `turn_id`, looked up in its own thread.
    pub fn turn_snapshot(&self, turn_id: TurnId) -> (r: Result<TurnSnapshot, AgentRuntimeError>)
        ensures
            match r {
                Ok(s) => {
                    &&& thread_pos(self@, turn_id.thread_id) >= 0
                    &&& turn_lookup_error(thread_at(self@, turn_id.thread_id), turn_id).is_none()
                    &&& s@ == thread_at(self@, turn_id.thread_id).snapshot.turns[turn_index(
                        thread_at(self@, turn_id.thread_id),
                        turn_id,
                    )]
                },
                Err(e) => if thread_pos(self@, turn_id.thread_id) < 0 {
                    e@ == ErrorView::ThreadNotFound { thread_id: turn_id.thread_id }
                } else {
                    turn_lookup_error(thread_at(self@, turn_id.thread_id), turn_id) == Some(e@)
                },
            },
    {
        match self.find_thread(turn_id.thread_id) {
            Some(i) => self.threads[i].turn_snapshot_or_err(turn_id),
            None => Err(AgentRuntimeError::ThreadNotFound { thread_id: turn_id.thread_id }),
        }
    }

    /// Replay of thread `cursor.thread_id` from `cursor`.
    pub fn events_after(&self, cursor: RuntimeCursor) -> (r: Result<Vec<AgentRuntimeEvent>, AgentRuntimeError>)
        requires
            self.wf(),
            seq_room(self@, cursor.thread_id, 1),
        ensures
            r matches Ok(v) ==> {
                let t = thread_at(self@, cursor.thread_id);
                let es = seq_view(v@);
                &&& forall|i: int, j: int| 0 <= i < j < es.len() ==> (#[trigger] es[i]).seq < (#[trigger] es[j]).seq
                &&& forall|i: int| 0 <= i < es.len() ==> (#[trigger] es[i]).seq > cursor.seq && es[i].thread_id
                    == cursor.thread_id && t.events.contains(es[i])
                &&& forall|i: int| 0 <= i < t.events.len() && (#[trigger] t.events[i]).seq > cursor.seq ==> es.contains(
                    t.events[i],
                )
                &&& t.events.len() <= t.replay_capacity
            },
            match r {
                Ok(v) => thread_pos(self@, cursor.thread_id) >= 0 && events_after_spec(
                    thread_at(self@, cursor.thread_id),
                    cursor,
                ) == Ok::<Seq<EventView>, ErrorView>(seq_view(v@)),
                Err(e) => if thread_pos(self@, cursor.thread_id) < 0 {
                    e@ == ErrorView::ThreadNotFound { thread_id: cursor.thread_id }
                } else {
                    events_after_spec(thread_at(self@, cursor.thread_id), cursor) == Err::<
                        Seq<EventView>,
                        ErrorView,
                    >(e@)
                },
            },
    {
        match self.find_thread(cursor.thread_id) {
            Some(i) => {
                proof {
                    crate::laws::law_replay_in_order(thread_at(self@, cursor.thread_id), cursor);
                }
                self.threads[i].events_after(cursor)
            },
            None => Err(AgentRuntimeError::ThreadNotFound { thread_id: cursor.thread_id }),
        }
    }

    /// Moves queued turn `turn_id` to running; see [`start_turn_spec`].
    pub fn start_turn(&mut self, turn_id: TurnId, now: i64) -> (r: Result<AgentRuntimeEvent, AgentRuntimeError>)
        requires
            old(self).wf(),
            thread_pos(old(self)@, turn_id.thread_id) >= 0 ==> thread_at(old(self)@, turn_id.thread_id).snapshot.last_seq < u64::MAX,
        ensures
            final(self).wf(),
                (final(self)@, res_view(r)) == lift(
                    old(self)@,
                    turn_id.thread_id,
                    start_turn_spec(thread_at(old(self)@, turn_id.thread_id), turn_id, now),
                ),
    {
        let ghost p = self@;
        
        let i = match self.find_thread(turn_id.thread_id) {
            Some(i) => i,
            None => {
                let e = AgentRuntimeError::ThreadNotFound { thread_id: turn_id.thread_id };
                proof {
                    assert(lift(p, turn_id.thread_id, start_turn_spec(thread_at(p, turn_id.thread_id), turn_id, now)).1 == Err::<EventView, ErrorView>(e@));
                }
                return Err(e);
            },
        };
        let r = self.threads[i].start_turn(turn_id, now);
        proof {
            let step = start_turn_spec(thread_at(p, turn_id.thread_id), turn_id, now);
            lemma_replace_keeps_wf(p, turn_id.thread_id, step.0);
            lemma_replace_keeps_replay(p, turn_id.thread_id, step.0);
            assert(self@ =~= lift(p, turn_id.thread_id, step).0);
        }
        r
    }

    /// Completes turn `turn_id`; see [`terminal_turn_spec`].
    pub fn complete_turn(&mut self, turn_id: TurnId, now: i64) -> (r: Result<AgentRuntimeEvent, AgentRuntimeError>)
        requires
            old(self).wf(),
            thread_pos(old(self)@, turn_id.thread_id) >= 0 ==> thread_at(old(self)@, turn_id.thread_id).snapshot.last_seq < u64::MAX,
        ensures
            final(self).wf(),
                (final(self)@, res_view(r)) == lift(
                    old(self)@,
                    turn_id.thread_id,
                    terminal_turn_spec(thread_at(old(self)@, turn_id.thread_id), turn_id, TurnStatus::Completed, None, now),
                ),
    {
        let ghost p = self@;
        
        let i = match self.find_thread(turn_id.thread_id) {
            Some(i) => i,
            None => {
                let e = AgentRuntimeError::ThreadNotFound { thread_id: turn_id.thread_id };
                proof {
                    assert(lift(p, turn_id.thread_id, terminal_turn_spec(thread_at(p, turn_id.thread_id), turn_id, TurnStatus::Completed, None, now)).1 == Err::<EventView, ErrorView>(e@));
                }
                return Err(e);
            },
        };
        let r = self.threads[i].complete_turn(turn_id, now);
        proof {
            let step = terminal_turn_spec(thread_at(p, turn_id.thread_id), turn_id, TurnStatus::Completed, None, now);
            lemma_replace_keeps_wf(p, turn_id.thread_id, step.0);
            lemma_replace_keeps_replay(p, turn_id.thread_id, step.0);
            assert(self@ =~= lift(p, turn_id.thread_id, step).0);
        }
        r
    }

    /// Fails turn `turn_id` with `error`; see [`terminal_turn_spec`].
    pub fn fail_turn(&mut self, turn_id: TurnId, error: String, now: i64) -> (r: Result<AgentRuntimeEvent, AgentRuntimeError>)
        requires
            old(self).wf(),
            thread_pos(old(self)@, turn_id.thread_id) >= 0 ==> thread_at(old(self)@, turn_id.thread_id).snapshot.last_seq < u64::MAX,
        ensures
            final(self).wf(),
                (final(self)@, res_view(r)) == lift(
                    old(self)@,
                    turn_id.thread_id,
                    terminal_turn_spec(thread_at(old(self)@, turn_id.thread_id), turn_id, TurnStatus::Failed, Some(error@), now),
                ),
    {
        let ghost p = self@;
        let ghost error_v = error@;
        let i = match self.find_thread(turn_id.thread_id) {
            Some(i) => i,
            None => {
                let e = AgentRuntimeError::ThreadNotFound { thread_id: turn_id.thread_id };
                proof {
                    assert(lift(p, turn_id.thread_id, terminal_turn_spec(thread_at(p, turn_id.thread_id), turn_id, TurnStatus::Failed, Some(error_v), now)).1 == Err::<EventView, ErrorView>(e@));
                }
                return Err(e);
            },
        };
        let r = self.threads[i].fail_turn(turn_id, error, now);
        proof {
            let step = terminal_turn_spec(thread_at(p, turn_id.thread_id), turn_id, TurnStatus::Failed, Some(error_v), now);
            lemma_replace_keeps_wf(p, turn_id.thread_id, step.0);
            lemma_replace_keeps_replay(p, turn_id.thread_id, step.0);
            assert(self@ =~= lift(p, turn_id.thread_id, step).0);
        }
        r
    }

    /// Cancels turn `turn_id` with its pending approvals; see [`terminal_turn_spec`].
    pub fn cancel_turn(&mut self, turn_id: TurnId, now: i64) -> (r: Result<AgentRuntimeEvent, AgentRuntimeError>)
        requires
            old(self).wf(),
            thread_pos(old(self)@, turn_id.thread_id) >= 0 ==> thread_at(old(self)@, turn_id.thread_id).snapshot.last_seq < u64::MAX,
        ensures
            final(self).wf(),
                (final(self)@, res_view(r)) == lift(
                    old(self)@,
                    turn_id.thread_id,
                    terminal_turn_spec(thread_at(old(self)@, turn_id.thread_id), turn_id, TurnStatus::Canceled, None, now),
                ),
    {
        let ghost p = self@;
        
        let i = match self.find_thread(turn_id.thread_id) {
            Some(i) => i,
            None => {
                let e = AgentRuntimeError::ThreadNotFound { thread_id: turn_id.thread_id };
                proof {
                    assert(lift(p, turn_id.thread_id, terminal_turn_spec(thread_at(p, turn_id.thread_id), turn_id, TurnStatus::Canceled, None, now)).1 == Err::<EventView, ErrorView>(e@));
                }
                return Err(e);
            },
        };
        let r = self.threads[i].cancel_turn(turn_id, now);
        proof {
            let step = terminal_turn_spec(thread_at(p, turn_id.thread_id), turn_id, TurnStatus::Canceled, None, now);
            lemma_replace_keeps_wf(p, turn_id.thread_id, step.0);
            lemma_replace_keeps_replay(p, turn_id.thread_id, step.0);
            assert(self@ =~= lift(p, turn_id.thread_id, step).0);
        }
        r
    }

    /// Starts a streaming message in turn `turn_id`; see [`start_message_spec`].
    pub fn start_message(&mut self, turn_id: TurnId, payload: ChatMessage, now: i64) -> (r: Result<MessageProjection, AgentRuntimeError>)
        requires
            old(self).wf(),
            thread_pos(old(self)@, turn_id.thread_id) >= 0 ==> thread_at(old(self)@, turn_id.thread_id).snapshot.last_seq < u64::MAX && thread_at(old(self)@, turn_id.thread_id).next_message_ordinal < u64::MAX,
        ensures
            final(self).wf(),
                (final(self)@, message_res(r)) == lift(
                    old(self)@,
                    turn_id.thread_id,
                    start_message_spec(thread_at(old(self)@, turn_id.thread_id), turn_id, payload@, now),
                ),
    {
        let ghost p = self@;
        let ghost payload_v = payload@;
        let i = match self.find_thread(turn_id.thread_id) {
            Some(i) => i,
            None => {
                let e = AgentRuntimeError::ThreadNotFound { thread_id: turn_id.thread_id };
                proof {
                    assert(lift(p, turn_id.thread_id, start_message_spec(thread_at(p, turn_id.thread_id), turn_id, payload_v, now)).1 == Err::<(MessageId, EventView), ErrorView>(e@));
                }
                return Err(e);
            },
        };
        let r = self.threads[i].start_message(turn_id, payload, now);
        proof {
            let step = start_message_spec(thread_at(p, turn_id.thread_id), turn_id, payload_v, now);
            lemma_replace_keeps_wf(p, turn_id.thread_id, step.0);
            lemma_replace_keeps_replay(p, turn_id.thread_id, step.0);
            assert(self@ =~= lift(p, turn_id.thread_id, step).0);
        }
        r
    }

    /// Replaces the payload of streaming message `message_id`; see [`change_message_spec`].
    pub fn update_message(&mut self, message_id: MessageId, payload: ChatMessage, now: i64) -> (r: Result<AgentRuntimeEvent, AgentRuntimeError>)
        requires
            old(self).wf(),
            thread_pos(old(self)@, message_id.thread_id) >= 0 ==> thread_at(old(self)@, message_id.thread_id).snapshot.last_seq < u64::MAX,
        ensures
            final(self).wf(),
                (final(self)@, res_view(r)) == lift(
                    old(self)@,
                    message_id.thread_id,
                    change_message_spec(thread_at(old(self)@, message_id.thread_id), message_id, payload@, false, now),
                ),
    {
        let ghost p = self@;
        let ghost payload_v = payload@;
        let i = match self.find_thread(message_id.thread_id) {
            Some(i) => i,
            None => {
                let e = AgentRuntimeError::ThreadNotFound { thread_id: message_id.thread_id };
                proof {
                    assert(lift(p, message_id.thread_id, change_message_spec(thread_at(p, message_id.thread_id), message_id, payload_v, false, now)).1 == Err::<EventView, ErrorView>(e@));
                }
                return Err(e);
            },
        };
        let r = self.threads[i].update_message(message_id, payload, now);
        proof {
            let step = change_message_spec(thread_at(p, message_id.thread_id), message_id, payload_v, false, now);
            lemma_replace_keeps_wf(p, message_id.thread_id, step.0);
            lemma_replace_keeps_replay(p, message_id.thread_id, step.0);
            assert(self@ =~= lift(p, message_id.thread_id, step).0);
        }
        r
    }

    /// Completes message `message_id` with its final payload; see [`change_message_spec`].
    pub fn complete_message(&mut self, message_id: MessageId, payload: ChatMessage, now: i64) -> (r: Result<AgentRuntimeEvent, AgentRuntimeError>)
        requires
            old(self).wf(),
            thread_pos(old(self)@, message_id.thread_id) >= 0 ==> thread_at(old(self)@, message_id.thread_id).snapshot.last_seq < u64::MAX,
        ensures
            final(self).wf(),
                (final(self)@, res_view(r)) == lift(
                    old(self)@,
                    message_id.thread_id,
                    change_message_spec(thread_at(old(self)@, message_id.thread_id), message_id, payload@, true, now),
                ),
    {
        let ghost p = self@;
        let ghost payload_v = payload@;
        let i = match self.find_thread(message_id.thread_id) {
            Some(i) => i,
            None => {
                let e = AgentRuntimeError::ThreadNotFound { thread_id: message_id.thread_id };
                proof {
                    assert(lift(p, message_id.thread_id, change_message_spec(thread_at(p, message_id.thread_id), message_id, payload_v, true, now)).1 == Err::<EventView, ErrorView>(e@));
                }
                return Err(e);
            },
        };
        let r = self.threads[i].complete_message(message_id, payload, now);
        proof {
            let step = change_message_spec(thread_at(p, message_id.thread_id), message_id, payload_v, true, now);
            lemma_replace_keeps_wf(p, message_id.thread_id, step.0);
            lemma_replace_keeps_replay(p, message_id.thread_id, step.0);
            assert(self@ =~= lift(p, message_id.thread_id, step).0);
        }
        r
    }

    /// Starts tool call `tool_call_id` in turn `turn_id`; `args` is its JSON text; see [`start_tool_spec`].
    pub fn start_tool(&mut self, turn_id: TurnId, tool_call_id: &str, tool_name: &str, args: &str, now: i64) -> (r: Result<AgentRuntimeEvent, AgentRuntimeError>)
        requires
            old(self).wf(),
            thread_pos(old(self)@, turn_id.thread_id) >= 0 ==> thread_at(old(self)@, turn_id.thread_id).snapshot.last_seq < u64::MAX,
        ensures
            final(self).wf(),
                (final(self)@, res_view(r)) == lift(
                    old(self)@,
                    turn_id.thread_id,
                    start_tool_spec(thread_at(old(self)@, turn_id.thread_id), turn_id, tool_call_id@, tool_name@, args@, now),
                ),
    {
        let ghost p = self@;
        
        let i = match self.find_thread(turn_id.thread_id) {
            Some(i) => i,
            None => {
                let e = AgentRuntimeError::ThreadNotFound { thread_id: turn_id.thread_id };
                proof {
                    assert(lift(p, turn_id.thread_id, start_tool_spec(thread_at(p, turn_id.thread_id), turn_id, tool_call_id@, tool_name@, args@, now)).1 == Err::<EventView, ErrorView>(e@));
                }
                return Err(e);
            },
        };
        let r = self.threads[i].start_tool(turn_id, tool_call_id, tool_name, args, now);
        proof {
            let step = start_tool_spec(thread_at(p, turn_id.thread_id), turn_id, tool_call_id@, tool_name@, args@, now);
            lemma_replace_keeps_wf(p, turn_id.thread_id, step.0);
            lemma_replace_keeps_replay(p, turn_id.thread_id, step.0);
            assert(self@ =~= lift(p, turn_id.thread_id, step).0);
        }
        r
    }

    /// Records a streaming update of tool call `tool_call_id`; see [`update_tool_spec`].
    pub fn update_tool(&mut self, turn_id: TurnId, tool_call_id: &str, partial_result: ToolUpdatePayload, now: i64) -> (r: Result<AgentRuntimeEvent, AgentRuntimeError>)
        requires
            old(self).wf(),
            thread_pos(old(self)@, turn_id.thread_id) >= 0 ==> thread_at(old(self)@, turn_id.thread_id).snapshot.last_seq < u64::MAX,
        ensures
            final(self).wf(),
                (final(self)@, res_view(r)) == lift(
                    old(self)@,
                    turn_id.thread_id,
                    update_tool_spec(thread_at(old(self)@, turn_id.thread_id), turn_id, tool_call_id@, partial_result@, now),
                ),
    {
        let ghost p = self@;
        let ghost partial_v = partial_result@;
        let i = match self.find_thread(turn_id.thread_id) {
            Some(i) => i,
            None => {
                let e = AgentRuntimeError::ThreadNotFound { thread_id: turn_id.thread_id };
                proof {
                    assert(lift(p, turn_id.thread_id, update_tool_spec(thread_at(p, turn_id.thread_id), turn_id, tool_call_id@, partial_v, now)).1 == Err::<EventView, ErrorView>(e@));
                }
                return Err(e);
            },
        };
        let r = self.threads[i].update_tool(turn_id, tool_call_id, partial_result, now);
        proof {
            let step = update_tool_spec(thread_at(p, turn_id.thread_id), turn_id, tool_call_id@, partial_v, now);
            lemma_replace_keeps_wf(p, turn_id.thread_id, step.0);
            lemma_replace_keeps_replay(p, turn_id.thread_id, step.0);
            assert(self@ =~= lift(p, turn_id.thread_id, step).0);
        }
        r
    }

    /// Completes tool call `tool_call_id` with its final result; see [`complete_tool_spec`].
    pub fn complete_tool(&mut self, turn_id: TurnId, tool_call_id: &str, final_result: AgentToolResult, now: i64) -> (r: Result<AgentRuntimeEvent, AgentRuntimeError>)
        requires
            old(self).wf(),
            thread_pos(old(self)@, turn_id.thread_id) >= 0 ==> thread_at(old(self)@, turn_id.thread_id).snapshot.last_seq < u64::MAX,
        ensures
            final(self).wf(),
                (final(self)@, res_view(r)) == lift(
                    old(self)@,
                    turn_id.thread_id,
                    complete_tool_spec(thread_at(old(self)@, turn_id.thread_id), turn_id, tool_call_id@, final_result@, now),
                ),
    {
        let ghost p = self@;
        let ghost result_v = final_result@;
        let i = match self.find_thread(turn_id.thread_id) {
            Some(i) => i,
            None => {
                let e = AgentRuntimeError::ThreadNotFound { thread_id: turn_id.thread_id };
                proof {
                    assert(lift(p, turn_id.thread_id, complete_tool_spec(thread_at(p, turn_id.thread_id), turn_id, tool_call_id@, result_v, now)).1 == Err::<EventView, ErrorView>(e@));
                }
                return Err(e);
            },
        };
        let r = self.threads[i].complete_tool(turn_id, tool_call_id, final_result, now);
        proof {
            let step = complete_tool_spec(thread_at(p, turn_id.thread_id), turn_id, tool_call_id@, result_v, now);
            lemma_replace_keeps_wf(p, turn_id.thread_id, step.0);
            lemma_replace_keeps_replay(p, turn_id.thread_id, step.0);
            assert(self@ =~= lift(p, turn_id.thread_id, step).0);
        }
        r
    }

    /// Asks for approval `request` in turn `turn_id`; see [`require_approval_spec`].
    pub fn require_approval(&mut self, turn_id: TurnId, request: ApprovalRequest, now: i64) -> (r: Result<AgentRuntimeEvent, AgentRuntimeError>)
        requires
            old(self).wf(),
            thread_pos(old(self)@, turn_id.thread_id) >= 0 ==> thread_at(old(self)@, turn_id.thread_id).snapshot.last_seq < u64::MAX,
        ensures
            final(self).wf(),
                (final(self)@, res_view(r)) == lift(
                    old(self)@,
                    turn_id.thread_id,
                    require_approval_spec(thread_at(old(self)@, turn_id.thread_id), turn_id, request@, now),
                ),
    {
        let ghost p = self@;
        let ghost request_v = request@;
        let i = match self.find_thread(turn_id.thread_id) {
            Some(i) => i,
            None => {
                let e = AgentRuntimeError::ThreadNotFound { thread_id: turn_id.thread_id };
                proof {
                    assert(lift(p, turn_id.thread_id, require_approval_spec(thread_at(p, turn_id.thread_id), turn_id, request_v, now)).1 == Err::<EventView, ErrorView>(e@));
                }
                return Err(e);
            },
        };
        let r = self.threads[i].require_approval(turn_id, request, now);
        proof {
            let step = require_approval_spec(thread_at(p, turn_id.thread_id), turn_id, request_v, now);
            lemma_replace_keeps_wf(p, turn_id.thread_id, step.0);
            lemma_replace_keeps_replay(p, turn_id.thread_id, step.0);
            assert(self@ =~= lift(p, turn_id.thread_id, step).0);
        }
        r
    }

    /// Records `decision` on approval `request_id`; see [`settle_approval_spec`].
    pub fn resolve_approval(&mut self, turn_id: TurnId, request_id: &str, decision: ApprovalDecision, now: i64) -> (r: Result<AgentRuntimeEvent, AgentRuntimeError>)
        requires
            old(self).wf(),
            thread_pos(old(self)@, turn_id.thread_id) >= 0 ==> thread_at(old(self)@, turn_id.thread_id).snapshot.last_seq < u64::MAX,
        ensures
            final(self).wf(),
                (final(self)@, res_view(r)) == lift(
                    old(self)@,
                    turn_id.thread_id,
                    settle_approval_spec(thread_at(old(self)@, turn_id.thread_id), turn_id, request_id@, Some(decision), now),
                ),
    {
        let ghost p = self@;
        
        let i = match self.find_thread(turn_id.thread_id) {
            Some(i) => i,
            None => {
                let e = AgentRuntimeError::ThreadNotFound { thread_id: turn_id.thread_id };
                proof {
                    assert(lift(p, turn_id.thread_id, settle_approval_spec(thread_at(p, turn_id.thread_id), turn_id, request_id@, Some(decision), now)).1 == Err::<EventView, ErrorView>(e@));
                }
                return Err(e);
            },
        };
        let r = self.threads[i].resolve_approval(turn_id, request_id, decision, now);
        proof {
            let step = settle_approval_spec(thread_at(p, turn_id.thread_id), turn_id, request_id@, Some(decision), now);
            lemma_replace_keeps_wf(p, turn_id.thread_id, step.0);
            lemma_replace_keeps_replay(p, turn_id.thread_id, step.0);
            assert(self@ =~= lift(p, turn_id.thread_id, step).0);
        }
        r
    }

    /// Cancels approval `request_id`; see [`settle_approval_spec`].
    pub fn cancel_approval(&mut self, turn_id: TurnId, request_id: &str, now: i64) -> (r: Result<AgentRuntimeEvent, AgentRuntimeError>)
        requires
            old(self).wf(),
            thread_pos(old(self)@, turn_id.thread_id) >= 0 ==> thread_at(old(self)@, turn_id.thread_id).snapshot.last_seq < u64::MAX,
        ensures
            final(self).wf(),
                (final(self)@, res_view(r)) == lift(
                    old(self)@,
                    turn_id.thread_id,
                    settle_approval_spec(thread_at(old(self)@, turn_id.thread_id), turn_id, request_id@, None, now),
                ),
    {
        let ghost p = self@;
        
        let i = match self.find_thread(turn_id.thread_id) {
            Some(i) => i,
            None => {
                let e = AgentRuntimeError::ThreadNotFound { thread_id: turn_id.thread_id };
                proof {
                    assert(lift(p, turn_id.thread_id, settle_approval_spec(thread_at(p, turn_id.thread_id), turn_id, request_id@, None, now)).1 == Err::<EventView, ErrorView>(e@));
                }
                return Err(e);
            },
        };
        let r = self.threads[i].cancel_approval(turn_id, request_id, now);
        proof {
            let step = settle_approval_spec(thread_at(p, turn_id.thread_id), turn_id, request_id@, None, now);
            lemma_replace_keeps_wf(p, turn_id.thread_id, step.0);
            lemma_replace_keeps_replay(p, turn_id.thread_id, step.0);
            assert(self@ =~= lift(p, turn_id.thread_id, step).0);
        }
        r
    }

    /// Cancels every pending approval of turn `turn_id`; see [`cancel_pending_approvals_spec`].
    pub fn cancel_pending_approvals(&mut self, turn_id: TurnId, now: i64) -> (r: Result<Vec<AgentRuntimeEvent>, AgentRuntimeError>)
        requires
            old(self).wf(),
            thread_pos(old(self)@, turn_id.thread_id) >= 0 ==> thread_at(old(self)@, turn_id.thread_id).snapshot.last_seq + thread_at(old(self)@, turn_id.thread_id).snapshot.approvals.len() <= u64::MAX,
        ensures
            final(self).wf(),
                (final(self)@, events_res(r)) == lift(
                    old(self)@,
                    turn_id.thread_id,
                    cancel_pending_approvals_spec(thread_at(old(self)@, turn_id.thread_id), turn_id, now),
                ),
    {
        let ghost p = self@;
        
        let i = match self.find_thread(turn_id.thread_id) {
            Some(i) => i,
            None => {
                let e = AgentRuntimeError::ThreadNotFound { thread_id: turn_id.thread_id };
                proof {
                    assert(lift(p, turn_id.thread_id, cancel_pending_approvals_spec(thread_at(p, turn_id.thread_id), turn_id, now)).1 == Err::<Seq<EventView>, ErrorView>(e@));
                }
                return Err(e);
            },
        };
        let r = self.threads[i].cancel_pending_approvals(turn_id, now);
        proof {
            let step = cancel_pending_approvals_spec(thread_at(p, turn_id.thread_id), turn_id, now);
            crate::thread::lemma_cancel_approvals_keeps_replay(thread_at(p, turn_id.thread_id), turn_id, now);
            lemma_replace_keeps_wf(p, turn_id.thread_id, step.0);
            lemma_replace_keeps_replay(p, turn_id.thread_id, step.0);
            assert(self@ =~= lift(p, turn_id.thread_id, step).0);
        }
        r
    }

    /// Puts `request` to the human in turn `turn_id`; see [`request_interaction_spec`].
    pub fn request_human_interaction(&mut self, turn_id: TurnId, request: HumanInteractionRequest, now: i64) -> (r: Result<AgentRuntimeEvent, AgentRuntimeError>)
        requires
            old(self).wf(),
            thread_pos(old(self)@, turn_id.thread_id) >= 0 ==> thread_at(old(self)@, turn_id.thread_id).snapshot.last_seq < u64::MAX,
        ensures
            final(self).wf(),
                (final(self)@, res_view(r)) == lift(
                    old(self)@,
                    turn_id.thread_id,
                    request_interaction_spec(thread_at(old(self)@, turn_id.thread_id), turn_id, request@, now),
                ),
    {
        let ghost p = self@;
        let ghost request_v = request@;
        let i = match self.find_thread(turn_id.thread_id) {
            Some(i) => i,
            None => {
                let e = AgentRuntimeError::ThreadNotFound { thread_id: turn_id.thread_id };
                proof {
                    assert(lift(p, turn_id.thread_id, request_interaction_spec(thread_at(p, turn_id.thread_id), turn_id, request_v, now)).1 == Err::<EventView, ErrorView>(e@));
                }
                return Err(e);
            },
        };
        let r = self.threads[i].request_human_interaction(turn_id, request, now);
        proof {
            let step = request_interaction_spec(thread_at(p, turn_id.thread_id), turn_id, request_v, now);
            lemma_replace_keeps_wf(p, turn_id.thread_id, step.0);
            lemma_replace_keeps_replay(p, turn_id.thread_id, step.0);
            assert(self@ =~= lift(p, turn_id.thread_id, step).0);
        }
        r
    }

    /// Records the human's `response`; see [`settle_interaction_spec`].
    pub fn resolve_human_interaction(&mut self, turn_id: TurnId, response: HumanInteractionResponse, now: i64) -> (r: Result<AgentRuntimeEvent, AgentRuntimeError>)
        requires
            old(self).wf(),
            thread_pos(old(self)@, turn_id.thread_id) >= 0 ==> thread_at(old(self)@, turn_id.thread_id).snapshot.last_seq < u64::MAX,
        ensures
            final(self).wf(),
                (final(self)@, res_view(r)) == lift(
                    old(self)@,
                    turn_id.thread_id,
                    settle_interaction_spec(thread_at(old(self)@, turn_id.thread_id), turn_id, response@.request_id, Some(response@), None, now),
                ),
    {
        let ghost p = self@;
        let ghost response_v = response@;
        let i = match self.find_thread(turn_id.thread_id) {
            Some(i) => i,
            None => {
                let e = AgentRuntimeError::ThreadNotFound { thread_id: turn_id.thread_id };
                proof {
                    assert(lift(p, turn_id.thread_id, settle_interaction_spec(thread_at(p, turn_id.thread_id), turn_id, response_v.request_id, Some(response_v), None, now)).1 == Err::<EventView, ErrorView>(e@));
                }
                return Err(e);
            },
        };
        let r = self.threads[i].resolve_human_interaction(turn_id, response, now);
        proof {
            let step = settle_interaction_spec(thread_at(p, turn_id.thread_id), turn_id, response_v.request_id, Some(response_v), None, now);
            lemma_replace_keeps_wf(p, turn_id.thread_id, step.0);
            lemma_replace_keeps_replay(p, turn_id.thread_id, step.0);
            assert(self@ =~= lift(p, turn_id.thread_id, step).0);
        }
        r
    }

    /// Cancels interaction `request_id` with an optional `reason`; see [`settle_interaction_spec`].
    pub fn cancel_human_interaction(&mut self, turn_id: TurnId, request_id: u128, reason: Option<String>, now: i64) -> (r: Result<AgentRuntimeEvent, AgentRuntimeError>)
        requires
            old(self).wf(),
            thread_pos(old(self)@, turn_id.thread_id) >= 0 ==> thread_at(old(self)@, turn_id.thread_id).snapshot.last_seq < u64::MAX,
        ensures
            final(self).wf(),
                (final(self)@, res_view(r)) == lift(
                    old(self)@,
                    turn_id.thread_id,
                    settle_interaction_spec(thread_at(old(self)@, turn_id.thread_id), turn_id, request_id, None, opt_view(reason), now),
                ),
    {
        let ghost p = self@;
        let ghost reason_v = opt_view(reason);
        let i = match self.find_thread(turn_id.thread_id) {
            Some(i) => i,
            None => {
                let e = AgentRuntimeError::ThreadNotFound { thread_id: turn_id.thread_id };
                proof {
                    assert(lift(p, turn_id.thread_id, settle_interaction_spec(thread_at(p, turn_id.thread_id), turn_id, request_id, None, reason_v, now)).1 == Err::<EventView, ErrorView>(e@));
                }
                return Err(e);
            },
        };
        let r = self.threads[i].cancel_human_interaction(turn_id, request_id, reason, now);
        proof {
            let step = settle_interaction_spec(thread_at(p, turn_id.thread_id), turn_id, request_id, None, reason_v, now);
            lemma_replace_keeps_wf(p, turn_id.thread_id, step.0);
            lemma_replace_keeps_replay(p, turn_id.thread_id, step.0);
            assert(self@ =~= lift(p, turn_id.thread_id, step).0);
        }
        r
    }

    /// Cancels every pending interaction of turn `turn_id`; see [`cancel_pending_interactions_spec`].
    pub fn cancel_pending_human_interactions(&mut self, turn_id: TurnId, now: i64) -> (r: Result<Vec<AgentRuntimeEvent>, AgentRuntimeError>)
        requires
            old(self).wf(),
            thread_pos(old(self)@, turn_id.thread_id) >= 0 ==> thread_at(old(self)@, turn_id.thread_id).snapshot.last_seq + thread_at(old(self)@, turn_id.thread_id).snapshot.human_interactions.len() <= u64::MAX,
        ensures
            final(self).wf(),
                (final(self)@, events_res(r)) == lift(
                    old(self)@,
                    turn_id.thread_id,
                    cancel_pending_interactions_spec(thread_at(old(self)@, turn_id.thread_id), turn_id, now),
                ),
    {
        let ghost p = self@;
        
        let i = match self.find_thread(turn_id.thread_id) {
            Some(i) => i,
            None => {
                let e = AgentRuntimeError::ThreadNotFound { thread_id: turn_id.thread_id };
                proof {
                    assert(lift(p, turn_id.thread_id, cancel_pending_interactions_spec(thread_at(p, turn_id.thread_id), turn_id, now)).1 == Err::<Seq<EventView>, ErrorView>(e@));
                }
                return Err(e);
            },
        };
        let r = self.threads[i].cancel_pending_human_interactions(turn_id, now);
        proof {
            let step = cancel_pending_interactions_spec(thread_at(p, turn_id.thread_id), turn_id, now);
            crate::thread::lemma_cancel_interactions_keeps_replay(thread_at(p, turn_id.thread_id), turn_id, now);
            lemma_replace_keeps_wf(p, turn_id.thread_id, step.0);
            lemma_replace_keeps_replay(p, turn_id.thread_id, step.0);
            assert(self@ =~= lift(p, turn_id.thread_id, step).0);
        }
        r
    }

    /// Appends `delta` to the reasoning of turn `turn_id` (and message `message_id`); see [`update_reasoning_spec`].
    pub fn update_reasoning(&mut self, turn_id: TurnId, message_id: Option<MessageId>, delta: String, now: i64) -> (r: Result<AgentRuntimeEvent, AgentRuntimeError>)
        requires
            old(self).wf(),
            thread_pos(old(self)@, turn_id.thread_id) >= 0 ==> thread_at(old(self)@, turn_id.thread_id).snapshot.last_seq < u64::MAX,
        ensures
            final(self).wf(),
                (final(self)@, res_view(r)) == lift(
                    old(self)@,
                    turn_id.thread_id,
                    update_reasoning_spec(thread_at(old(self)@, turn_id.thread_id), turn_id, message_id, delta@, now),
                ),
    {
        let ghost p = self@;
        let ghost delta_v = delta@;
        let i = match self.find_thread(turn_id.thread_id) {
            Some(i) => i,
            None => {
                let e = AgentRuntimeError::ThreadNotFound { thread_id: turn_id.thread_id };
                proof {
                    assert(lift(p, turn_id.thread_id, update_reasoning_spec(thread_at(p, turn_id.thread_id), turn_id, message_id, delta_v, now)).1 == Err::<EventView, ErrorView>(e@));
                }
                return Err(e);
            },
        };
        let r = self.threads[i].update_reasoning(turn_id, message_id, delta, now);
        proof {
            let step = update_reasoning_spec(thread_at(p, turn_id.thread_id), turn_id, message_id, delta_v, now);
            lemma_replace_keeps_wf(p, turn_id.thread_id, step.0);
            lemma_replace_keeps_replay(p, turn_id.thread_id, step.0);
            assert(self@ =~= lift(p, turn_id.thread_id, step).0);
        }
        r
    }

    /// Replaces the plan of turn `turn_id`; see [`update_plan_spec`].
    pub fn update_plan(&mut self, turn_id: TurnId, plan: String, now: i64) -> (r: Result<AgentRuntimeEvent, AgentRuntimeError>)
        requires
            old(self).wf(),
            thread_pos(old(self)@, turn_id.thread_id) >= 0 ==> thread_at(old(self)@, turn_id.thread_id).snapshot.last_seq < u64::MAX,
        ensures
            final(self).wf(),
                (final(self)@, res_view(r)) == lift(
                    old(self)@,
                    turn_id.thread_id,
                    update_plan_spec(thread_at(old(self)@, turn_id.thread_id), turn_id, plan@, now),
                ),
    {
        let ghost p = self@;
        let ghost plan_v = plan@;
        let i = match self.find_thread(turn_id.thread_id) {
            Some(i) => i,
            None => {
                let e = AgentRuntimeError::ThreadNotFound { thread_id: turn_id.thread_id };
                proof {
                    assert(lift(p, turn_id.thread_id, update_plan_spec(thread_at(p, turn_id.thread_id), turn_id, plan_v, now)).1 == Err::<EventView, ErrorView>(e@));
                }
                return Err(e);
            },
        };
        let r = self.threads[i].update_plan(turn_id, plan, now);
        proof {
            let step = update_plan_spec(thread_at(p, turn_id.thread_id), turn_id, plan_v, now);
            lemma_replace_keeps_wf(p, turn_id.thread_id, step.0);
            lemma_replace_keeps_replay(p, turn_id.thread_id, step.0);
            assert(self@ =~= lift(p, turn_id.thread_id, step).0);
        }
        r
    }

    /// Replaces the diff of turn `turn_id`; see [`update_diff_spec`].
    pub fn update_diff(&mut self, turn_id: TurnId, diff: String, now: i64) -> (r: Result<AgentRuntimeEvent, AgentRuntimeError>)
        requires
            old(self).wf(),
            thread_pos(old(self)@, turn_id.thread_id) >= 0 ==> thread_at(old(self)@, turn_id.thread_id).snapshot.last_seq < u64::MAX,
        ensures
            final(self).wf(),
                (final(self)@, res_view(r)) == lift(
                    old(self)@,
                    turn_id.thread_id,
                    update_diff_spec(thread_at(old(self)@, turn_id.thread_id), turn_id, diff@, now),
                ),
    {
        let ghost p = self@;
        let ghost diff_v = diff@;
        let i = match self.find_thread(turn_id.thread_id) {
            Some(i) => i,
            None => {
                let e = AgentRuntimeError::ThreadNotFound { thread_id: turn_id.thread_id };
                proof {
                    assert(lift(p, turn_id.thread_id, update_diff_spec(thread_at(p, turn_id.thread_id), turn_id, diff_v, now)).1 == Err::<EventView, ErrorView>(e@));
                }
                return Err(e);
            },
        };
        let r = self.threads[i].update_diff(turn_id, diff, now);
        proof {
            let step = update_diff_spec(thread_at(p, turn_id.thread_id), turn_id, diff_v, now);
            lemma_replace_keeps_wf(p, turn_id.thread_id, step.0);
            lemma_replace_keeps_replay(p, turn_id.thread_id, step.0);
            assert(self@ =~= lift(p, turn_id.thread_id, step).0);
        }
        r
    }

    /// Closes turn `turn_id` with `status` at time `now`; see [`terminal_events_spec`].
    pub fn close_turn(&mut self, turn_id: TurnId, status: TurnStatus, error: Option<String>, now: i64) -> (r: Result<Vec<AgentRuntimeEvent>, AgentRuntimeError>)
        requires
            old(self).wf(),
            thread_pos(old(self)@, turn_id.thread_id) >= 0 ==> closing_room(thread_at(old(self)@, turn_id.thread_id)),
            status == TurnStatus::Failed ==> error.is_some(),
        ensures
            final(self).wf(),
                (final(self)@, events_res(r)) == lift(
                    old(self)@,
                    turn_id.thread_id,
                    terminal_events_spec(thread_at(old(self)@, turn_id.thread_id), turn_id, status, opt_view(error), now),
                ),
    {
        let ghost p = self@;
        let ghost error_v = opt_view(error);
        let i = match self.find_thread(turn_id.thread_id) {
            Some(i) => i,
            None => {
                let e = AgentRuntimeError::ThreadNotFound { thread_id: turn_id.thread_id };
                proof {
                    assert(lift(p, turn_id.thread_id, terminal_events_spec(thread_at(p, turn_id.thread_id), turn_id, status, error_v, now)).1
                        == Err::<Seq<EventView>, ErrorView>(e@));
                }
                return Err(e);
            },
        };
        let r = terminal_events(&mut self.threads[i], turn_id, status, error, now);
        proof {
            let step = terminal_events_spec(thread_at(p, turn_id.thread_id), turn_id, status, error_v, now);
            crate::turn_ops::lemma_terminal_events_keep_replay(thread_at(p, turn_id.thread_id), turn_id, status, error_v, now);
            lemma_replace_keeps_wf(p, turn_id.thread_id, step.0);
            lemma_replace_keeps_replay(p, turn_id.thread_id, step.0);
            assert(self@ =~= lift(p, turn_id.thread_id, step).0);
        }
        r
    }

    /// Cancels turn `turn_id` on request at time `now`; see [`cancel_request_spec`].
    pub fn cancel_turn_request(&mut self, turn_id: TurnId, now: i64) -> (r: Result<(TurnStatus, Vec<AgentRuntimeEvent>, TurnSnapshot), AgentRuntimeError>)
        requires
            old(self).wf(),
            thread_pos(old(self)@, turn_id.thread_id) >= 0 ==> closing_room(thread_at(old(self)@, turn_id.thread_id)),
        ensures
            final(self).wf(),
                (final(self)@, cancel_res(r)) == lift(
                    old(self)@,
                    turn_id.thread_id,
                    cancel_request_spec(thread_at(old(self)@, turn_id.thread_id), turn_id, now),
                ),
    {
        let ghost p = self@;
        let i = match self.find_thread(turn_id.thread_id) {
            Some(i) => i,
            None => {
                let e = AgentRuntimeError::ThreadNotFound { thread_id: turn_id.thread_id };
                proof {
                    assert(lift(p, turn_id.thread_id, cancel_request_spec(thread_at(p, turn_id.thread_id), turn_id, now)).1
                        == Err::<(TurnStatus, Seq<EventView>, TurnView), ErrorView>(e@));
                }
                return Err(e);
            },
        };
        let r = cancel_request(&mut self.threads[i], turn_id, now);
        proof {
            let step = cancel_request_spec(thread_at(p, turn_id.thread_id), turn_id, now);
            crate::turn_ops::lemma_cancel_request_keeps_replay(thread_at(p, turn_id.thread_id), turn_id, now);
            lemma_replace_keeps_wf(p, turn_id.thread_id, step.0);
            lemma_replace_keeps_replay(p, turn_id.thread_id, step.0);
            assert(self@ =~= lift(p, turn_id.thread_id, step).0);
        }
        r
    }

    /// Queues a turn with `input` messages on the default thread; see [`queue_turn_spec`].
    pub fn queue_turn(&mut self, input: Vec<ChatMessage>, now: i64) -> (r: TurnProjection)
        requires
            old(self).wf(),
            can_queue_turn(thread_at(old(self)@, old(self)@.default_thread_id), input.len() as nat),
        ensures
            final(self).wf(),
            ({
                let step = queue_turn_spec(
                    thread_at(old(self)@, old(self)@.default_thread_id),
                    seq_view(input@),
                    now,
                );
                &&& final(self)@ == ProjectorView {
                    threads: old(self)@.threads.update(thread_pos(old(self)@, old(self)@.default_thread_id), step.0),
                    ..old(self)@
                }
                &&& r.turn_id == step.1
                &&& seq_view(r.events@) == step.2
            }),
    {
        let ghost p = self@;
        let ghost msgs = seq_view(input@);
        let i = match self.find_thread(self.default_thread_id) {
            Some(i) => i,
            None => {
                return unreached();
            },
        };
        let r = self.threads[i].queue_turn(input, now);
        proof {
            let step = queue_turn_spec(thread_at(p, p.default_thread_id), msgs, now);
            crate::thread::lemma_queue_turn_keeps_replay(thread_at(p, p.default_thread_id), msgs, now);
            lemma_replace_keeps_wf(p, p.default_thread_id, step.0);
            lemma_replace_keeps_replay(p, p.default_thread_id, step.0);
            assert(self@ =~= ProjectorView { threads: p.threads.update(thread_pos(p, p.default_thread_id), step.0), ..p });
        }
        r
    }

    /// Replaces the default thread's history with `messages`; see [`bootstrap_spec`].
    pub fn bootstrap_thread(&mut self, messages: Vec<ChatMessage>, now: i64) -> (r: Result<ThreadSnapshot, AgentRuntimeError>)
        requires
            old(self).wf(),
            thread_at(old(self)@, old(self)@.default_thread_id).snapshot.revision < u64::MAX,
            thread_at(old(self)@, old(self)@.default_thread_id).snapshot.last_seq < u64::MAX,
            messages.len() < u64::MAX,
        ensures
            final(self).wf(),
                (final(self)@, res_view(r)) == lift(
                    old(self)@,
                    old(self)@.default_thread_id,
                    bootstrap_step(thread_at(old(self)@, old(self)@.default_thread_id), seq_view(messages@), now),
                ),
    {
        let id = self.default_thread_id;
        self.bootstrap_thread_by_id(id, messages, now)
    }

    /// Replaces the history of thread `thread_id` with `messages`; see [`bootstrap_spec`].
    pub fn bootstrap_thread_by_id(&mut self, thread_id: ThreadId, messages: Vec<ChatMessage>, now: i64) -> (r: Result<ThreadSnapshot, AgentRuntimeError>)
        requires
            old(self).wf(),
            thread_pos(old(self)@, thread_id) >= 0 ==> {
                &&& thread_at(old(self)@, thread_id).snapshot.revision < u64::MAX
                &&& thread_at(old(self)@, thread_id).snapshot.last_seq < u64::MAX
            },
            messages.len() < u64::MAX,
        ensures
            final(self).wf(),
                (final(self)@, res_view(r)) == lift(
                    old(self)@,
                    thread_id,
                    bootstrap_step(thread_at(old(self)@, thread_id), seq_view(messages@), now),
                ),
    {
        let ghost p = self@;
        let ghost msgs = seq_view(messages@);
        let i = match self.find_thread(thread_id) {
            Some(i) => i,
            None => {
                let e = AgentRuntimeError::ThreadNotFound { thread_id };
                proof {
                    assert(lift(p, thread_id, bootstrap_step(thread_at(p, thread_id), msgs, now)).1 == Err::<ThreadView, ErrorView>(e@));
                }
                return Err(e);
            },
        };
        let s = self.threads[i].bootstrap_thread(messages, now);
        proof {
            let step = bootstrap_step(thread_at(p, thread_id), msgs, now);
            lemma_replace_keeps_wf(p, thread_id, step.0);
            lemma_replace_keeps_replay(p, thread_id, step.0);
            assert(self@ =~= lift(p, thread_id, step).0);
        }
        Ok(s)
    }

    /// Installs `thread` as the projection of its thread, replacing any earlier
    /// one; see [`import_capacity`] and [`from_snapshot_spec`].
    pub fn import_thread(&mut self, thread: ThreadSnapshot) -> (r: Result<ThreadSnapshot, AgentRuntimeError>)
        requires
            old(self).wf(),
            max_turn_ordinal(thread@.turns, thread@.thread_id) < u64::MAX,
            max_message_ordinal(thread@.messages, thread@.thread_id) < u64::MAX,
        ensures
            final(self).wf(),
            final(self)@.default_thread_id == old(self)@.default_thread_id,
            thread_map(final(self)@) == thread_map(old(self)@).insert(
                thread@.thread_id,
                from_snapshot_spec(thread@, import_capacity(old(self)@, thread@.thread_id)),
            ),
            r matches Ok(s) && s@ == thread@,
    {
        let ghost p = self@;
        let ghost tv = thread@;
        let id = thread.thread_id;
        let existing = self.find_thread(id);
        let replay_capacity = match existing {
            Some(i) => self.threads[i].replay_capacity(),
            None => match self.find_thread(self.default_thread_id) {
                Some(d) => self.threads[d].replay_capacity(),
                None => ChatRuntimeConfig::default().replay_capacity,
            },
        };
        let state = ThreadState::from_snapshot(thread, replay_capacity);
        let ghost sv = state@;
        let out = state.read_snapshot();
        match existing {
            Some(i) => {
                proof {
                    lemma_seq_view_update(self.threads@, i as int, state);
                    lemma_replace_keeps_wf(p, id, sv);
                    lemma_replace_keeps_replay(p, id, sv);
                }
                self.threads.set(i, state);
                proof {
                    let q = self@;
                    assert(q =~= ProjectorView { threads: p.threads.update(i as int, sv), ..p });
                    lemma_first_index_spec(p.threads, thread_is(id));
                    assert forall|other: ThreadId| #[trigger] thread_map(q).contains_key(other) == thread_map(p).insert(id, sv).contains_key(other)
                        && (thread_map(q).contains_key(other) ==> thread_map(q)[other] == thread_map(p).insert(id, sv)[other]) by {
                        lemma_first_index_spec(p.threads, thread_is(other));
                        if other != id && thread_pos(p, other) >= 0 {
                            assert(thread_pos(p, other) != i);
                        }
                    }
                    assert(thread_map(q) =~= thread_map(p).insert(id, sv));
                }
            },
            None => {
                let mut j: usize = 0;
                while j < self.threads.len() && self.threads[j].thread_id().as_u128() < id.as_u128()
                    invariant
                        self@ == p,
                        projector_wf(p),
                        j <= self.threads.len(),
                        forall|k: int| 0 <= k < j ==> (#[trigger] p.threads[k]).snapshot.thread_id.spec_bits() < id.spec_bits(),
                    decreases self.threads.len() - j,
                {
                    j = j + 1;
                }
                proof {
                    lemma_first_index_spec(p.threads, thread_is(id));
                    assert forall|k: int| j <= k < p.threads.len() implies id.spec_bits()
                        < (#[trigger] p.threads[k]).snapshot.thread_id.spec_bits() by {
                        ThreadId::lemma_eq(id, p.threads[k].snapshot.thread_id);
                        assert(!thread_is(id)(p.threads[k]));
                        if k > j {
                            assert(p.threads[j as int].snapshot.thread_id.spec_bits() < p.threads[k].snapshot.thread_id.spec_bits());
                        }
                    }
                    lemma_insert_keeps_wf(p, j as int, sv);
                    lemma_seq_view_insert(self.threads@, j as int, state);
                }
                self.threads.insert(j, state);
                proof {
                    assert(self@ =~= ProjectorView { threads: p.threads.insert(j as int, sv), ..p });
                }
            },
        }
        Ok(out)
    }
}

/// Projects loop event `event` of the run of turn `turn_id` onto the turn's
/// thread at time `now`; see [`project_spec`] and [`missing_thread_spec`].
pub fn project_agent_event(
    projector: &mut ChatProjector,
    run_state: &mut ChatProjectionRunState,
    turn_id: TurnId,
    event: &AgentEvent,
    now: i64,
) -> (r: Result<Vec<AgentRuntimeEvent>, AgentRuntimeError>)
    requires
        old(projector).wf(),
        old(run_state).belongs_to(turn_id),
        thread_pos(old(projector)@, turn_id.thread_id) >= 0 ==> projection_room(
            thread_at(old(projector)@, turn_id.thread_id),
        ),
    ensures
        final(projector).wf(),
        final(run_state).belongs_to(turn_id),
        if thread_pos(old(projector)@, turn_id.thread_id) < 0 {
            &&& final(projector)@ == old(projector)@
            &&& (*final(run_state), events_res(r)) == missing_thread_spec(*old(run_state), turn_id, *event)
        } else {
            ({
                let s = project_spec(
                    thread_at(old(projector)@, turn_id.thread_id),
                    *old(run_state),
                    turn_id,
                    *event,
                    now,
                );
                &&& final(projector)@ == ProjectorView {
                    threads: old(projector)@.threads.update(thread_pos(old(projector)@, turn_id.thread_id), s.0),
                    ..old(projector)@
                }
                &&& *final(run_state) == s.1
                &&& events_res(r) == s.2
            })
        },
{
    let ghost p = projector@;
    let ghost rs = *run_state;
    let i = match projector.find_thread(turn_id.thread_id) {
        Some(i) => i,
        None => {
            return project_missing_thread(run_state, turn_id, event);
        },
    };
    proof {
        lemma_first_index_spec(p.threads, thread_is(turn_id.thread_id));
        lemma_project_keeps_thread(thread_at(p, turn_id.thread_id), rs, turn_id, *event, now);
    }
    let r = project_thread_event(&mut projector.threads[i], run_state, turn_id, event, now);
    proof {
        let s = project_spec(thread_at(p, turn_id.thread_id), rs, turn_id, *event, now);
        crate::projection::lemma_project_keeps_replay(thread_at(p, turn_id.thread_id), rs, turn_id, *event, now);
        lemma_replace_keeps_wf(p, turn_id.thread_id, s.0);
        lemma_replace_keeps_replay(p, turn_id.thread_id, s.0);
        assert(projector@ =~= ProjectorView { threads: p.threads.update(i as int, s.0), ..p });
    }
    r
}

/// The thread-level step of a bootstrap: the new state and its snapshot.
pub open spec fn bootstrap_step(t: ThreadStateView, messages: Seq<crate::domain::ChatMessageView>, now: i64) -> (
    ThreadStateView,
    Result<ThreadView, ErrorView>,
) {
    (bootstrap_spec(t, messages, now), Ok(bootstrap_spec(t, messages, now).snapshot))
}


} // verus!
