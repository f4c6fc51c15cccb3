//! Replay stores for semantic runtime events: per thread, the latest sequence
//! number seen and the retained events, with the rules for appending,
//! replaying from a cursor and invalidating a thread.

use vstd::prelude::*;
use vstd::string::*;

use crate::dup::{lemma_seq_view_empty, lemma_seq_view_insert, lemma_seq_view_push, lemma_seq_view_subrange, lemma_seq_view_update, seq_view, Duplicate};
use crate::error::{AgentRuntimeError, ErrorView};
use crate::event::{events_res, AgentRuntimeEvent, EventView};
use crate::find::{first_index, lemma_first_index_absent, lemma_first_index_found, lemma_first_index_spec, lemma_first_index_update};
use crate::ids::{RuntimeCursor, ThreadId};
use crate::text::{decimal_text, push_decimal, uuid_text};
use crate::thread::{events_newer_than, lemma_events_newer_than_step};

verus! {

/// What is kept for one thread.
pub struct ThreadEvents {
    thread_id: ThreadId,
    latest_seq: u64,
    events: Vec<AgentRuntimeEvent>,
}

#[verifier::ext_equal]
pub struct ThreadLogView {
    pub thread_id: ThreadId,
    pub latest_seq: u64,
    pub events: Seq<EventView>,
}

impl View for ThreadEvents {
    type V = ThreadLogView;

    closed spec fn view(&self) -> ThreadLogView {
        ThreadLogView { thread_id: self.thread_id, latest_seq: self.latest_seq, events: seq_view(self.events@) }
    }
}

/// Per-thread replay, threads in ascending order of id.
pub struct EventLog {
    threads: Vec<ThreadEvents>,
}

impl EventLog {
    /// The entries, in ascending order of thread id.
    pub closed spec fn entries(&self) -> Seq<ThreadLogView> {
        seq_view(self.threads@)
    }
}

impl View for EventLog {
    type V = Map<ThreadId, ThreadLogView>;

    open spec fn view(&self) -> Map<ThreadId, ThreadLogView> {
        log_map(self.entries())
    }
}

pub open spec fn log_is(id: ThreadId) -> spec_fn(ThreadLogView) -> bool {
    |t: ThreadLogView| t.thread_id == id
}

/// Position of thread `id`, or -1.
pub open spec fn log_pos(l: Seq<ThreadLogView>, id: ThreadId) -> int {
    first_index(l, log_is(id))
}

/// The latest sequence number recorded for thread `id` (0 for a thread never seen).
spec fn latest_of(l: Seq<ThreadLogView>, id: ThreadId) -> u64 {
    if log_pos(l, id) >= 0 {
        l[log_pos(l, id)].latest_seq
    } else {
        0
    }
}

pub open spec fn log_ascending(l: Seq<ThreadLogView>) -> bool {
    forall|i: int, j: int| 0 <= i < j < l.len() ==> (#[trigger] l[i]).thread_id.spec_bits() < (#[trigger] l[j]).thread_id.spec_bits()
}

/// A thread's retained events are its own, in strictly ascending seq order,
/// none past its latest seq.
pub open spec fn thread_ordered(t: ThreadLogView) -> bool {
    &&& forall|i: int, j: int| 0 <= i < j < t.events.len() ==> (#[trigger] t.events[i]).seq < (#[trigger] t.events[j]).seq
    &&& forall|i: int| 0 <= i < t.events.len() ==> (#[trigger] t.events[i]).seq <= t.latest_seq
    &&& forall|i: int| 0 <= i < t.events.len() ==> (#[trigger] t.events[i]).thread_id == t.thread_id
}

pub open spec fn log_ordered(l: Seq<ThreadLogView>) -> bool {
    forall|k: int| 0 <= k < l.len() ==> thread_ordered(#[trigger] l[k])
}

/// The first event seq of a thread's replay, or one past its latest seq.
pub open spec fn oldest_available(t: ThreadLogView) -> u64 {
    if t.events.len() > 0 {
        t.events[0].seq
    } else if t.latest_seq == u64::MAX {
        t.latest_seq
    } else {
        (t.latest_seq + 1) as u64
    }
}

/// The oldest cursor from which the replay is complete.
pub open spec fn oldest_replayable(t: ThreadLogView) -> u64 {
    if oldest_available(t) == 0 {
        0
    } else {
        (oldest_available(t) - 1) as u64
    }
}

/// Replay from `cursor`: nothing for an unknown thread; `StaleRuntime` when
/// events after the cursor are no longer retained; otherwise the retained
/// events after the cursor.
spec fn replay_spec(l: Seq<ThreadLogView>, cursor: RuntimeCursor) -> Result<Seq<EventView>, ErrorView> {
    if log_pos(l, cursor.thread_id) < 0 {
        Ok(Seq::empty())
    } else {
        let t = l[log_pos(l, cursor.thread_id)];
        if cursor.seq < oldest_replayable(t) {
            Err(
                ErrorView::StaleRuntime {
                    thread_id: cursor.thread_id,
                    requested_seq: cursor.seq,
                    oldest_available_seq: oldest_available(t),
                    latest_seq: t.latest_seq,
                },
            )
        } else {
            Ok(events_newer_than(t.events, cursor.seq))
        }
    }
}

/// The rejection of an event that does not advance its thread's sequence.
pub open spec fn seq_error(id: ThreadId, seq: u64, latest: u64) -> ErrorView {
    ErrorView::ProjectionFailed {
        message: "runtime event seq must increase for thread "@ + uuid_text(id.spec_bits()) + ": received "@
            + decimal_text(seq as nat) + ", latest "@ + decimal_text(latest as nat),
    }
}

/// Why `e` cannot be appended, if it cannot.
spec fn append_error(l: Seq<ThreadLogView>, e: EventView) -> Option<ErrorView> {
    if e.seq <= latest_of(l, e.thread_id) {
        Some(seq_error(e.thread_id, e.seq, latest_of(l, e.thread_id)))
    } else {
        None
    }
}

/// Keeps the newest `cap` events when a capacity is given.
pub open spec fn keep_newest(s: Seq<EventView>, cap: Option<usize>) -> Seq<EventView> {
    match cap {
        Some(c) => if s.len() > c {
            s.subrange(s.len() - c, s.len() as int)
        } else {
            s
        },
        None => s,
    }
}

/// The threads of the log by id.
pub open spec fn log_map(l: Seq<ThreadLogView>) -> Map<ThreadId, ThreadLogView> {
    Map::new(|id: ThreadId| log_pos(l, id) >= 0, |id: ThreadId| l[log_pos(l, id)])
}

/// What is kept for thread `id`: its entry, or an empty one for a thread never seen.
spec fn entry_of(l: Seq<ThreadLogView>, id: ThreadId) -> ThreadLogView {
    if log_pos(l, id) >= 0 {
        l[log_pos(l, id)]
    } else {
        ThreadLogView { thread_id: id, latest_seq: 0, events: Seq::empty() }
    }
}

/// Thread `id` after event `e` is recorded, keeping at most `cap` events.
spec fn recorded(l: Seq<ThreadLogView>, e: EventView, cap: Option<usize>) -> ThreadLogView {
    ThreadLogView {
        thread_id: e.thread_id,
        latest_seq: e.seq,
        events: keep_newest(entry_of(l, e.thread_id).events.push(e), cap),
    }
}

/// What is kept for thread `id`: its entry, or an empty one for a thread never seen.
pub open spec fn entry_in(m: Map<ThreadId, ThreadLogView>, id: ThreadId) -> ThreadLogView {
    if m.contains_key(id) {
        m[id]
    } else {
        ThreadLogView { thread_id: id, latest_seq: 0, events: Seq::empty() }
    }
}

/// The latest sequence number recorded for thread `id` (0 for a thread never seen).
pub open spec fn latest_in(m: Map<ThreadId, ThreadLogView>, id: ThreadId) -> u64 {
    entry_in(m, id).latest_seq
}

/// Why `e` cannot be appended, if it cannot: its seq must exceed its thread's latest.
pub open spec fn rejects(m: Map<ThreadId, ThreadLogView>, e: EventView) -> Option<ErrorView> {
    if e.seq <= latest_in(m, e.thread_id) {
        Some(seq_error(e.thread_id, e.seq, latest_in(m, e.thread_id)))
    } else {
        None
    }
}

/// The log after `e` is recorded: its thread's latest seq becomes `e.seq` and
/// `e` is retained last, keeping at most `cap` events.
pub open spec fn appended(m: Map<ThreadId, ThreadLogView>, e: EventView, cap: Option<usize>) -> Map<ThreadId, ThreadLogView> {
    m.insert(
        e.thread_id,
        ThreadLogView {
            thread_id: e.thread_id,
            latest_seq: e.seq,
            events: keep_newest(entry_in(m, e.thread_id).events.push(e), cap),
        },
    )
}

/// The log after thread `id`'s replay is dropped and its latest seq set.
pub open spec fn invalidated(m: Map<ThreadId, ThreadLogView>, id: ThreadId, latest: u64) -> Map<ThreadId, ThreadLogView> {
    m.insert(id, ThreadLogView { thread_id: id, latest_seq: latest, events: Seq::empty() })
}

/// Replay from `cursor`: nothing for an unknown thread; `StaleRuntime` when
/// events after the cursor are no longer retained; otherwise the retained
/// events after the cursor, in order.
pub open spec fn replay(m: Map<ThreadId, ThreadLogView>, cursor: RuntimeCursor) -> Result<Seq<EventView>, ErrorView> {
    if !m.contains_key(cursor.thread_id) {
        Ok(Seq::empty())
    } else {
        let t = m[cursor.thread_id];
        if cursor.seq < oldest_replayable(t) {
            Err(
                ErrorView::StaleRuntime {
                    thread_id: cursor.thread_id,
                    requested_seq: cursor.seq,
                    oldest_available_seq: oldest_available(t),
                    latest_seq: t.latest_seq,
                },
            )
        } else {
            Ok(events_newer_than(t.events, cursor.seq))
        }
    }
}

/// The seq-level rules agree with the map-level ones.
proof fn lemma_log_agrees(l: Seq<ThreadLogView>, id: ThreadId, e: EventView, cursor: RuntimeCursor, cap: Option<usize>)
    requires
        log_ascending(l),
    ensures
        entry_of(l, id) == entry_in(log_map(l), id),
        latest_of(l, id) == latest_in(log_map(l), id),
        append_error(l, e) == rejects(log_map(l), e),
        log_map(l).insert(e.thread_id, recorded(l, e, cap)) == appended(log_map(l), e, cap),
        replay_spec(l, cursor) == replay(log_map(l), cursor),
{
    lemma_log_map_facts(l, id);
    lemma_log_map_facts(l, e.thread_id);
    lemma_log_map_facts(l, cursor.thread_id);
}

proof fn lemma_recorded_ordered(t: ThreadLogView, e: EventView, cap: Option<usize>)
    requires
        thread_ordered(t),
        e.seq > t.latest_seq,
        e.thread_id == t.thread_id,
    ensures
        thread_ordered(ThreadLogView { thread_id: t.thread_id, latest_seq: e.seq, events: keep_newest(t.events.push(e), cap) }),
{
    let s = t.events.push(e);
    assert(thread_ordered(ThreadLogView { thread_id: t.thread_id, latest_seq: e.seq, events: s })) by {
        assert forall|i: int, j: int| 0 <= i < j < s.len() implies (#[trigger] s[i]).seq < (#[trigger] s[j]).seq by {
            if j == s.len() - 1 {
                assert(t.events[i].seq <= t.latest_seq);
            }
        }
        assert forall|i: int| 0 <= i < s.len() implies (#[trigger] s[i]).seq <= e.seq by {
            if i < s.len() - 1 {
                assert(t.events[i].seq <= t.latest_seq);
            }
        }
    }
    match cap {
        Some(c) => if s.len() > c {
            let k = s.subrange(s.len() - c, s.len() as int);
            assert forall|i: int, j: int| 0 <= i < j < k.len() implies (#[trigger] k[i]).seq < (#[trigger] k[j]).seq by {
                assert(k[i] == s[i + s.len() - c]);
                assert(k[j] == s[j + s.len() - c]);
            }
            assert forall|i: int| 0 <= i < k.len() implies (#[trigger] k[i]).seq <= e.seq && k[i].thread_id == t.thread_id by {
                assert(k[i] == s[i + s.len() - c]);
            }
        },
        None => {},
    }
}

proof fn lemma_log_distinct(l: Seq<ThreadLogView>, i: int, j: int)
    requires
        log_ascending(l),
        0 <= i < l.len(),
        0 <= j < l.len(),
        i != j,
    ensures
        l[i].thread_id != l[j].thread_id,
{
    if i < j {
        assert(l[i].thread_id.spec_bits() < l[j].thread_id.spec_bits());
    } else {
        assert(l[j].thread_id.spec_bits() < l[i].thread_id.spec_bits());
    }
}

proof fn lemma_log_pos_unique(l: Seq<ThreadLogView>, k: int)
    requires
        log_ascending(l),
        0 <= k < l.len(),
    ensures
        log_pos(l, l[k].thread_id) == k,
{
    let id = l[k].thread_id;
    assert forall|j: int| 0 <= j < k implies !log_is(id)(l[j]) by {
        lemma_log_distinct(l, j, k);
    }
    lemma_first_index_found(l, log_is(id), k);
}

/// Replacing entry `k` by one with the same id keeps the order and changes the map at that id.
proof fn lemma_log_replace(l: Seq<ThreadLogView>, k: int, t: ThreadLogView)
    requires
        log_ascending(l),
        0 <= k < l.len(),
        t.thread_id == l[k].thread_id,
    ensures
        log_ascending(l.update(k, t)),
        log_map(l.update(k, t)) == log_map(l).insert(t.thread_id, t),
{
    let s = l.update(k, t);
    assert(log_ascending(s)) by {
        assert forall|a: int, b: int| 0 <= a < b < s.len() implies (#[trigger] s[a]).thread_id.spec_bits()
            < (#[trigger] s[b]).thread_id.spec_bits() by {
            assert(l[a].thread_id.spec_bits() < l[b].thread_id.spec_bits());
        }
    }
    assert forall|id: ThreadId| #[trigger] log_map(s).contains_key(id) == log_map(l).insert(t.thread_id, t).contains_key(id)
        && (log_map(s).contains_key(id) ==> log_map(s)[id] == log_map(l).insert(t.thread_id, t)[id]) by {
        lemma_first_index_update(l, k, t, log_is(id));
        lemma_first_index_spec(l, log_is(id));
        if id == t.thread_id {
            lemma_log_pos_unique(l, k);
        }
    }
    assert(log_map(s) =~= log_map(l).insert(t.thread_id, t));
}

/// Inserting `t` at `j`, between smaller and greater ids, keeps the order and adds it to the map.
proof fn lemma_log_insert(l: Seq<ThreadLogView>, j: int, t: ThreadLogView)
    requires
        log_ascending(l),
        0 <= j <= l.len(),
        forall|k: int| 0 <= k < j ==> (#[trigger] l[k]).thread_id.spec_bits() < t.thread_id.spec_bits(),
        forall|k: int| j <= k < l.len() ==> t.thread_id.spec_bits() < (#[trigger] l[k]).thread_id.spec_bits(),
    ensures
        log_ascending(l.insert(j, t)),
        log_map(l.insert(j, t)) == log_map(l).insert(t.thread_id, t),
{
    let s = l.insert(j, t);
    assert(log_ascending(s)) by {
        assert forall|a: int, b: int| 0 <= a < b < s.len() implies (#[trigger] s[a]).thread_id.spec_bits()
            < (#[trigger] s[b]).thread_id.spec_bits() by {
            if a < j && b < j {
            } else if a < j && b == j {
            } else if a < j {
                assert(s[b] == l[b - 1]);
            } else if a == j {
                assert(s[b] == l[b - 1]);
            } else {
                assert(s[a] == l[a - 1]);
                assert(s[b] == l[b - 1]);
            }
        }
    }
    let id = t.thread_id;
    lemma_first_index_spec(l, log_is(id));
    if log_pos(l, id) >= 0 {
        let k = log_pos(l, id);
        if k < j {
            assert(l[k].thread_id.spec_bits() < id.spec_bits());
        } else {
            assert(id.spec_bits() < l[k].thread_id.spec_bits());
        }
        assert(false);
    }
    assert forall|other: ThreadId| #[trigger] log_map(s).contains_key(other) == log_map(l).insert(id, t).contains_key(other)
        && (log_map(s).contains_key(other) ==> log_map(s)[other] == log_map(l).insert(id, t)[other]) by {
        lemma_first_index_spec(l, log_is(other));
        lemma_first_index_spec(s, log_is(other));
        if other == id {
            assert(s[j] == t);
            lemma_log_pos_unique(s, j);
        } else if log_pos(l, other) >= 0 {
            let k = log_pos(l, other);
            let k2 = if k < j { k } else { k + 1 };
            assert(s[k2] == l[k]);
            lemma_log_pos_unique(s, k2);
        } else {
            assert forall|m: int| 0 <= m < s.len() implies !log_is(other)(s[m]) by {
                if m < j {
                    assert(s[m] == l[m]);
                } else if m > j {
                    assert(s[m] == l[m - 1]);
                }
            }
        }
    }
    assert(log_map(s) =~= log_map(l).insert(id, t));
}

/// The map determines replay and latest sequence numbers.
pub proof fn lemma_log_map_facts(l: Seq<ThreadLogView>, id: ThreadId)
    requires
        log_ascending(l),
    ensures
        log_map(l).contains_key(id) <==> log_pos(l, id) >= 0,
        log_pos(l, id) >= 0 ==> log_map(l)[id] == l[log_pos(l, id)] && l[log_pos(l, id)].thread_id == id,
{
    lemma_first_index_spec(l, log_is(id));
}


impl EventLog {
    /// Ids ascending, so none occurs twice.
    pub closed spec fn wf(&self) -> bool {
        log_ascending(self.entries()) && log_ordered(self.entries())
    }

    /// Every kept thread is keyed by its own id and its replay is ordered.
    pub proof fn lemma_ordered(&self)
        requires
            self.wf(),
        ensures
            forall|id: ThreadId| #[trigger] self@.contains_key(id) ==> self@[id].thread_id == id && thread_ordered(self@[id]),
    {
        assert forall|id: ThreadId| #[trigger] self@.contains_key(id) implies self@[id].thread_id == id && thread_ordered(self@[id]) by {
            lemma_log_map_facts(self.entries(), id);
        }
    }

    /// An empty log.
    pub fn new() -> (r: Self)
        ensures
            r.wf(),
            r@ == Map::<ThreadId, ThreadLogView>::empty(),
    {
        let r = EventLog { threads: Vec::new() };
        proof {
            assert(r@ =~= Map::<ThreadId, ThreadLogView>::empty());
        }
        r
    }

    fn find(&self, id: ThreadId) -> (r: Option<usize>)
        ensures
            match r {
                Some(i) => i == log_pos(self.entries(), id),
                None => log_pos(self.entries(), id) == -1,
            },
    {
        let mut i: usize = 0;
        while i < self.threads.len()
            invariant
                i <= self.threads.len(),
                forall|j: int| 0 <= j < i ==> !log_is(id)(self.entries()[j]),
            decreases self.threads.len() - i,
        {
            if self.threads[i].thread_id == id {
                proof {
                    lemma_first_index_found(self.entries(), log_is(id), i as int);
                }
                return Some(i);
            }
            i = i + 1;
        }
        proof {
            lemma_first_index_absent(self.entries(), log_is(id));
        }
        None
    }

    /// Puts `t` as the entry of its thread.
    fn put(&mut self, t: ThreadEvents)
        requires
            old(self).wf(),
            thread_ordered(t@),
        ensures
            final(self).wf(),
            log_map(final(self).entries()) == log_map(old(self).entries()).insert(t@.thread_id, t@),
    {
        let ghost l = self.entries();
        let ghost tv = t@;
        let id = t.thread_id;
        match self.find(id) {
            Some(i) => {
                proof {
                    lemma_first_index_spec(l, log_is(id));
                    lemma_log_replace(l, i as int, tv);
                    lemma_seq_view_update(self.threads@, i as int, t);
                }
                self.threads.set(i, t);
                proof {
                    assert(self.entries() =~= l.update(i as int, tv));
                    assert forall|k: int| 0 <= k < self.entries().len() implies thread_ordered(#[trigger] self.entries()[k]) by {
                        if k != i {
                            assert(self.entries()[k] == l[k]);
                        }
                    }
                }
            },
            None => {
                let mut j: usize = 0;
                while j < self.threads.len() && self.threads[j].thread_id.as_u128() < id.as_u128()
                    invariant
                        self.entries() == l,
                        log_ascending(l),
                        j <= self.threads.len(),
                        forall|k: int| 0 <= k < j ==> (#[trigger] l[k]).thread_id.spec_bits() < id.spec_bits(),
                    decreases self.threads.len() - j,
                {
                    j = j + 1;
                }
                proof {
                    lemma_first_index_spec(l, log_is(id));
                    assert forall|k: int| j <= k < l.len() implies id.spec_bits() < (#[trigger] l[k]).thread_id.spec_bits() by {
                        ThreadId::lemma_eq(id, l[k].thread_id);
                        assert(!log_is(id)(l[k]));
                        if k > j {
                            assert(l[j as int].thread_id.spec_bits() < l[k].thread_id.spec_bits());
                        }
                    }
                    lemma_log_insert(l, j as int, tv);
                    lemma_seq_view_insert(self.threads@, j as int, t);
                }
                self.threads.insert(j, t);
                proof {
                    assert(self.entries() =~= l.insert(j as int, tv));
                    assert forall|k: int| 0 <= k < self.entries().len() implies thread_ordered(#[trigger] self.entries()[k]) by {
                        if k < j {
                            assert(self.entries()[k] == l[k]);
                        } else if k > j {
                            assert(self.entries()[k] == l[k - 1]);
                        }
                    }
                }
            },
        }
    }

    /// The entry of thread `id`, a fresh empty one for a thread never seen.
    fn take_entry(&self, id: ThreadId) -> (r: ThreadEvents)
        requires
            self.wf(),
        ensures
            r@ == entry_of(self.entries(), id),
            thread_ordered(r@),
            r@.thread_id == id,
    {
        match self.find(id) {
            Some(i) => {
                proof {
                    lemma_first_index_spec(self.entries(), log_is(id));
                }
                let t = &self.threads[i];
                let mut events: Vec<AgentRuntimeEvent> = Vec::new();
                let mut k: usize = 0;
                while k < t.events.len()
                    invariant
                        k <= t.events.len(),
                        seq_view(events@) == seq_view(t.events@).take(k as int),
                    decreases t.events.len() - k,
                {
                    let e = t.events[k].duplicate();
                    proof {
                        lemma_seq_view_push(events@, e);
                        assert(seq_view(t.events@).take(k + 1) =~= seq_view(t.events@).take(k as int).push(e@));
                    }
                    events.push(e);
                    k = k + 1;
                }
                proof {
                    assert(seq_view(t.events@).take(t.events.len() as int) =~= seq_view(t.events@));
                }
                ThreadEvents { thread_id: t.thread_id, latest_seq: t.latest_seq, events }
            },
            None => {
                proof {
                    lemma_seq_view_empty::<AgentRuntimeEvent>();
                }
                ThreadEvents { thread_id: id, latest_seq: 0, events: Vec::new() }
            },
        }
    }

    /// The latest sequence number recorded for thread `id` (0 for a thread never seen).
    pub fn latest_seq(&self, id: ThreadId) -> (r: u64)
        requires
            self.wf(),
        ensures
            r == latest_in(self@, id),
    {
        proof {
            lemma_log_agrees(self.entries(), id, arbitrary(), arbitrary(), None);
        }
        match self.find(id) {
            Some(i) => self.threads[i].latest_seq,
            None => 0,
        }
    }

    /// Whether `event` may be appended; see [`append_error`].
    pub fn validate_event(&self, event: &AgentRuntimeEvent) -> (r: Result<(), AgentRuntimeError>)
        requires
            self.wf(),
        ensures
            match r {
                Ok(_) => rejects(self@, event@).is_none(),
                Err(e) => rejects(self@, event@) == Some(e@),
            },
    {
        let latest = self.latest_seq(event.thread_id);
        if event.seq <= latest {
            return Err(seq_error_message(event.thread_id, event.seq, latest));
        }
        Ok(())
    }

    /// Records `event` as its thread's latest, keeping at most `cap` events.
    pub fn record(&mut self, event: AgentRuntimeEvent, cap: Option<usize>)
        requires
            old(self).wf(),
            rejects(old(self)@, event@).is_none(),
        ensures
            final(self).wf(),
            final(self)@ == appended(old(self)@, event@, cap),
    {
        proof {
            lemma_log_agrees(self.entries(), event.thread_id, event@, arbitrary(), cap);
        }
        let ghost l = self.entries();
        let ghost ev = event@;
        let entry = self.take_entry(event.thread_id);
        let ghost tv = entry@;
        let mut events = entry.events;
        proof {
            lemma_seq_view_push(events@, event);
        }
        let seq = event.seq;
        let id = event.thread_id;
        events.push(event);
        let kept = match cap {
            Some(c) => if events.len() > c {
                let start = events.len() - c;
                let mut out: Vec<AgentRuntimeEvent> = Vec::new();
                let mut k: usize = start;
                let ghost all = seq_view(events@);
                while k < events.len()
                    invariant
                        start <= k <= events.len(),
                        all == seq_view(events@),
                        seq_view(out@) == all.subrange(start as int, k as int),
                    decreases events.len() - k,
                {
                    let e = events[k].duplicate();
                    proof {
                        lemma_seq_view_push(out@, e);
                        assert(all.subrange(start as int, k + 1) =~= all.subrange(start as int, k as int).push(e@));
                    }
                    out.push(e);
                    k = k + 1;
                }
                out
            } else {
                events
            },
            None => events,
        };
        let fresh = ThreadEvents { thread_id: id, latest_seq: seq, events: kept };
        proof {
            lemma_recorded_ordered(tv, ev, cap);
            assert(fresh@ == ThreadLogView { thread_id: tv.thread_id, latest_seq: ev.seq, events: keep_newest(tv.events.push(ev), cap) });
        }
        self.put(fresh);
    }

    /// Replay from `cursor`; see [`replay_spec`].
    pub fn events_after(&self, cursor: RuntimeCursor) -> (r: Result<Vec<AgentRuntimeEvent>, AgentRuntimeError>)
        requires
            self.wf(),
        ensures
            events_res(r) == replay(self@, cursor),
    {
        proof {
            lemma_log_agrees(self.entries(), cursor.thread_id, arbitrary(), cursor, None);
        }
        let i = match self.find(cursor.thread_id) {
            Some(i) => i,
            None => {
                proof {
                    lemma_seq_view_empty::<AgentRuntimeEvent>();
                }
                return Ok(Vec::new());
            },
        };
        let t = &self.threads[i];
        let oldest = if t.events.len() > 0 {
            t.events[0].seq
        } else if t.latest_seq == u64::MAX {
            t.latest_seq
        } else {
            t.latest_seq + 1
        };
        let floor = if oldest == 0 { 0 } else { oldest - 1 };
        if cursor.seq < floor {
            return Err(AgentRuntimeError::StaleRuntime {
                thread_id: cursor.thread_id,
                requested_seq: cursor.seq,
                oldest_available_seq: oldest,
                latest_seq: t.latest_seq,
            });
        }
        let ghost all = seq_view(t.events@);
        let mut out: Vec<AgentRuntimeEvent> = Vec::new();
        proof {
            lemma_seq_view_empty::<AgentRuntimeEvent>();
        }
        let mut k: usize = 0;
        while k < t.events.len()
            invariant
                k <= t.events.len(),
                all == seq_view(t.events@),
                seq_view(out@) == events_newer_than(all.take(k as int), cursor.seq),
            decreases t.events.len() - k,
        {
            proof {
                lemma_events_newer_than_step(all, k as int, cursor.seq);
            }
            if t.events[k].seq > cursor.seq {
                let e = t.events[k].duplicate();
                proof {
                    lemma_seq_view_push(out@, e);
                }
                out.push(e);
            }
            k = k + 1;
        }
        proof {
            assert(all.take(all.len() as int) =~= all);
        }
        Ok(out)
    }

    /// Drops thread `id`'s replay and sets its latest sequence number.
    pub fn invalidate_thread(&mut self, thread_id: ThreadId, latest_seq: u64)
        requires
            old(self).wf(),
        ensures
            final(self).wf(),
            final(self)@ == invalidated(old(self)@, thread_id, latest_seq),
    {
        proof {
            lemma_seq_view_empty::<AgentRuntimeEvent>();
        }
        self.put(ThreadEvents { thread_id, latest_seq, events: Vec::new() });
    }

    /// Creates the (empty) entry of thread `id` when it has none.
    pub fn touch(&mut self, id: ThreadId)
        requires
            old(self).wf(),
        ensures
            final(self).wf(),
            final(self)@ == old(self)@.insert(id, entry_in(old(self)@, id)),
    {
        proof {
            lemma_log_agrees(self.entries(), id, arbitrary(), arbitrary(), None);
        }
        let entry = self.take_entry(id);
        self.put(entry);
    }
}

/// The rejection of an event that does not advance its thread; see [`seq_error`].
pub fn seq_error_message(id: ThreadId, seq: u64, latest: u64) -> (e: AgentRuntimeError)
    ensures
        e@ == seq_error(id, seq, latest),
{
    let mut message = String::from_str("runtime event seq must increase for thread ");
    let text = id.to_text();
    message.append(text.as_str());
    message.append(": received ");
    push_decimal(&mut message, seq);
    message.append(", latest ");
    push_decimal(&mut message, latest);
    AgentRuntimeError::ProjectionFailed { message }
}

/// Events `a` and `b` are in replay order: by thread id, then by sequence number.
pub open spec fn replay_ordered(a: EventView, b: EventView) -> bool {
    ||| a.thread_id.spec_bits() < b.thread_id.spec_bits()
    ||| (a.thread_id == b.thread_id && a.seq < b.seq)
}

/// The retained events of the entries of `l`, entry by entry.
pub open spec fn flatten_events(l: Seq<ThreadLogView>) -> Seq<EventView>
    decreases l.len(),
{
    if l.len() == 0 {
        Seq::empty()
    } else {
        flatten_events(l.drop_last()) + l.last().events
    }
}

proof fn lemma_flatten_bound(l: Seq<ThreadLogView>, b: u128)
    requires
        log_ordered(l),
        forall|k: int| 0 <= k < l.len() ==> (#[trigger] l[k]).thread_id.spec_bits() < b,
    ensures
        forall|i: int| 0 <= i < flatten_events(l).len() ==> (#[trigger] flatten_events(l)[i]).thread_id.spec_bits() < b,
    decreases l.len(),
{
    if l.len() > 0 {
        let p = l.drop_last();
        assert(log_ordered(p)) by {
            assert forall|k: int| 0 <= k < p.len() implies thread_ordered(#[trigger] p[k]) by {
                assert(p[k] == l[k]);
            }
        }
        assert forall|k: int| 0 <= k < p.len() implies (#[trigger] p[k]).thread_id.spec_bits() < b by {
            assert(p[k] == l[k]);
        }
        lemma_flatten_bound(p, b);
        let t = l.last();
        assert(thread_ordered(l[l.len() - 1]));
        let f = flatten_events(l);
        assert forall|i: int| 0 <= i < f.len() implies (#[trigger] f[i]).thread_id.spec_bits() < b by {
            if i < flatten_events(p).len() {
                assert(f[i] == flatten_events(p)[i]);
            } else {
                assert(f[i] == t.events[i - flatten_events(p).len()]);
            }
        }
    }
}

proof fn lemma_flatten_sorted(l: Seq<ThreadLogView>)
    requires
        log_ascending(l),
        log_ordered(l),
    ensures
        forall|i: int, j: int|
            0 <= i < j < flatten_events(l).len() ==> replay_ordered(
                #[trigger] flatten_events(l)[i],
                #[trigger] flatten_events(l)[j],
            ),
    decreases l.len(),
{
    if l.len() > 0 {
        let p = l.drop_last();
        let t = l.last();
        assert(log_ordered(p)) by {
            assert forall|k: int| 0 <= k < p.len() implies thread_ordered(#[trigger] p[k]) by {
                assert(p[k] == l[k]);
            }
        }
        assert(log_ascending(p)) by {
            assert forall|i: int, j: int| 0 <= i < j < p.len() implies (#[trigger] p[i]).thread_id.spec_bits() < (
            #[trigger] p[j]).thread_id.spec_bits() by {
                assert(p[i] == l[i] && p[j] == l[j]);
            }
        }
        lemma_flatten_sorted(p);
        assert forall|k: int| 0 <= k < p.len() implies (#[trigger] p[k]).thread_id.spec_bits() < t.thread_id.spec_bits() by {
            assert(p[k] == l[k]);
        }
        lemma_flatten_bound(p, t.thread_id.spec_bits());
        assert(thread_ordered(l[l.len() - 1]));
        let fp = flatten_events(p);
        let f = flatten_events(l);
        assert forall|i: int, j: int| 0 <= i < j < f.len() implies replay_ordered(#[trigger] f[i], #[trigger] f[j]) by {
            let n = fp.len() as int;
            if j < n {
                assert(f[i] == fp[i] && f[j] == fp[j]);
            } else if i < n {
                assert(f[i] == fp[i]);
                assert(f[j] == t.events[j - n]);
            } else {
                assert(f[i] == t.events[i - n] && f[j] == t.events[j - n]);
            }
        }
    }
}

proof fn lemma_flatten_members(l: Seq<ThreadLogView>, e: EventView)
    ensures
        flatten_events(l).contains(e) <==> exists|k: int| 0 <= k < l.len() && (#[trigger] l[k]).events.contains(e),
    decreases l.len(),
{
    if l.len() > 0 {
        let p = l.drop_last();
        lemma_flatten_members(p, e);
        let fp = flatten_events(p);
        let t = l.last();
        let f = flatten_events(l);
        if f.contains(e) {
            let i = choose|i: int| 0 <= i < f.len() && f[i] == e;
            if i < fp.len() {
                assert(fp[i] == e);
                assert(fp.contains(e));
                let k = choose|k: int| 0 <= k < p.len() && (#[trigger] p[k]).events.contains(e);
                assert(l[k] == p[k]);
            } else {
                assert(t.events[i - fp.len()] == e);
                assert(l[l.len() - 1].events.contains(e));
            }
        }
        if exists|k: int| 0 <= k < l.len() && (#[trigger] l[k]).events.contains(e) {
            let k = choose|k: int| 0 <= k < l.len() && (#[trigger] l[k]).events.contains(e);
            if k < l.len() - 1 {
                assert(p[k] == l[k]);
                assert(fp.contains(e));
                let i = choose|i: int| 0 <= i < fp.len() && fp[i] == e;
                assert(f[i] == e);
            } else {
                let i = choose|i: int| 0 <= i < t.events.len() && t.events[i] == e;
                assert(f[fp.len() + i] == e);
            }
        }
    }
}

impl EventLog {
    /// Every retained event, thread by thread in ascending order of thread id,
    /// each thread's in sequence order.
    pub fn all_events(&self) -> (r: Vec<AgentRuntimeEvent>)
        requires
            self.wf(),
        ensures
            forall|i: int, j: int|
                0 <= i < j < r.len() ==> replay_ordered(#[trigger] r@[i]@, #[trigger] r@[j]@),
            forall|e: EventView|
                seq_view(r@).contains(e) <==> exists|id: ThreadId| #[trigger] self@.contains_key(id) && self@[id].events.contains(e),
    {
        let ghost l = self.entries();
        let mut r: Vec<AgentRuntimeEvent> = Vec::new();
        let mut i: usize = 0;
        while i < self.threads.len()
            invariant
                i <= self.threads.len(),
                l == self.entries(),
                seq_view(r@) == flatten_events(l.take(i as int)),
            decreases self.threads.len() - i,
        {
            let mut evs = crate::dup::duplicate_vec(&self.threads[i].events);
            let ghost before = r@;
            let ghost added = evs@;
            r.append(&mut evs);
            proof {
                assert(r@ == before + added);
                crate::dup::lemma_seq_view_add(before, added);
                assert(l.take(i + 1).drop_last() =~= l.take(i as int));
                assert(l.take(i + 1).last() == l[i as int]);
                assert(l[i as int] == self.threads@[i as int]@);
            }
            i = i + 1;
        }
        proof {
            assert(l.take(i as int) =~= l);
            lemma_flatten_sorted(l);
            let f = flatten_events(l);
            assert forall|a: int, b: int| 0 <= a < b < r.len() implies replay_ordered(#[trigger] r@[a]@, #[trigger] r@[b]@) by {
                assert(r@[a]@ == f[a] && r@[b]@ == f[b]);
            }
            assert forall|e: EventView|
                seq_view(r@).contains(e) <==> exists|id: ThreadId| #[trigger] self@.contains_key(id) && self@[id].events.contains(e) by {
                lemma_flatten_members(l, e);
                if seq_view(r@).contains(e) {
                    let k = choose|k: int| 0 <= k < l.len() && (#[trigger] l[k]).events.contains(e);
                    let id = l[k].thread_id;
                    lemma_log_map_facts(l, id);
                    lemma_first_index_spec(l, log_is(id));
                    assert(log_pos(l, id) == k) by {
                        let q = log_pos(l, id);
                        if q != k {
                            if q < k {
                                assert(l[q].thread_id.spec_bits() < l[k].thread_id.spec_bits());
                            } else {
                                assert(l[k].thread_id.spec_bits() < l[q].thread_id.spec_bits());
                            }
                        }
                    }
                    assert(self@.contains_key(id));
                }
                if exists|id: ThreadId| #[trigger] self@.contains_key(id) && self@[id].events.contains(e) {
                    let id = choose|id: ThreadId| #[trigger] self@.contains_key(id) && self@[id].events.contains(e);
                    lemma_log_map_facts(l, id);
                    let k = log_pos(l, id);
                    assert(l[k].events.contains(e));
                }
            }
        }
        r
    }
}

/// In-memory replay store, optionally retaining at most a fixed number of
/// events per thread.
pub struct InMemoryAgentRuntimeEventStore {
    log: EventLog,
    replay_capacity: Option<usize>,
}

impl InMemoryAgentRuntimeEventStore {
    pub closed spec fn wf(&self) -> bool {
        &&& self.log.wf()
        &&& self.replay_capacity matches Some(c) ==> c > 0
    }

    /// The kept threads.
    pub closed spec fn threads(&self) -> Map<ThreadId, ThreadLogView> {
        self.log@
    }

    /// The per-thread capacity, if bounded.
    pub closed spec fn capacity(&self) -> Option<usize> {
        self.replay_capacity
    }

    /// An unbounded store.
    pub fn new() -> (r: Self)
        ensures
            r.wf(),
            r.threads() == Map::<ThreadId, ThreadLogView>::empty(),
            r.capacity().is_none(),
    {
        InMemoryAgentRuntimeEventStore { log: EventLog::new(), replay_capacity: None }
    }

    /// A store keeping at most `replay_capacity` events per thread; the
    /// capacity is non-zero, so the oldest retained seq is always meaningful.
    pub fn with_replay_capacity(replay_capacity: usize) -> (r: Self)
        requires
            replay_capacity > 0,
        ensures
            r.wf(),
            r.threads() == Map::<ThreadId, ThreadLogView>::empty(),
            r.capacity() == Some(replay_capacity),
    {
        InMemoryAgentRuntimeEventStore { log: EventLog::new(), replay_capacity: Some(replay_capacity) }
    }

    /// Appends `event`: its seq must exceed its thread's latest, else
    /// `ProjectionFailed` (the thread is still registered); see [`rejects`]
    /// and [`appended`].
    pub fn append(&mut self, event: AgentRuntimeEvent) -> (r: Result<RuntimeCursor, AgentRuntimeError>)
        requires
            old(self).wf(),
        ensures
            final(self).wf(),
            final(self).capacity() == old(self).capacity(),
            match rejects(old(self).threads(), event@) {
                Some(e) => {
                    &&& r matches Err(err) && err@ == e
                    &&& final(self).threads() == old(self).threads().insert(
                        event@.thread_id,
                        entry_in(old(self).threads(), event@.thread_id),
                    )
                },
                None => {
                    &&& r matches Ok(c) && c.thread_id == event.thread_id && c.seq == event.seq
                    &&& final(self).threads() == appended(old(self).threads(), event@, old(self).capacity())
                },
            },
    {
        let ghost m = self.log@;
        self.log.touch(event.thread_id);
        proof {
            assert(entry_in(self.log@, event@.thread_id) == entry_in(m, event@.thread_id));
            assert(rejects(self.log@, event@) == rejects(m, event@));
            assert(appended(self.log@, event@, self.replay_capacity) =~= appended(m, event@, self.replay_capacity));
        }
        self.log.validate_event(&event)?;
        let cursor = event.cursor();
        self.log.record(event, self.replay_capacity);
        Ok(cursor)
    }

    /// Replay from `cursor`; see [`replay`].
    pub fn events_after(&self, cursor: RuntimeCursor) -> (r: Result<Vec<AgentRuntimeEvent>, AgentRuntimeError>)
        requires
            self.wf(),
        ensures
            events_res(r) == replay(self.threads(), cursor),
    {
        self.log.events_after(cursor)
    }

    /// Drops thread `thread_id`'s replay after an out-of-band rewrite, so that
    /// cursors up to `latest_seq` read as stale; see [`invalidated`].
    pub fn invalidate_thread(&mut self, thread_id: ThreadId, latest_seq: u64) -> (r: Result<(), AgentRuntimeError>)
        requires
            old(self).wf(),
        ensures
            final(self).wf(),
            final(self).capacity() == old(self).capacity(),
            final(self).threads() == invalidated(old(self).threads(), thread_id, latest_seq),
            r is Ok,
    {
        self.log.invalidate_thread(thread_id, latest_seq);
        Ok(())
    }
}

impl Default for InMemoryAgentRuntimeEventStore {
    fn default() -> (r: Self)
        ensures
            r.wf(),
            r.threads() == Map::<ThreadId, ThreadLogView>::empty(),
            r.capacity().is_none(),
    {
        InMemoryAgentRuntimeEventStore::new()
    }
}

} // verus!
