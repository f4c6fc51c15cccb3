//! Decisions of a replay-then-live subscription to semantic runtime events:
//! the startup replay error is reported once, live events already covered by
//! the replay (or by the cursor) are dropped, and lag is reported as a stale
//! cursor.

use vstd::prelude::*;
use vstd::string::*;

use crate::dup::{res_view, seq_view, Duplicate};
use crate::error::{AgentRuntimeError, ErrorView};
use crate::event::{events_res, AgentRuntimeEvent, EventView};
use crate::ids::{RuntimeCursor, ThreadId};

verus! {

/// The latest seq seen for thread `id` among `entries` (first entry of the thread).
pub open spec fn seen_seq(entries: Seq<(ThreadId, u64)>, id: ThreadId) -> Option<u64>
    decreases entries.len(),
{
    if entries.len() == 0 {
        None
    } else if entries[0].0 == id {
        Some(entries[0].1)
    } else {
        seen_seq(entries.drop_first(), id)
    }
}

/// `entries` after seeing `seq` on thread `id`: the thread's latest becomes
/// the larger of the two.
pub open spec fn note_seq(entries: Seq<(ThreadId, u64)>, id: ThreadId, seq: u64) -> Seq<(ThreadId, u64)>
    decreases entries.len(),
{
    if entries.len() == 0 {
        seq![(id, seq)]
    } else if entries[0].0 == id {
        entries.update(0, (id, if entries[0].1 < seq { seq } else { entries[0].1 }))
    } else {
        seq![entries[0]] + note_seq(entries.drop_first(), id, seq)
    }
}

/// The latest seqs after seeing every event of `events` in order.
pub open spec fn note_events(entries: Seq<(ThreadId, u64)>, events: Seq<EventView>) -> Seq<(ThreadId, u64)>
    decreases events.len(),
{
    if events.len() == 0 {
        entries
    } else {
        note_seq(note_events(entries, events.drop_last()), events.last().thread_id, events.last().seq)
    }
}

/// The latest seqs a subscription starts with: the cursor's, then each replayed event's.
pub open spec fn initial_seen(replay: Result<Seq<EventView>, ErrorView>, cursor: Option<RuntimeCursor>) -> Seq<(ThreadId, u64)> {
    let base = match cursor {
        Some(c) => seq![(c.thread_id, c.seq)],
        None => Seq::empty(),
    };
    match replay {
        Ok(events) => note_events(base, events),
        Err(_) => base,
    }
}

/// The error reported when live events were missed: a stale cursor at the
/// first thread seen (the nil thread at 0 when none was).
pub open spec fn lag_error(entries: Seq<(ThreadId, u64)>) -> ErrorView {
    let (thread_id, latest) = if entries.len() > 0 {
        entries[0]
    } else {
        (ThreadId::nil_spec(), 0u64)
    };
    ErrorView::StaleRuntime {
        thread_id,
        requested_seq: latest,
        oldest_available_seq: if latest == u64::MAX {
            latest
        } else {
            (latest + 1) as u64
        },
        latest_seq: latest,
    }
}

/// The state of one subscription.
pub struct RuntimeSubscription {
    replay: Result<Vec<AgentRuntimeEvent>, AgentRuntimeError>,
    last_replay_seq_by_thread: Vec<(ThreadId, u64)>,
    startup_error_returned: bool,
}

impl RuntimeSubscription {
    /// The replay result the subscription started with.
    pub closed spec fn replayed(&self) -> Result<Seq<EventView>, ErrorView> {
        events_res(self.replay)
    }

    /// The latest seq seen per thread, threads in first-seen order.
    pub closed spec fn seen(&self) -> Seq<(ThreadId, u64)> {
        self.last_replay_seq_by_thread@
    }

    /// The startup error was already given its one chance to be reported.
    pub closed spec fn startup_reported(&self) -> bool {
        self.startup_error_returned
    }

    fn note(entries: &mut Vec<(ThreadId, u64)>, id: ThreadId, seq: u64)
        ensures
            final(entries)@ == note_seq(old(entries)@, id, seq),
    {
        let ghost e0 = entries@;
        let mut i: usize = 0;
        proof {
            assert(e0.skip(0) =~= e0);
            assert(e0.take(0) + e0 =~= e0);
        }
        while i < entries.len()
            invariant
                i <= entries.len(),
                entries@ == e0,
                e0 == old(entries)@,
                forall|k: int| 0 <= k < i ==> (#[trigger] e0[k]).0 != id,
                note_seq(e0, id, seq) == e0.take(i as int) + note_seq(e0.skip(i as int), id, seq),
            decreases entries.len() - i,
        {
            proof {
                assert(e0.skip(i as int).drop_first() =~= e0.skip(i + 1));
                assert(e0.take(i + 1) =~= e0.take(i as int) + seq![e0[i as int]]);
            }
            if entries[i].0 == id {
                let old_seq = entries[i].1;
                let latest = if old_seq < seq { seq } else { old_seq };
                entries.set(i, (id, latest));
                proof {
                    assert(note_seq(e0.skip(i as int), id, seq) == e0.skip(i as int).update(0, (id, latest)));
                    assert(entries@ =~= e0.take(i as int) + e0.skip(i as int).update(0, (id, latest)));
                }
                return;
            }
            i = i + 1;
        }
        proof {
            assert(e0.skip(i as int).len() == 0);
        }
        entries.push((id, seq));
        proof {
            assert(entries@ =~= e0.take(i as int) + seq![(id, seq)]);
            assert(e0.take(i as int) =~= e0);
        }
    }

    /// A subscription starting from `replay` (the store's answer for
    /// `cursor`, or nothing for a live-only subscription).
    pub fn new(replay: Result<Vec<AgentRuntimeEvent>, AgentRuntimeError>, cursor: Option<RuntimeCursor>) -> (r: Self)
        ensures
            r.replayed() == events_res(replay),
            r.seen() == initial_seen(events_res(replay), cursor),
            !r.startup_reported(),
    {
        let mut entries: Vec<(ThreadId, u64)> = Vec::new();
        match cursor {
            Some(c) => {
                entries.push((c.thread_id, c.seq));
            },
            None => {},
        }
        let ghost base = entries@;
        proof {
            assert(base =~= match cursor {
                Some(c) => seq![(c.thread_id, c.seq)],
                None => Seq::<(ThreadId, u64)>::empty(),
            });
        }
        match &replay {
            Ok(events) => {
                let ghost es = seq_view(events@);
                let mut i: usize = 0;
                while i < events.len()
                    invariant
                        i <= events.len(),
                        es == seq_view(events@),
                        entries@ == note_events(base, es.take(i as int)),
                    decreases events.len() - i,
                {
                    proof {
                        assert(es.take(i + 1).drop_last() =~= es.take(i as int));
                    }
                    Self::note(&mut entries, events[i].thread_id, events[i].seq);
                    i = i + 1;
                }
                proof {
                    assert(es.take(es.len() as int) =~= es);
                }
            },
            Err(_) => {},
        }
        RuntimeSubscription { replay, last_replay_seq_by_thread: entries, startup_error_returned: false }
    }

    /// The retained replay events requested by the cursor, or why they cannot be replayed.
    pub fn replay(&self) -> (r: Result<Vec<AgentRuntimeEvent>, AgentRuntimeError>)
        ensures
            events_res(r) == self.replayed(),
    {
        match &self.replay {
            Ok(events) => Ok(crate::dup::duplicate_vec(events)),
            Err(e) => Err(e.duplicate()),
        }
    }

    /// The startup replay error, reported on the first receive only.
    pub fn take_startup_error(&mut self) -> (r: Option<AgentRuntimeError>)
        ensures
            final(self).startup_reported(),
            final(self).replayed() == old(self).replayed(),
            final(self).seen() == old(self).seen(),
            match r {
                Some(e) => !old(self).startup_reported() && old(self).replayed() == Err::<Seq<EventView>, ErrorView>(e@),
                None => old(self).startup_reported() || old(self).replayed() is Ok,
            },
    {
        if self.startup_error_returned {
            return None;
        }
        self.startup_error_returned = true;
        match &self.replay {
            Ok(_) => None,
            Err(e) => Some(e.duplicate()),
        }
    }

    /// Whether a live `event` is delivered: one at or below the latest seq
    /// already seen on its thread is a duplicate and dropped; a delivered one
    /// becomes its thread's latest.
    pub fn accept_live(&mut self, event: &AgentRuntimeEvent) -> (deliver: bool)
        ensures
            deliver == !(seen_seq(old(self).seen(), event.thread_id) matches Some(s) && event.seq <= s),
            final(self).seen() == if deliver {
                note_seq(old(self).seen(), event.thread_id, event.seq)
            } else {
                old(self).seen()
            },
            final(self).replayed() == old(self).replayed(),
            final(self).startup_reported() == old(self).startup_reported(),
    {
        match Self::seen_of(&self.last_replay_seq_by_thread, event.thread_id) {
            Some(latest) => {
                if event.seq <= latest {
                    return false;
                }
            },
            None => {},
        }
        Self::note(&mut self.last_replay_seq_by_thread, event.thread_id, event.seq);
        true
    }

    fn seen_of(entries: &Vec<(ThreadId, u64)>, id: ThreadId) -> (r: Option<u64>)
        ensures
            r == seen_seq(entries@, id),
    {
        let ghost e0 = entries@;
        let mut i: usize = 0;
        proof {
            assert(e0.skip(0) =~= e0);
        }
        while i < entries.len()
            invariant
                i <= entries.len(),
                entries@ == e0,
                seen_seq(e0, id) == seen_seq(e0.skip(i as int), id),
            decreases entries.len() - i,
        {
            proof {
                assert(e0.skip(i as int).drop_first() =~= e0.skip(i + 1));
            }
            if entries[i].0 == id {
                return Some(entries[i].1);
            }
            i = i + 1;
        }
        None
    }

    /// The stale-cursor error for missed live events; see [`lag_error`].
    pub fn lagged_error(&self) -> (e: AgentRuntimeError)
        ensures
            e@ == lag_error(self.seen()),
    {
        let (thread_id, latest_seq) = if self.last_replay_seq_by_thread.len() > 0 {
            self.last_replay_seq_by_thread[0]
        } else {
            (ThreadId::nil(), 0)
        };
        AgentRuntimeError::StaleRuntime {
            thread_id,
            requested_seq: latest_seq,
            oldest_available_seq: if latest_seq == u64::MAX { latest_seq } else { latest_seq + 1 },
            latest_seq,
        }
    }
}

/// The error reported when the live stream has closed.
pub fn closed_error() -> (e: AgentRuntimeError)
    ensures
        e@ == (ErrorView::ProjectionFailed { message: "runtime event stream closed"@ }),
{
    AgentRuntimeError::ProjectionFailed { message: String::from_str("runtime event stream closed") }
}

} // verus!
