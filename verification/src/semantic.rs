//! Decisions of the serial semantic owner: a mutation runs on a staged copy
//! of the projection state, the store is asked to record what the mutation
//! commits, and the staged copy becomes the committed state (with its events
//! published) only when the store took it; otherwise the committed state is
//! kept and nothing is published.

use vstd::prelude::*;

use crate::dup::{seq_view, Duplicate};
use crate::error::AgentRuntimeError;
use crate::event::{AgentRuntimeEvent, EventView};
use crate::ids::ThreadId;
use crate::runtime::SemanticRunErrors;

verus! {

/// What a mutation asks to make durable before it becomes visible.
pub enum Commit {
    /// Append these events to the store.
    Append(Vec<AgentRuntimeEvent>),
    /// Invalidate the stored replay of a thread, up to its latest sequence number.
    Invalidate(ThreadId, u64),
    /// Nothing to record.
    NoChange,
}

/// What the owner asks of the event store for a commit.
pub enum StoreRequest {
    /// The store is not called.
    Skip,
    /// Append these events in one batch.
    AppendBatch(Vec<AgentRuntimeEvent>),
    /// Invalidate the replay of a thread.
    InvalidateThread(ThreadId, u64),
}

/// The store request of a commit, and the events published once it
/// succeeds: an empty append asks the store nothing; an invalidation
/// publishes nothing.
pub open spec fn request_of(c: Commit) -> (StoreRequestView, Seq<EventView>) {
    match c {
        Commit::Append(events) => if events.len() == 0 {
            (StoreRequestView::Skip, Seq::empty())
        } else {
            (StoreRequestView::AppendBatch(seq_view(events@)), seq_view(events@))
        },
        Commit::Invalidate(id, seq) => (StoreRequestView::InvalidateThread(id, seq), Seq::empty()),
        Commit::NoChange => (StoreRequestView::Skip, Seq::empty()),
    }
}

pub enum StoreRequestView {
    Skip,
    AppendBatch(Seq<EventView>),
    InvalidateThread(ThreadId, u64),
}

impl View for StoreRequest {
    type V = StoreRequestView;

    open spec fn view(&self) -> StoreRequestView {
        match self {
            StoreRequest::Skip => StoreRequestView::Skip,
            StoreRequest::AppendBatch(events) => StoreRequestView::AppendBatch(seq_view(events@)),
            StoreRequest::InvalidateThread(id, seq) => StoreRequestView::InvalidateThread(*id, *seq),
        }
    }
}

/// Turns a commit into the store request and the events to publish after
/// it; see [`request_of`].
pub fn store_request(commit: Commit) -> (r: (StoreRequest, Vec<AgentRuntimeEvent>))
    ensures
        (r.0@, seq_view(r.1@)) == request_of(commit),
{
    match commit {
        Commit::Append(events) => {
            if events.len() == 0 {
                let none: Vec<AgentRuntimeEvent> = Vec::new();
                proof {
                    assert(seq_view(none@) =~= Seq::<EventView>::empty());
                }
                (StoreRequest::Skip, none)
            } else {
                let published = crate::dup::duplicate_vec(&events);
                (StoreRequest::AppendBatch(events), published)
            }
        },
        Commit::Invalidate(id, seq) => {
            let none: Vec<AgentRuntimeEvent> = Vec::new();
            proof {
                assert(seq_view(none@) =~= Seq::<EventView>::empty());
            }
            (StoreRequest::InvalidateThread(id, seq), none)
        },
        Commit::NoChange => {
            let none: Vec<AgentRuntimeEvent> = Vec::new();
            proof {
                assert(seq_view(none@) =~= Seq::<EventView>::empty());
            }
            (StoreRequest::Skip, none)
        },
    }
}

/// A mutation may run only while its run has kept no failure: the kept
/// failure is its answer otherwise.
pub fn mutation_gate(run_errors: &SemanticRunErrors) -> (r: Result<(), AgentRuntimeError>)
    ensures
        match r {
            Ok(()) => run_errors.kept().is_none(),
            Err(e) => run_errors.kept() == Some(e@),
        },
{
    match run_errors.current() {
        Some(e) => Err(e),
        None => Ok(()),
    }
}

/// Settles a mutation once the store answered `stored` (`Ok` when the store
/// was not called): on success the staged state becomes the committed one and
/// `published` is handed back to broadcast; on a failure the committed state
/// is kept, nothing is published and the failure is the mutation's answer.
pub fn settle_mutation<S>(
    committed: &mut S,
    staged: S,
    published: Vec<AgentRuntimeEvent>,
    stored: Result<(), AgentRuntimeError>,
) -> (r: (Result<(), AgentRuntimeError>, Vec<AgentRuntimeEvent>))
    ensures
        match stored {
            Ok(()) => {
                &&& *final(committed) == staged
                &&& r.0 is Ok
                &&& seq_view(r.1@) == seq_view(published@)
            },
            Err(e) => {
                &&& *final(committed) == *old(committed)
                &&& r.0 == Err::<(), AgentRuntimeError>(e)
                &&& r.1@.len() == 0
            },
        },
{
    match stored {
        Ok(()) => {
            *committed = staged;
            (Ok(()), published)
        },
        Err(e) => (Err(e), Vec::new()),
    }
}

/// A mutation's outcome reaches its run: a failure is kept as the run's
/// failure unless one is kept already.
pub fn finish_mutation(run_errors: &mut SemanticRunErrors, result: &Result<(), AgentRuntimeError>)
    ensures
        final(run_errors).kept() == match result {
            Err(e) => match old(run_errors).kept() {
                Some(k) => Some(k),
                None => Some(e@),
            },
            Ok(()) => old(run_errors).kept(),
        },
{
    match result {
        Err(e) => run_errors.record(e.duplicate()),
        Ok(()) => {},
    }
}

} // verus!
