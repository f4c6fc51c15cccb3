//! Runtime-owned identifiers: threads, turns, messages, and replay cursors.

use vstd::prelude::*;
use vstd::string::*;

use crate::text::{decimal_text, push_decimal, uuid_text};

verus! {

/// Renders 128 bits the way `uuid::Uuid`'s `Display` does: lower-case,
/// hyphenated 8-4-4-4-12 hexadecimal digits, most significant byte first
/// (`Uuid::from_u128` keeps the big-endian order).
#[verifier::external_body]
pub(crate) fn uuid_hyphenated(bits: u128) -> (s: String)
    ensures
        s@ == uuid_text(bits),
{
    uuid::Uuid::from_u128(bits).to_string()
}

/// Identifier of one chat thread.
#[derive(Debug, Clone, Copy, PartialEq, Eq, Hash, Structural)]
pub struct ThreadId {
    bits: u128,
}

impl ThreadId {
    /// The 128 bits of the identifier.
    pub closed spec fn spec_bits(self) -> u128 {
        self.bits
    }

    /// The all-zero identifier.
    pub closed spec fn nil_spec() -> ThreadId {
        ThreadId { bits: 0 }
    }

    /// The all-zero identifier.
    pub fn nil() -> (id: Self)
        ensures
            id.spec_bits() == 0,
            id == Self::nil_spec(),
    {
        ThreadId { bits: 0 }
    }

    /// The identifier with the given bits.
    pub fn from_u128(bits: u128) -> (id: Self)
        ensures
            id.spec_bits() == bits,
    {
        ThreadId { bits }
    }

    /// The 128 bits of the identifier.
    pub fn as_u128(self) -> (bits: u128)
        ensures
            bits == self.spec_bits(),
    {
        self.bits
    }

    /// Two thread ids are equal exactly when their bits are.
    pub proof fn lemma_eq(a: ThreadId, b: ThreadId)
        ensures
            (a == b) <==> a.spec_bits() == b.spec_bits(),
    {
    }

    /// The textual form of the identifier (hyphenated lower-case hex).
    pub open spec fn text(self) -> Seq<char> {
        uuid_text(self.spec_bits())
    }

    /// Renders the identifier as `uuid::Uuid` displays it.
    pub fn to_text(&self) -> (s: String)
        ensures
            s@ == self.text(),
    {
        uuid_hyphenated(self.bits)
    }
}

/// Text of `thread:revision:ordinal`, the rendering of turn and message ids.
pub open spec fn scoped_id_text(thread_id: ThreadId, revision: u64, ordinal: u64) -> Seq<char> {
    thread_id.text() + seq![':'] + decimal_text(revision as nat) + seq![':'] + decimal_text(
        ordinal as nat,
    )
}

fn scoped_text(thread_id: ThreadId, revision: u64, ordinal: u64) -> (s: String)
    ensures
        s@ == scoped_id_text(thread_id, revision, ordinal),
{
    let mut s = thread_id.to_text();
    let colon = ":";
    proof {
        reveal_strlit(":");
    }
    s.append(colon);
    push_decimal(&mut s, revision);
    s.append(colon);
    push_decimal(&mut s, ordinal);
    proof {
        assert(s@ =~= scoped_id_text(thread_id, revision, ordinal));
    }
    s
}

/// Runtime-owned turn id. It carries the thread revision so that ids minted
/// before an out-of-band history rewrite become stale.
#[derive(Debug, Clone, Copy, PartialEq, Eq, Hash, Structural)]
pub struct TurnId {
    pub thread_id: ThreadId,
    pub revision: u64,
    pub ordinal: u64,
}

impl TurnId {
    pub fn new(thread_id: ThreadId, revision: u64, ordinal: u64) -> (id: Self)
        ensures
            id.thread_id == thread_id,
            id.revision == revision,
            id.ordinal == ordinal,
    {
        TurnId { thread_id, revision, ordinal }
    }

    pub fn thread_id(self) -> (r: ThreadId)
        ensures
            r == self.thread_id,
    {
        self.thread_id
    }

    pub fn revision(self) -> (r: u64)
        ensures
            r == self.revision,
    {
        self.revision
    }

    pub fn ordinal(self) -> (r: u64)
        ensures
            r == self.ordinal,
    {
        self.ordinal
    }

    /// The `thread:revision:ordinal` rendering.
    pub open spec fn text(self) -> Seq<char> {
        scoped_id_text(self.thread_id, self.revision, self.ordinal)
    }

    pub fn to_text(&self) -> (s: String)
        ensures
            s@ == self.text(),
    {
        scoped_text(self.thread_id, self.revision, self.ordinal)
    }
}

/// Runtime-owned message id, scoped like [`TurnId`].
#[derive(Debug, Clone, Copy, PartialEq, Eq, Hash, Structural)]
pub struct MessageId {
    pub thread_id: ThreadId,
    pub revision: u64,
    pub ordinal: u64,
}

impl MessageId {
    pub fn new(thread_id: ThreadId, revision: u64, ordinal: u64) -> (id: Self)
        ensures
            id.thread_id == thread_id,
            id.revision == revision,
            id.ordinal == ordinal,
    {
        MessageId { thread_id, revision, ordinal }
    }

    pub fn thread_id(self) -> (r: ThreadId)
        ensures
            r == self.thread_id,
    {
        self.thread_id
    }

    pub fn revision(self) -> (r: u64)
        ensures
            r == self.revision,
    {
        self.revision
    }

    pub fn ordinal(self) -> (r: u64)
        ensures
            r == self.ordinal,
    {
        self.ordinal
    }

    /// The `thread:revision:ordinal` rendering.
    pub open spec fn text(self) -> Seq<char> {
        scoped_id_text(self.thread_id, self.revision, self.ordinal)
    }

    pub fn to_text(&self) -> (s: String)
        ensures
            s@ == self.text(),
    {
        scoped_text(self.thread_id, self.revision, self.ordinal)
    }
}

/// Cursor for replaying semantic runtime events of one thread.
#[derive(Debug, Clone, Copy, PartialEq, Eq, Hash, Structural)]
pub struct RuntimeCursor {
    pub thread_id: ThreadId,
    pub seq: u64,
}

impl RuntimeCursor {
    pub fn new(thread_id: ThreadId, seq: u64) -> (c: Self)
        ensures
            c.thread_id == thread_id,
            c.seq == seq,
    {
        RuntimeCursor { thread_id, seq }
    }
}

} // verus!
