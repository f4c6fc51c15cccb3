//! First-match search over sequences, the lookup rule of the projection.

use vstd::prelude::*;

verus! {

/// Index of the first element of `s` satisfying `p`, or -1 when none does.
pub open spec fn first_index<T>(s: Seq<T>, p: spec_fn(T) -> bool) -> int {
    if exists|i: int| 0 <= i < s.len() && p(s[i]) && forall|j: int| 0 <= j < i ==> !p(s[j]) {
        choose|i: int| 0 <= i < s.len() && p(s[i]) && forall|j: int| 0 <= j < i ==> !p(s[j])
    } else {
        -1
    }
}

pub proof fn lemma_first_index_found<T>(s: Seq<T>, p: spec_fn(T) -> bool, k: int)
    requires
        0 <= k < s.len(),
        p(s[k]),
        forall|j: int| 0 <= j < k ==> !p(s[j]),
    ensures
        first_index(s, p) == k,
{
    let i = first_index(s, p);
    assert(0 <= i < s.len() && p(s[i]) && forall|j: int| 0 <= j < i ==> !p(s[j]));
    if i < k {
        assert(!p(s[i]));
    }
    if i > k {
        assert(!p(s[k]));
    }
}

pub proof fn lemma_first_index_absent<T>(s: Seq<T>, p: spec_fn(T) -> bool)
    requires
        forall|j: int| 0 <= j < s.len() ==> !p(s[j]),
    ensures
        first_index(s, p) == -1,
{
}

proof fn lemma_minimal_witness<T>(s: Seq<T>, p: spec_fn(T) -> bool, i: int) -> (k: int)
    requires
        0 <= i < s.len(),
        p(s[i]),
    ensures
        0 <= k <= i,
        p(s[k]),
        forall|j: int| 0 <= j < k ==> !p(s[j]),
    decreases i,
{
    if exists|j: int| 0 <= j < i && p(s[j]) {
        let j = choose|j: int| 0 <= j < i && p(s[j]);
        lemma_minimal_witness(s, p, j)
    } else {
        i
    }
}

/// `first_index` is -1 exactly when nothing matches; otherwise it is the least match.
pub proof fn lemma_first_index_spec<T>(s: Seq<T>, p: spec_fn(T) -> bool)
    ensures
        -1 <= first_index(s, p) < s.len(),
        first_index(s, p) == -1 <==> forall|j: int| 0 <= j < s.len() ==> !p(s[j]),
        first_index(s, p) >= 0 ==> p(s[first_index(s, p)]) && forall|j: int|
            0 <= j < first_index(s, p) ==> !p(s[j]),
{
    if exists|i: int| 0 <= i < s.len() && p(s[i]) {
        let i = choose|i: int| 0 <= i < s.len() && p(s[i]);
        let k = lemma_minimal_witness(s, p, i);
        lemma_first_index_found(s, p, k);
    }
}

/// Appending an element keeps an earlier match and otherwise matches the new element.
pub proof fn lemma_first_index_push<T>(s: Seq<T>, x: T, p: spec_fn(T) -> bool)
    ensures
        first_index(s.push(x), p) == if first_index(s, p) >= 0 {
            first_index(s, p)
        } else if p(x) {
            s.len() as int
        } else {
            -1
        },
{
    lemma_first_index_spec(s, p);
    let t = s.push(x);
    if first_index(s, p) >= 0 {
        lemma_first_index_found(t, p, first_index(s, p));
    } else if p(x) {
        lemma_first_index_found(t, p, s.len() as int);
    } else {
        lemma_first_index_absent(t, p);
    }
}

/// Replacing an element by one with the same match status keeps the first match.
pub proof fn lemma_first_index_update<T>(s: Seq<T>, i: int, x: T, p: spec_fn(T) -> bool)
    requires
        0 <= i < s.len(),
        p(x) == p(s[i]),
    ensures
        first_index(s.update(i, x), p) == first_index(s, p),
{
    lemma_first_index_spec(s, p);
    let t = s.update(i, x);
    if first_index(s, p) >= 0 {
        lemma_first_index_found(t, p, first_index(s, p));
    } else {
        lemma_first_index_absent(t, p);
    }
}

} // verus!
