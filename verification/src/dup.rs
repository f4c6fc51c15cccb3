//! Exact copies of owned values, stated over their views.

use vstd::prelude::*;

verus! {

/// A value that can be copied so that the copy has the same view.
pub trait Duplicate: View + Sized {
    fn duplicate(&self) -> (r: Self)
        ensures
            r@ == self@,
    ;
}

/// The views of the elements of `s`, in order.
pub open spec fn seq_view<T: View>(s: Seq<T>) -> Seq<T::V> {
    s.map_values(|x: T| x@)
}

/// The view of an optional value.
pub open spec fn opt_view<T: View>(o: Option<T>) -> Option<T::V> {
    match o {
        Some(x) => Some(x@),
        None => None,
    }
}

impl Duplicate for String {
    fn duplicate(&self) -> (r: Self) {
        self.clone()
    }
}

/// Copies every element of `v`.
pub fn duplicate_vec<T: Duplicate>(v: &Vec<T>) -> (r: Vec<T>)
    ensures
        seq_view(r@) == seq_view(v@),
{
    let mut r: Vec<T> = Vec::new();
    let mut i: usize = 0;
    while i < v.len()
        invariant
            i <= v.len(),
            r.len() == i,
            forall|k: int| 0 <= k < i ==> (#[trigger] r@[k])@ == v@[k]@,
        decreases v.len() - i,
    {
        let x = v[i].duplicate();
        r.push(x);
        i = i + 1;
    }
    proof {
        assert(seq_view(r@) =~= seq_view(v@));
    }
    r
}

/// Copies an optional value.
pub fn duplicate_opt<T: Duplicate>(o: &Option<T>) -> (r: Option<T>)
    ensures
        opt_view(r) == opt_view(*o),
{
    match o {
        Some(x) => Some(x.duplicate()),
        None => None,
    }
}

/// Copies a vector of plain `Copy` values.
pub fn copy_vec<T: Copy>(v: &Vec<T>) -> (r: Vec<T>)
    ensures
        r@ == v@,
{
    let mut r: Vec<T> = Vec::new();
    let mut i: usize = 0;
    while i < v.len()
        invariant
            i <= v.len(),
            r@ == v@.subrange(0, i as int),
        decreases v.len() - i,
    {
        r.push(v[i]);
        i = i + 1;
        proof {
            assert(r@ =~= v@.subrange(0, i as int));
        }
    }
    proof {
        assert(v@.subrange(0, v.len() as int) =~= v@);
    }
    r
}

} // verus!

verus! {

pub proof fn lemma_seq_view_push<T: View>(s: Seq<T>, x: T)
    ensures
        seq_view(s.push(x)) == seq_view(s).push(x@),
{
    assert(seq_view(s.push(x)) =~= seq_view(s).push(x@));
}

pub proof fn lemma_seq_view_update<T: View>(s: Seq<T>, i: int, x: T)
    requires
        0 <= i < s.len(),
    ensures
        seq_view(s.update(i, x)) == seq_view(s).update(i, x@),
{
    assert(seq_view(s.update(i, x)) =~= seq_view(s).update(i, x@));
}

pub proof fn lemma_seq_view_insert<T: View>(s: Seq<T>, i: int, x: T)
    requires
        0 <= i <= s.len(),
    ensures
        seq_view(s.insert(i, x)) == seq_view(s).insert(i, x@),
{
    assert(seq_view(s.insert(i, x)) =~= seq_view(s).insert(i, x@));
}

pub proof fn lemma_seq_view_add<T: View>(a: Seq<T>, b: Seq<T>)
    ensures
        seq_view(a + b) == seq_view(a) + seq_view(b),
{
    assert(seq_view(a + b) =~= seq_view(a) + seq_view(b));
}

pub proof fn lemma_seq_view_subrange<T: View>(s: Seq<T>, a: int, b: int)
    requires
        0 <= a <= b <= s.len(),
    ensures
        seq_view(s.subrange(a, b)) == seq_view(s).subrange(a, b),
{
    assert(seq_view(s.subrange(a, b)) =~= seq_view(s).subrange(a, b));
}

pub proof fn lemma_seq_view_empty<T: View>()
    ensures
        seq_view(Seq::<T>::empty()) == Seq::<T::V>::empty(),
{
    assert(seq_view(Seq::<T>::empty()) =~= Seq::<T::V>::empty());
}

} // verus!

verus! {

/// The view of a result.
pub open spec fn res_view<T: View, E: View>(r: Result<T, E>) -> Result<T::V, E::V> {
    match r {
        Ok(x) => Ok(x@),
        Err(e) => Err(e@),
    }
}

} // verus!

verus! {

/// Appends copies of the elements of `src` to `dst`.
pub fn append_duplicates<T: Duplicate>(dst: &mut Vec<T>, src: &Vec<T>)
    ensures
        seq_view(final(dst)@) == seq_view(old(dst)@) + seq_view(src@),
{
    let ghost start = seq_view(dst@);
    let mut k: usize = 0;
    while k < src.len()
        invariant
            k <= src.len(),
            seq_view(dst@) == start + seq_view(src@).take(k as int),
        decreases src.len() - k,
    {
        let x = src[k].duplicate();
        proof {
            lemma_seq_view_push(dst@, x);
        }
        dst.push(x);
        k = k + 1;
        proof {
            assert(seq_view(dst@) =~= start + seq_view(src@).take(k as int));
        }
    }
    proof {
        assert(seq_view(src@).take(src.len() as int) =~= seq_view(src@));
    }
}

} // verus!
