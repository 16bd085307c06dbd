//! Sequences of views, and the saturating arithmetic of columns and rows.

use vstd::prelude::*;

verus! {

/// The views of the elements of a sequence.
pub open spec fn views<T: View>(s: Seq<T>) -> Seq<T::V> {
    Seq::new(s.len(), |i: int| s[i]@)
}

pub broadcast proof fn lemma_views_push<T: View>(s: Seq<T>, x: T)
    ensures
        #[trigger] views(s.push(x)) == views(s).push(x@),
{
    assert(views(s.push(x)) =~= views(s).push(x@));
}

pub broadcast proof fn lemma_views_empty<T: View>()
    ensures
        #[trigger] views(Seq::<T>::empty()) == Seq::<T::V>::empty(),
{
    assert(views(Seq::<T>::empty()) =~= Seq::<T::V>::empty());
}

pub broadcast proof fn lemma_views_subrange<T: View>(s: Seq<T>, a: int, b: int)
    requires
        0 <= a <= b <= s.len(),
    ensures
        #[trigger] views(s.subrange(a, b)) == views(s).subrange(a, b),
{
    assert(views(s.subrange(a, b)) =~= views(s).subrange(a, b));
}

pub broadcast proof fn lemma_views_add<T: View>(s: Seq<T>, t: Seq<T>)
    ensures
        #[trigger] views(s + t) == views(s) + views(t),
{
    assert(views(s + t) =~= views(s) + views(t));
}

pub broadcast proof fn lemma_views_insert<T: View>(s: Seq<T>, i: int, x: T)
    requires
        0 <= i <= s.len(),
    ensures
        #[trigger] views(s.insert(i, x)) == views(s).insert(i, x@),
{
    assert(views(s.insert(i, x)) =~= views(s).insert(i, x@));
}

pub broadcast proof fn lemma_views_remove<T: View>(s: Seq<T>, i: int)
    requires
        0 <= i < s.len(),
    ensures
        #[trigger] views(s.remove(i)) == views(s).remove(i),
{
    assert(views(s.remove(i)) =~= views(s).remove(i));
}

pub broadcast proof fn lemma_views_update<T: View>(s: Seq<T>, i: int, x: T)
    requires
        0 <= i < s.len(),
    ensures
        #[trigger] views(s.update(i, x)) == views(s).update(i, x@),
{
    assert(views(s.update(i, x)) =~= views(s).update(i, x@));
}

pub broadcast group group_views {
    lemma_views_push,
    lemma_views_empty,
    lemma_views_subrange,
    lemma_views_add,
    lemma_views_insert,
    lemma_views_remove,
    lemma_views_update,
}

/// The index of the first item at or behind `i` that satisfies `p`; the
/// length where there is none.
pub open spec fn first_from<T>(s: Seq<T>, p: spec_fn(T) -> bool, i: int) -> int
    decreases s.len() - i,
{
    if i >= s.len() {
        s.len() as int
    } else if p(s[i]) {
        i
    } else {
        first_from(s, p, i + 1)
    }
}

pub proof fn lemma_first_from<T>(s: Seq<T>, p: spec_fn(T) -> bool, i: int)
    requires
        0 <= i <= s.len(),
    ensures
        i <= first_from(s, p, i) <= s.len(),
        first_from(s, p, i) < s.len() ==> p(s[first_from(s, p, i)]),
        forall|k: int| i <= k < first_from(s, p, i) ==> !p(#[trigger] s[k]),
    decreases s.len() - i,
{
    if i < s.len() && !p(s[i]) {
        lemma_first_from(s, p, i + 1);
    }
}

/// The value an unsigned machine integer takes for `n`: `n` itself where it
/// fits, else the nearest bound.
pub open spec fn sat(n: int) -> usize {
    if n < 0 {
        0
    } else if n > usize::MAX {
        usize::MAX
    } else {
        n as usize
    }
}

/// The signed counterpart of [`sat`].
pub open spec fn isat(n: int) -> isize {
    if n < isize::MIN {
        isize::MIN
    } else if n > isize::MAX {
        isize::MAX
    } else {
        n as isize
    }
}

/// Adds a signed offset, stopping at the bounds.
pub fn sat_add_signed(a: usize, d: isize) -> (r: usize)
    ensures
        r == sat(a + d),
{
    if d >= 0 {
        a.saturating_add(d as usize)
    } else if d == isize::MIN {
        a.saturating_sub(isize::MAX as usize).saturating_sub(1)
    } else {
        a.saturating_sub((-d) as usize)
    }
}

/// The count as a signed offset, stopping at the largest one.
pub fn to_offset(n: usize) -> (r: isize)
    ensures
        r == isat(n as int),
        0 <= r,
{
    if n <= isize::MAX as usize {
        n as isize
    } else {
        isize::MAX
    }
}

/// The smaller of two indices.
pub fn min_of(a: usize, b: usize) -> (r: usize)
    ensures
        r == if a <= b { a } else { b },
{
    if a <= b {
        a
    } else {
        b
    }
}

} // verus!
