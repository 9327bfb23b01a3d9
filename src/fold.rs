//! What filling a container left to right means, stated over the containers' views.

use vstd::prelude::*;

verus! {

/// The map obtained from `m` by inserting each pair of `s` in turn, first to last.
pub open spec fn insert_pairs<K, V>(m: Map<K, V>, s: Seq<(K, V)>) -> Map<K, V>
    decreases s.len(),
{
    if s.len() == 0 {
        m
    } else {
        insert_pairs(m, s.drop_last()).insert(s.last().0, s.last().1)
    }
}

/// The set obtained from `m` by inserting each value of `s` in turn, first to last.
pub open spec fn insert_values<T>(m: Set<T>, s: Seq<T>) -> Set<T>
    decreases s.len(),
{
    if s.len() == 0 {
        m
    } else {
        insert_values(m, s.drop_last()).insert(s.last())
    }
}

/// The sequence obtained from `q` by pushing each value of `s` to the front in turn.
pub open spec fn push_fronts<T>(q: Seq<T>, s: Seq<T>) -> Seq<T>
    decreases s.len(),
{
    if s.len() == 0 {
        q
    } else {
        seq![s.last()] + push_fronts(q, s.drop_last())
    }
}

/// Returns the values of `v` in the opposite order, so that popping from the
/// result yields them first to last.
pub(crate) fn reversed<T>(v: Vec<T>) -> (r: Vec<T>)
    ensures
        r@ == v@.reverse(),
{
    let ghost orig = v@;
    let mut src = v;
    let mut r: Vec<T> = Vec::new();
    while src.len() > 0
        invariant
            src@ == orig.subrange(0, src@.len() as int),
            r@.len() + src@.len() == orig.len(),
            forall|i: int| 0 <= i < r@.len() ==> r@[i] == orig[orig.len() - 1 - i],
        decreases src@.len(),
    {
        let x = src.pop().unwrap();
        r.push(x);
    }
    assert(r@ =~= orig.reverse());
    r
}

} // verus!
