//! The ordered set and ordered map families: their contents are kept sorted.

use std::collections::{BTreeMap, BTreeSet};
use vstd::prelude::*;
use vstd::laws_cmp::obeys_cmp;
use crate::fold::{insert_pairs, insert_values, reversed};

verus! {

broadcast use vstd::std_specs::btree::group_btree_axioms;

/// An empty ordered set of elements of type `T`.
pub fn btreeset_with_type<T>() -> (s: BTreeSet<T>)
    ensures
        s@ == Set::<T>::empty(),
{
    BTreeSet::new()
}

/// An ordered set holding `values`, inserted first to last.
/// What it holds is stated for element types whose ordering is a lawful total
/// order (`obeys_cmp`, which holds for the integer types).
pub fn btreeset_from_values<T: Ord>(values: Vec<T>) -> (s: BTreeSet<T>)
    ensures
        obeys_cmp::<T>() ==> s@ == insert_values(Set::<T>::empty(), values@),
{
    let ghost all = values@;
    let mut rest = reversed(values);
    let mut s: BTreeSet<T> = BTreeSet::new();
    let ghost mut done: nat = 0;
    while rest.len() > 0
        invariant
            done + rest@.len() == all.len(),
            rest@ == all.subrange(done as int, all.len() as int).reverse(),
            obeys_cmp::<T>() ==> s@ == insert_values(
                Set::<T>::empty(),
                all.subrange(0, done as int),
            ),
        decreases rest@.len(),
    {
        let x = rest.pop().unwrap();
        proof {
            assert(all.subrange(0, done + 1 as int).drop_last() =~= all.subrange(0, done as int));
        }
        s.insert(x);
        proof {
            done = done + 1;
            assert(rest@ =~= all.subrange(done as int, all.len() as int).reverse());
        }
    }
    assert(all.subrange(0, all.len() as int) =~= all);
    s
}

/// An empty ordered map from keys of type `K` to values of type `V`.
pub fn btreemap_with_type<K, V>() -> (m: BTreeMap<K, V>)
    ensures
        m@ == Map::<K, V>::empty(),
{
    BTreeMap::new()
}

/// An ordered map holding `pairs`, inserted first to last: for a key given twice,
/// the later value stays.
/// What it holds is stated for key types whose ordering is a lawful total
/// order (`obeys_cmp`, which holds for the integer types).
pub fn btreemap_from_values<K: Ord, V>(pairs: Vec<(K, V)>) -> (m: BTreeMap<K, V>)
    ensures
        obeys_cmp::<K>() ==> m@ == insert_pairs(Map::<K, V>::empty(), pairs@),
{
    let ghost all = pairs@;
    let mut rest = reversed(pairs);
    let mut m: BTreeMap<K, V> = BTreeMap::new();
    let ghost mut done: nat = 0;
    while rest.len() > 0
        invariant
            done + rest@.len() == all.len(),
            rest@ == all.subrange(done as int, all.len() as int).reverse(),
            obeys_cmp::<K>() ==> m@ == insert_pairs(
                Map::<K, V>::empty(),
                all.subrange(0, done as int),
            ),
        decreases rest@.len(),
    {
        let (k, v) = rest.pop().unwrap();
        proof {
            assert(all.subrange(0, done + 1 as int).drop_last() =~= all.subrange(0, done as int));
        }
        m.insert(k, v);
        proof {
            done = done + 1;
            assert(rest@ =~= all.subrange(done as int, all.len() as int).reverse());
        }
    }
    assert(all.subrange(0, all.len() as int) =~= all);
    m
}

} // verus!
