//! The hash set and hash map families.

use std::collections::{HashMap, HashSet};
use std::hash::Hash;
use vstd::prelude::*;
use vstd::std_specs::hash::obeys_key_model;
use crate::fold::{insert_pairs, insert_values, reversed};

verus! {

broadcast use vstd::std_specs::hash::group_hash_axioms;

/// An empty hash set of elements of type `T`.
pub fn hashset_with_type<T>() -> (s: HashSet<T>)
    ensures
        s@ == Set::<T>::empty(),
{
    HashSet::new()
}

/// A hash set holding `values`, inserted first to last.
/// What it holds is stated for element types whose hashing and equality behave
/// lawfully (`obeys_key_model`, which holds for the integer types).
pub fn hashset_from_values<T: Eq + Hash>(values: Vec<T>) -> (s: HashSet<T>)
    ensures
        obeys_key_model::<T>() ==> s@ == insert_values(Set::<T>::empty(), values@),
{
    let ghost all = values@;
    let mut rest = reversed(values);
    let mut s: HashSet<T> = HashSet::new();
    let ghost mut done: nat = 0;
    while rest.len() > 0
        invariant
            done + rest@.len() == all.len(),
            rest@ == all.subrange(done as int, all.len() as int).reverse(),
            obeys_key_model::<T>() ==> s@ == insert_values(
                Set::<T>::empty(),
                all.subrange(0, done as int),
            ),
        decreases rest@.len(),
    {
        let x = rest.pop().unwrap();
        proof {
            assert(all.subrange(0, done + 1 as int).drop_last() =~= all.subrange(0, done as int));
        }
        s.insert(x);
        proof {
            done = done + 1;
            assert(rest@ =~= all.subrange(done as int, all.len() as int).reverse());
        }
    }
    assert(all.subrange(0, all.len() as int) =~= all);
    s
}

/// An empty hash map from keys of type `K` to values of type `V`.
pub fn hashmap_with_type<K, V>() -> (m: HashMap<K, V>)
    ensures
        m@ == Map::<K, V>::empty(),
{
    HashMap::new()
}

/// A hash map holding `pairs`, inserted first to last: for a key given twice,
/// the later value stays.
/// What it holds is stated for key types whose hashing and equality behave
/// lawfully (`obeys_key_model`, which holds for the integer types).
pub fn hashmap_from_values<K: Eq + Hash, V>(pairs: Vec<(K, V)>) -> (m: HashMap<K, V>)
    ensures
        obeys_key_model::<K>() ==> m@ == insert_pairs(Map::<K, V>::empty(), pairs@),
{
    let ghost all = pairs@;
    let mut rest = reversed(pairs);
    let mut m: HashMap<K, V> = HashMap::new();
    let ghost mut done: nat = 0;
    while rest.len() > 0
        invariant
            done + rest@.len() == all.len(),
            rest@ == all.subrange(done as int, all.len() as int).reverse(),
            obeys_key_model::<K>() ==> m@ == insert_pairs(
                Map::<K, V>::empty(),
                all.subrange(0, done as int),
            ),
        decreases rest@.len(),
    {
        let (k, v) = rest.pop().unwrap();
        proof {
            assert(all.subrange(0, done + 1 as int).drop_last() =~= all.subrange(0, done as int));
        }
        m.insert(k, v);
        proof {
            done = done + 1;
            assert(rest@ =~= all.subrange(done as int, all.len() as int).reverse());
        }
    }
    assert(all.subrange(0, all.len() as int) =~= all);
    m
}

} // verus!
