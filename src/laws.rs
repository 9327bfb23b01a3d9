//! Facts that hold of every container filled from a list of values.

use vstd::prelude::*;
use crate::fold::{insert_pairs, insert_values, push_fronts};

verus! {

/// Filling a map with two pairs that share a key leaves one entry, which holds
/// the later value.
pub proof fn map_later_value_wins<K, V>(k1: K, v1: V, k2: K, v2: V)
    requires
        k1 == k2,
    ensures
        insert_pairs(Map::<K, V>::empty(), seq![(k1, v1), (k2, v2)]) == map![k2 => v2],
        insert_pairs(Map::<K, V>::empty(), seq![(k1, v1), (k2, v2)]).len() == 1,
{
    let s = seq![(k1, v1), (k2, v2)];
    assert(s.drop_last() =~= seq![(k1, v1)]);
    assert(s.drop_last().drop_last() =~= Seq::<(K, V)>::empty());
    let e = Map::<K, V>::empty();
    assert(insert_pairs(e, s.drop_last().drop_last()) == e);
    assert(insert_pairs(e, s.drop_last()) == e.insert(k1, v1));
    assert(insert_pairs(e, s) == e.insert(k1, v1).insert(k2, v2));
    assert(insert_pairs(e, s) =~= map![k2 => v2]);
    assert(map![k2 => v2].dom() =~= set![k2]);
}

/// Filling a set with the same value twice leaves one element.
pub proof fn set_duplicate_kept_once<T>(v: T)
    ensures
        insert_values(Set::<T>::empty(), seq![v, v]) == set![v],
        insert_values(Set::<T>::empty(), seq![v, v]).len() == 1,
{
    let s = seq![v, v];
    assert(s.drop_last() =~= seq![v]);
    assert(s.drop_last().drop_last() =~= Seq::<T>::empty());
    let e = Set::<T>::empty();
    assert(insert_values(e, s.drop_last().drop_last()) == e);
    assert(insert_values(e, s.drop_last()) == e.insert(v));
    assert(insert_values(e, s) == e.insert(v).insert(v));
    assert(insert_values(e, s) =~= set![v]);
}

/// Filling a set value by value, first to last, gives the set of all the values,
/// whatever their order and however often each is given.
pub proof fn set_holds_all_values<T>(s: Seq<T>)
    ensures
        insert_values(Set::<T>::empty(), s) == s.to_set(),
    decreases s.len(),
{
    if s.len() > 0 {
        set_holds_all_values(s.drop_last());
        assert(s =~= s.drop_last().push(s.last()));
        assert(s.to_set() =~= s.drop_last().to_set().insert(s.last())) by {
            assert forall|x: T| s.to_set().contains(x) <==> s.drop_last().to_set().insert(s.last()).contains(x) by {
                if s.to_set().contains(x) && x != s.last() {
                    let i = choose|i: int| 0 <= i < s.len() && s[i] == x;
                    assert(s.drop_last()[i] == x);
                }
                if s.drop_last().to_set().contains(x) {
                    let i = choose|i: int| 0 <= i < s.drop_last().len() && s.drop_last()[i] == x;
                    assert(s[i] == x);
                }
                if x == s.last() {
                    assert(s[s.len() - 1] == x);
                }
            }
        }
    } else {
        assert(s.to_set() =~= Set::<T>::empty());
    }
}

/// Pushing values to the front of an empty sequence one by one, first to last,
/// leaves them in reverse order.
pub proof fn front_pushes_reverse<T>(s: Seq<T>)
    ensures
        push_fronts(Seq::<T>::empty(), s) == s.reverse(),
    decreases s.len(),
{
    if s.len() > 0 {
        front_pushes_reverse(s.drop_last());
        assert(seq![s.last()] + s.drop_last().reverse() =~= s.reverse());
    } else {
        assert(s.reverse() =~= Seq::<T>::empty());
    }
}

} // verus!
