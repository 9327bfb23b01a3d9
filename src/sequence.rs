//! The two front-push sequence families: the double-ended queue and the linked
//! sequence. Filling one pushes every value to the front, so the values end up
//! in the opposite order to the one in which they were given.

use std::collections::VecDeque;
use vstd::prelude::*;
use crate::fold::{push_fronts, reversed};

verus! {

/// A sequence that grows and shrinks at both ends.
pub struct LinkedSeq<T> {
    items: VecDeque<T>,
}

impl<T> View for LinkedSeq<T> {
    type V = Seq<T>;

    closed spec fn view(&self) -> Seq<T> {
        self.items@
    }
}

impl<T> LinkedSeq<T> {
    /// An empty sequence.
    pub fn new() -> (l: Self)
        ensures
            l@ == Seq::<T>::empty(),
    {
        LinkedSeq { items: VecDeque::new() }
    }

    /// The number of values held.
    pub fn len(&self) -> (n: usize)
        ensures
            n == self@.len(),
    {
        self.items.len()
    }

    /// Whether no value is held.
    pub fn is_empty(&self) -> (b: bool)
        ensures
            b == (self@.len() == 0),
    {
        self.items.len() == 0
    }

    /// Puts `value` before the first value.
    pub fn push_front(&mut self, value: T)
        ensures
            final(self)@ == seq![value] + old(self)@,
    {
        self.items.push_front(value);
    }

    /// Puts `value` after the last value.
    pub fn push_back(&mut self, value: T)
        ensures
            final(self)@ == old(self)@.push(value),
    {
        self.items.push_back(value);
    }

    /// Takes out the first value, if there is one.
    pub fn pop_front(&mut self) -> (r: Option<T>)
        ensures
            old(self)@.len() == 0 ==> r is None && final(self)@ == old(self)@,
            old(self)@.len() > 0 ==> r == Some(old(self)@[0]) && final(self)@ == old(self)@.drop_first(),
    {
        self.items.pop_front()
    }

    /// Takes out the last value, if there is one.
    pub fn pop_back(&mut self) -> (r: Option<T>)
        ensures
            old(self)@.len() == 0 ==> r is None && final(self)@ == old(self)@,
            old(self)@.len() > 0 ==> r == Some(old(self)@.last()) && final(self)@ == old(self)@.drop_last(),
    {
        self.items.pop_back()
    }

    /// The value at position `i`, counting from the front.
    pub fn get(&self, i: usize) -> (r: &T)
        requires
            i < self@.len(),
        ensures
            *r == self@[i as int],
    {
        &self.items[i]
    }
}

/// An empty double-ended queue of elements of type `T`.
pub fn vecdeque_with_type<T>() -> (q: VecDeque<T>)
    ensures
        q@ == Seq::<T>::empty(),
{
    VecDeque::new()
}

/// A double-ended queue filled by pushing each of `values` to the front, first
/// to last.
pub fn vecdeque_from_values<T>(values: Vec<T>) -> (q: VecDeque<T>)
    ensures
        q@ == push_fronts(Seq::<T>::empty(), values@),
        q@ == values@.reverse(),
{
    let ghost all = values@;
    let mut rest = reversed(values);
    let mut q: VecDeque<T> = VecDeque::new();
    let ghost mut done: nat = 0;
    while rest.len() > 0
        invariant
            done + rest@.len() == all.len(),
            rest@ == all.subrange(done as int, all.len() as int).reverse(),
            q@ == push_fronts(Seq::<T>::empty(), all.subrange(0, done as int)),
            q@ == all.subrange(0, done as int).reverse(),
        decreases rest@.len(),
    {
        let x = rest.pop().unwrap();
        proof {
            assert(all.subrange(0, done + 1 as int).drop_last() =~= all.subrange(0, done as int));
        }
        q.push_front(x);
        proof {
            done = done + 1;
            assert(rest@ =~= all.subrange(done as int, all.len() as int).reverse());
            assert(q@ =~= all.subrange(0, done as int).reverse());
        }
    }
    assert(all.subrange(0, all.len() as int) =~= all);
    q
}

/// An empty linked sequence of elements of type `T`.
pub fn linkedlist_with_type<T>() -> (l: LinkedSeq<T>)
    ensures
        l@ == Seq::<T>::empty(),
{
    LinkedSeq::new()
}

/// A linked sequence filled by pushing each of `values` to the front, first to
/// last.
pub fn linkedlist_from_values<T>(values: Vec<T>) -> (l: LinkedSeq<T>)
    ensures
        l@ == push_fronts(Seq::<T>::empty(), values@),
        l@ == values@.reverse(),
{
    LinkedSeq { items: vecdeque_from_values(values) }
}

} // verus!
