//! The priority container: a max-priority queue of `u64` values. Equal values
//! may be held more than once; the greatest value leaves first.

use vstd::multiset::Multiset;
use vstd::prelude::*;

verus! {

broadcast use vstd::seq_lib::group_to_multiset_ensures;

/// Whether `s` is in ascending order.
pub open spec fn ascending(s: Seq<u64>) -> bool {
    forall|i: int, j: int| 0 <= i <= j < s.len() ==> s[i] <= s[j]
}

/// Whether `x` is held in `m` and no value held in `m` is greater.
pub open spec fn is_greatest(m: Multiset<u64>, x: u64) -> bool {
    m.contains(x) && forall|y: u64| m.contains(y) ==> y <= x
}

/// A max-priority queue. Its values are kept in ascending order, so that the
/// greatest one is always the last.
pub struct PriorityQueue {
    items: Vec<u64>,
}

impl View for PriorityQueue {
    type V = Multiset<u64>;

    closed spec fn view(&self) -> Multiset<u64> {
        self.items@.to_multiset()
    }
}

impl PriorityQueue {
    /// The queue's internal invariant: its values are kept in ascending order.
    pub closed spec fn wf(&self) -> bool {
        ascending(self.items@)
    }

    /// An empty queue.
    pub fn new() -> (q: Self)
        ensures
            q.wf(),
            q@ =~= Multiset::<u64>::empty(),
    {
        PriorityQueue { items: Vec::new() }
    }

    /// The number of values held, duplicates counted.
    pub fn len(&self) -> (n: usize)
        ensures
            n == self@.len(),
    {
        self.items.len()
    }

    /// Whether no value is held.
    pub fn is_empty(&self) -> (b: bool)
        ensures
            b == (self@.len() == 0),
    {
        self.items.len() == 0
    }

    /// Adds `value`.
    pub fn push(&mut self, value: u64)
        requires
            old(self).wf(),
        ensures
            final(self).wf(),
            final(self)@ =~= old(self)@.insert(value),
    {
        let n = self.items.len();
        let mut i: usize = n;
        while i > 0 && self.items[i - 1] > value
            invariant
                i <= n == self.items@.len(),
                forall|j: int| i <= j < n ==> self.items@[j] > value,
            decreases i,
        {
            i = i - 1;
        }
        proof {
            if i > 0 {
                assert(self.items@[i - 1] <= value);
            }
        }
        self.items.insert(i, value);
        proof {
            assert(ascending(self.items@));
        }
    }

    /// The greatest value, if there is one.
    pub fn peek(&self) -> (r: Option<u64>)
        requires
            self.wf(),
        ensures
            self@.len() == 0 ==> r is None,
            self@.len() > 0 ==> r is Some && is_greatest(self@, r->0),
    {
        let n = self.items.len();
        if n == 0 {
            None
        } else {
            proof {
                assert forall|y: u64| self@.contains(y) implies y <= self.items@[n - 1] by {
                    let k = choose|k: int| 0 <= k < self.items@.len() && self.items@[k] == y;
                }
            }
            Some(self.items[n - 1])
        }
    }

    /// Takes out the greatest value, if there is one; one copy of it stays for
    /// each further copy that was held.
    pub fn pop(&mut self) -> (r: Option<u64>)
        requires
            old(self).wf(),
        ensures
            final(self).wf(),
            old(self)@.len() == 0 ==> r is None && final(self)@ == old(self)@,
            old(self)@.len() > 0 ==> r is Some && is_greatest(old(self)@, r->0) && final(self)@
                =~= old(self)@.remove(r->0),
    {
        let r = self.peek();
        if self.items.len() > 0 {
            let ghost before = self.items@;
            self.items.pop();
            proof {
                let rest = self.items@;
                assert(before =~= rest.push(before.last()));
                assert(before.to_multiset() =~= rest.to_multiset().insert(before.last()));
                assert(before.to_multiset().contains(before.last()));
                assert(r->0 <= before.last());
                let k = choose|k: int| 0 <= k < before.len() && before[k] == r->0;
                assert(before[k] <= before.last());
                assert(rest.to_multiset() =~= before.to_multiset().remove(r->0));
            }
        }
        r
    }

    /// The values held, in ascending order.
    pub fn into_sorted_vec(self) -> (v: Vec<u64>)
        requires
            self.wf(),
        ensures
            ascending(v@),
            v@.to_multiset() == self@,
    {
        self.items
    }
}

/// An empty priority queue.
pub fn binary_heap_with_type() -> (q: PriorityQueue)
    ensures
        q.wf(),
        q@ =~= Multiset::<u64>::empty(),
{
    PriorityQueue::new()
}

/// A priority queue holding `values`, pushed first to last.
pub fn binary_heap_from_values(values: Vec<u64>) -> (q: PriorityQueue)
    ensures
        q.wf(),
        q@ =~= values@.to_multiset(),
{
    let mut q = PriorityQueue::new();
    let mut i: usize = 0;
    while i < values.len()
        invariant
            i <= values@.len(),
            q.wf(),
            q@ =~= values@.subrange(0, i as int).to_multiset(),
        decreases values@.len() - i,
    {
        proof {
            assert(values@.subrange(0, i + 1) =~= values@.subrange(0, i as int).push(values@[i as int]));
        }
        q.push(values[i]);
        i = i + 1;
    }
    assert(values@.subrange(0, values@.len() as int) =~= values@);
    q
}

} // verus!
