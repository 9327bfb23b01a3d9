//! The single-value box.

use vstd::prelude::*;

verus! {

/// Moves `value` into a new heap allocation.
pub fn boxed<T>(value: T) -> (b: Box<T>)
    ensures
        *b == value,
{
    Box::new(value)
}

} // verus!
