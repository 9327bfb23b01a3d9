//! Constructors that build standard containers in one expression: either empty,
//! with the element type given by the caller, or filled with a list of values
//! that are inserted (or pushed) one after the other, left to right.

pub mod boxing;
pub mod fold;
pub mod hashed;
pub mod laws;
pub mod ordered;
pub mod priority;
pub mod sequence;

pub use boxing::boxed;
pub use hashed::{hashmap_from_values, hashmap_with_type, hashset_from_values, hashset_with_type};
pub use ordered::{btreemap_from_values, btreemap_with_type, btreeset_from_values, btreeset_with_type};
pub use sequence::{linkedlist_from_values, linkedlist_with_type, vecdeque_from_values, vecdeque_with_type, LinkedSeq};
pub use priority::{binary_heap_from_values, binary_heap_with_type, PriorityQueue};
