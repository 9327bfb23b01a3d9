use std::collections::{BTreeMap, BTreeSet, HashMap, HashSet, VecDeque};

use macroland::{
    binary_heap_from_values, binary_heap_with_type, boxed, btreemap_from_values,
    btreemap_with_type, btreeset_from_values, btreeset_with_type, hashmap_from_values,
    hashmap_with_type, hashset_from_values, hashset_with_type, linkedlist_from_values,
    linkedlist_with_type, vecdeque_from_values, vecdeque_with_type, LinkedSeq, PriorityQueue,
};

fn linked_to_vec<T: Clone>(l: &LinkedSeq<T>) -> Vec<T> {
    let mut out = Vec::new();
    for i in 0..l.len() {
        out.push(l.get(i).clone());
    }
    out
}

fn drain_heap(mut q: PriorityQueue) -> Vec<u64> {
    let mut out = Vec::new();
    while let Some(x) = q.pop() {
        out.push(x);
    }
    out
}

#[test]
fn hashmap_reads_inserted_value() {
    let m = hashmap_from_values(vec![("a", 1), ("b", 2)]);
    assert_eq!(m.get("a"), Some(&1));
    assert_eq!(m.get("b"), Some(&2));
    assert_eq!(m.len(), 2);
}

#[test]
fn hashmap_with_type_then_insert() {
    let mut m = hashmap_with_type::<String, usize>();
    assert!(m.is_empty());
    m.insert(String::from("c"), 3);
    let mut expected = HashMap::new();
    expected.insert(String::from("c"), 3usize);
    assert_eq!(m, expected);
}

#[test]
fn hashmap_later_value_wins() {
    let m = hashmap_from_values(vec![("k", 1), ("k", 2)]);
    assert_eq!(m.len(), 1);
    assert_eq!(m["k"], 2);
}

#[test]
fn hashmap_matches_native_inserts() {
    let m = hashmap_from_values(vec![("Uno", 1usize), ("Dos", 2), ("Tres", 3)]);
    let mut expected = hashmap_with_type::<&str, usize>();
    expected.insert("Uno", 1);
    expected.insert("Dos", 2);
    expected.insert("Tres", 3);
    assert_eq!(m, expected);
}

#[test]
fn hashset_duplicate_kept_once() {
    let s = hashset_from_values(vec![7u64, 7]);
    assert_eq!(s.len(), 1);
    assert!(s.contains(&7));
}

#[test]
fn hashset_matches_native_inserts() {
    let s = hashset_from_values(vec![200usize, 300, 400]);
    let mut expected: HashSet<usize> = hashset_with_type();
    assert!(expected.is_empty());
    expected.insert(200);
    expected.insert(300);
    expected.insert(400);
    assert_eq!(s, expected);
}

#[test]
fn btreeset_sorted_and_deduplicated() {
    let s = btreeset_from_values(vec![3, 1, 2, 1]);
    let items: Vec<i32> = s.into_iter().collect();
    assert_eq!(items, vec![1, 2, 3]);
}

#[test]
fn btreeset_with_type_then_insert() {
    let mut s = btreeset_with_type::<&str>();
    assert!(s.is_empty());
    s.insert("Hello!");
    assert_eq!(s, btreeset_from_values(vec!["Hello!"]));
}

#[test]
fn btreeset_duplicate_kept_once() {
    let s = btreeset_from_values(vec!["Bosnia", "Bosnia"]);
    assert_eq!(s.len(), 1);
}

#[test]
fn btreemap_matches_native_inserts() {
    let m = btreemap_from_values(vec![("Uno", 1usize), ("Dos", 2), ("Tres", 3)]);
    let mut expected: BTreeMap<&str, usize> = btreemap_with_type();
    assert!(expected.is_empty());
    expected.insert("Uno", 1);
    expected.insert("Dos", 2);
    expected.insert("Tres", 3);
    assert_eq!(m, expected);
    let keys: Vec<&str> = m.keys().copied().collect();
    assert_eq!(keys, vec!["Dos", "Tres", "Uno"]);
}

#[test]
fn btreemap_later_value_wins() {
    let m = btreemap_from_values(vec![(5u64, true), (5u64, false)]);
    assert_eq!(m.len(), 1);
    assert_eq!(m.get(&5), Some(&false));
}

#[test]
fn vecdeque_front_pushed() {
    let q = vecdeque_from_values(vec!["x", "y", "z"]);
    let items: Vec<&str> = q.into_iter().collect();
    assert_eq!(items, vec!["z", "y", "x"]);
}

#[test]
fn vecdeque_with_type_then_push() {
    let mut q = vecdeque_with_type::<&str>();
    assert!(q.is_empty());
    q.push_front("ahead");
    q.push_back("behind");
    let expected: VecDeque<&str> = VecDeque::from(vec!["ahead", "behind"]);
    assert_eq!(q, expected);
}

#[test]
fn vecdeque_single_value() {
    let q = vecdeque_from_values(vec![42u8]);
    assert_eq!(q.len(), 1);
    assert_eq!(q[0], 42);
}

#[test]
fn linkedlist_front_pushed() {
    let l = linkedlist_from_values(vec![10, 20, 30]);
    assert_eq!(linked_to_vec(&l), vec![30, 20, 10]);
}

#[test]
fn linkedlist_with_type_then_push() {
    let mut l = linkedlist_with_type::<String>();
    assert!(l.is_empty());
    l.push_front(String::from("OWE"));
    l.push_back(String::from("YOYOYO"));
    assert_eq!(linked_to_vec(&l), vec![String::from("OWE"), String::from("YOYOYO")]);
}

#[test]
fn linkedseq_pops_both_ends() {
    let mut l = linkedlist_from_values(vec![1, 2, 3]);
    assert_eq!(l.pop_front(), Some(3));
    assert_eq!(l.pop_back(), Some(1));
    assert_eq!(l.pop_back(), Some(2));
    assert_eq!(l.pop_front(), None);
    assert_eq!(l.len(), 0);
}

#[test]
fn binary_heap_pops_greatest_first() {
    let q = binary_heap_from_values(vec![200, 100, 300, 100]);
    assert_eq!(q.len(), 4);
    assert_eq!(q.peek(), Some(300));
    assert_eq!(drain_heap(q), vec![300, 200, 100, 100]);
}

#[test]
fn binary_heap_with_type_then_push() {
    let mut q = binary_heap_with_type();
    assert!(q.is_empty());
    assert_eq!(q.peek(), None);
    q.push(100);
    q.push(200);
    q.push(300);
    let r = binary_heap_from_values(vec![100, 200, 300]);
    assert_eq!(q.into_sorted_vec(), r.into_sorted_vec());
}

#[test]
fn binary_heap_sorted_vec() {
    let q = binary_heap_from_values(vec![5, u64::MAX, 0, 5]);
    assert_eq!(q.into_sorted_vec(), vec![0, 5, 5, u64::MAX]);
}

#[test]
fn boxed_equals_native_box() {
    let b = boxed(Some(100));
    assert_eq!(b, Box::new(Some(100)));
    assert_eq!(*b, Some(100));
    assert_eq!(format!("{:?}", boxed(10)), format!("{:?}", Box::new(10)));
}

#[test]
fn empty_value_lists() {
    assert!(hashmap_from_values(Vec::<(u8, u8)>::new()).is_empty());
    assert!(btreeset_from_values(Vec::<u8>::new()).is_empty());
    assert!(vecdeque_from_values(Vec::<u8>::new()).is_empty());
    assert!(binary_heap_from_values(Vec::new()).is_empty());
    let _: BTreeSet<u8> = btreeset_with_type();
}
