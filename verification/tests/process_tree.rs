use minibrowser::process_tree::{descendants, tree_working_set};
use std::collections::HashSet;

#[test]
fn sums_only_our_tree_even_when_children_are_listed_first() {
    let ids = descendants(10, &[(30, 20), (20, 10), (10, 1), (90, 1), (91, 90)]);
    assert_eq!(ids, HashSet::from([10, 20, 30]));
}

#[test]
fn lone_root_and_cycles_outside_the_tree() {
    assert_eq!(descendants(5, &[]), HashSet::from([5]));
    let ids = descendants(1, &[(2, 3), (3, 2), (4, 1), (1, 4)]);
    assert_eq!(ids, HashSet::from([1, 4]));
}

#[test]
fn working_set_needs_every_process() {
    assert_eq!(tree_working_set(&vec![Some(10), Some(20), Some(12)]), Some(42));
    assert_eq!(tree_working_set(&vec![Some(10), None, Some(12)]), None);
    assert_eq!(tree_working_set(&vec![]), Some(0));
}
