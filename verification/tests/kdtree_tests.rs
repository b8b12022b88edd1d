use naturalneighbor3d::algorithms::kdtree::{is_balanced, tree_stats, TreeStats};

#[test]
fn stats_of_seven_node_tree() {
    // Seven points split at the median give a tree of depth three.
    let stats = tree_stats(7, 3);
    assert_eq!(stats, TreeStats { node_count: 7, depth: 3, is_balanced: true });
}

#[test]
fn stats_of_thousand_node_tree() {
    // A median-split tree of 1000 points has depth 10.
    let stats = tree_stats(1000, 10);
    assert!(stats.is_balanced);
    assert!(stats.depth <= 15);
}

#[test]
fn balance_thresholds() {
    assert!(is_balanced(0, 0));
    assert!(is_balanced(1, 1));
    assert!(!is_balanced(1, 2));
    // ceil(log2 7) = 3, slack 1: depth up to 4.
    assert!(is_balanced(7, 4));
    assert!(!is_balanced(7, 5));
    // ceil(log2 1000) = 10, slack 5: depth up to 15.
    assert!(is_balanced(1000, 15));
    assert!(!is_balanced(1000, 16));
}

#[test]
fn degenerate_chain_is_unbalanced() {
    assert!(!tree_stats(7, 7).is_balanced);
}

use naturalneighbor3d::algorithms::kdtree::{KdNode, KdTree};

type Item = ([i64; 3], i64);

fn goes_after(a: &Item, b: &Item, axis: usize) -> bool {
    a.0[axis] > b.0[axis]
}

fn collect_in_order(node: &Option<Box<KdNode<Item>>>, out: &mut Vec<Item>) {
    if let Some(n) = node {
        collect_in_order(&n.left, out);
        out.push(n.item);
        collect_in_order(&n.right, out);
    }
}

fn check_split_order(node: &Option<Box<KdNode<Item>>>, level: usize) {
    if let Some(n) = node {
        assert_eq!(n.axis, level % 3);
        let mut left = Vec::new();
        collect_in_order(&n.left, &mut left);
        let mut right = Vec::new();
        collect_in_order(&n.right, &mut right);
        assert!(left.iter().all(|l| l.0[n.axis] <= n.item.0[n.axis]));
        assert!(right.iter().all(|r| r.0[n.axis] >= n.item.0[n.axis]));
        check_split_order(&n.left, level + 1);
        check_split_order(&n.right, level + 1);
    }
}

#[test]
fn kdtree_test_empty_tree() {
    let tree: KdTree<Sample> = KdTree::new();
    assert!(tree.is_empty());
    assert_eq!(tree.len(), 0);
    assert_eq!(tree.depth(), 0);

    // With no root there is nothing a nearest-point query could return.
    assert!(tree.root().is_none());
}

#[test]
fn integration_tests_test_empty_tree() {
    let tree: KdTree<Sample> = KdTree::new();
    assert!(tree.root().is_none());
}

#[test]
fn test_single_node() {
    let mut tree = KdTree::new();
    tree.add(([1.0, 2.0, 3.0], 42.0));
    tree.build(sample_goes_after);

    assert!(!tree.is_empty());
    assert_eq!(tree.len(), 1);
    assert_eq!(tree.depth(), 1);

    // The only item is the nearest one to any query, such as (10, 20, 30).
    let result = tree.root().as_ref().unwrap().item;
    assert!((result.1 - 42.0f64).abs() < f64::EPSILON);
}

#[test]
fn built_tree_holds_all_items_in_split_order() {
    let mut tree = KdTree::with_capacity(1000);
    let mut expected = Vec::new();
    for i in 0..10i64 {
        for j in 0..10i64 {
            for k in 0..10i64 {
                let item = ([(i * 7) % 10, (j * 3) % 10, k], i * 100 + j * 10 + k);
                tree.add(item);
                expected.push(item);
            }
        }
    }
    tree.build(goes_after);
    assert_eq!(tree.len(), 1000);
    let mut held = Vec::new();
    collect_in_order(tree.root(), &mut held);
    held.sort();
    expected.sort();
    assert_eq!(held, expected);
    check_split_order(tree.root(), 0);

    let stats = tree.stats();
    assert!(stats.is_balanced);
    assert_eq!(stats.depth, 10);
    assert!(stats.depth <= 15);
}

#[test]
fn seven_item_tree_stats() {
    let mut tree = KdTree::new();
    for i in 0..7i64 {
        tree.add(([i, 0, 0], i));
    }
    tree.build(goes_after);
    let stats = tree.stats();
    assert_eq!(stats.node_count, 7);
    assert_eq!(stats.depth, 3);
    assert!(stats.is_balanced);
    // The median of 0..7 along x is 3.
    assert_eq!(tree.root().as_ref().unwrap().item, ([3, 0, 0], 3));
}

#[test]
fn equal_coordinates_keep_insertion_order() {
    let mut tree = KdTree::new();
    for v in 0..3i64 {
        tree.add(([5, 5, 5], v));
    }
    tree.build(goes_after);
    let mut held = Vec::new();
    collect_in_order(tree.root(), &mut held);
    assert_eq!(held, vec![([5, 5, 5], 0), ([5, 5, 5], 1), ([5, 5, 5], 2)]);
}

#[test]
fn clear_empties_tree() {
    let mut tree = KdTree::new();
    tree.add(([1, 2, 3], 42));
    tree.build(goes_after);
    assert!(!tree.is_empty());
    tree.clear();
    assert!(tree.is_empty());
    assert_eq!(tree.len(), 0);
    assert_eq!(tree.depth(), 0);
}

#[test]
fn build_without_new_items_keeps_tree() {
    let mut tree = KdTree::new();
    tree.add(([1, 2, 3], 1));
    tree.add(([4, 5, 6], 2));
    tree.build(goes_after);
    tree.build(goes_after);
    assert_eq!(tree.len(), 2);
}

#[test]
fn rebuild_keeps_earlier_items() {
    let mut tree = KdTree::new();
    tree.add(([0, 0, 0], 1));
    tree.build(goes_after);
    tree.add(([10, 0, 0], 2));
    tree.build(goes_after);
    assert_eq!(tree.len(), 2);
    let mut held = Vec::new();
    collect_in_order(tree.root(), &mut held);
    assert_eq!(held, vec![([0, 0, 0], 1), ([10, 0, 0], 2)]);
    check_split_order(tree.root(), 0);

    tree.add(([5, 0, 0], 3));
    tree.add(([7, 0, 0], 4));
    tree.build(goes_after);
    assert_eq!(tree.len(), 4);
    let mut held = Vec::new();
    collect_in_order(tree.root(), &mut held);
    assert_eq!(held, vec![([0, 0, 0], 1), ([5, 0, 0], 3), ([7, 0, 0], 4), ([10, 0, 0], 2)]);
    assert_eq!(tree.depth(), 3);
}

type Sample = ([f64; 3], f64);

fn sample_goes_after(a: &Sample, b: &Sample, axis: usize) -> bool {
    a.0[axis].partial_cmp(&b.0[axis]).unwrap() == std::cmp::Ordering::Greater
}

#[test]
fn test_tree_stats() {
    let mut tree = KdTree::new();
    for i in 0..7 {
        tree.add(([i as f64, 0.0, 0.0], i as f64));
    }
    tree.build(sample_goes_after);

    let stats = tree.stats();
    assert_eq!(stats.node_count, 7);
    assert!(stats.depth >= 3); // Should be reasonably balanced
    assert!(stats.is_balanced);
}

#[test]
fn test_clear() {
    let mut tree = KdTree::new();
    tree.add(([1.0, 2.0, 3.0], 42.0));
    tree.build(sample_goes_after);
    assert!(!tree.is_empty());

    tree.clear();
    assert!(tree.is_empty());
    assert_eq!(tree.len(), 0);
    assert_eq!(tree.depth(), 0);
}

#[test]
fn test_with_capacity() {
    let tree: KdTree<Sample> = KdTree::with_capacity(1000);
    assert!(tree.is_empty());
    assert_eq!(tree.len(), 0);
}

#[test]
fn test_tree_properties() {
    let mut tree = KdTree::new();
    assert!(tree.is_empty());
    assert_eq!(tree.len(), 0);

    tree.add(([1.0, 2.0, 3.0], 10.0));
    tree.add(([4.0, 5.0, 6.0], 20.0));
    tree.add(([0.0, 0.0, 0.0], 5.0));
    tree.build(sample_goes_after);

    assert!(!tree.is_empty());
    assert_eq!(tree.len(), 3);
}

#[test]
fn median_among_tied_items_follows_input_order() {
    // Along x the items sort stably to d, a, b, c; the median is b.
    let mut tree = KdTree::new();
    tree.add(([1, 0, 0], 1)); // a
    tree.add(([1, 0, 0], 2)); // b
    tree.add(([1, 0, 0], 3)); // c
    tree.add(([0, 0, 0], 4)); // d
    tree.build(goes_after);
    assert_eq!(tree.root().as_ref().unwrap().item, ([1, 0, 0], 2));
    let mut held = Vec::new();
    collect_in_order(tree.root(), &mut held);
    assert_eq!(held, vec![([0, 0, 0], 4), ([1, 0, 0], 1), ([1, 0, 0], 2), ([1, 0, 0], 3)]);
}

#[test]
fn rebuild_puts_earlier_items_before_pending_ones() {
    // Items already in the tree come first among tied items at a rebuild.
    let mut tree = KdTree::new();
    tree.add(([2, 0, 0], 1));
    tree.add(([2, 0, 0], 2));
    tree.build(goes_after);
    tree.add(([2, 0, 0], 3));
    tree.build(goes_after);
    assert_eq!(tree.len(), 3);
    let mut held = Vec::new();
    collect_in_order(tree.root(), &mut held);
    assert_eq!(held, vec![([2, 0, 0], 1), ([2, 0, 0], 2), ([2, 0, 0], 3)]);
    assert_eq!(tree.root().as_ref().unwrap().item, ([2, 0, 0], 2));
}

fn pre_order(node: &Option<Box<KdNode<Item>>>, out: &mut Vec<(Item, usize)>) {
    if let Some(n) = node {
        out.push((n.item, n.axis));
        pre_order(&n.left, out);
        pre_order(&n.right, out);
    }
}

#[test]
fn same_items_build_the_same_tree() {
    let items = [
        ([3, 1, 2], 1),
        ([3, 1, 2], 2),
        ([1, 4, 2], 3),
        ([1, 4, 0], 4),
        ([2, 2, 2], 5),
        ([3, 0, 2], 6),
    ];
    let mut first = KdTree::new();
    let mut second = KdTree::with_capacity(items.len());
    for item in items {
        first.add(item);
        second.add(item);
    }
    first.build(goes_after);
    second.build(goes_after);
    let mut a = Vec::new();
    pre_order(first.root(), &mut a);
    let mut b = Vec::new();
    pre_order(second.root(), &mut b);
    assert_eq!(a, b);
    // Sorted stably along x: 3, 4, 5, 1, 2, 6; the median is item 1.
    assert_eq!(a[0], (([3, 1, 2], 1), 0));
}
