//! A KD-tree built by median splitting, and statistics about its shape.
//!
//! The tree is generic over its items: the caller supplies the comparison
//! that orders two items along an axis, so the tree's structure (which items
//! it holds, how deep it is, how it is split) is decided here while the
//! geometry of the items stays with the caller.
use vstd::prelude::*;
use vstd::arithmetic::power2::{lemma_pow2, lemma_pow2_unfold, pow2};
use vstd::seq_lib::{lemma_multiset_commutative, to_multiset_build};

verus! {

/// Statistics about a KD-tree's structure.
#[derive(Debug, Clone, Copy, PartialEq, Eq, Structural)]
pub struct TreeStats {
    /// Total number of nodes in the tree
    pub node_count: usize,
    /// Maximum depth from root to any leaf
    pub depth: usize,
    /// Whether the tree is reasonably balanced
    pub is_balanced: bool,
}

/// The base-two logarithm of `n`, rounded up (zero for `n <= 1`): the depth
/// of an optimally balanced tree of `n` nodes.
pub open spec fn ceil_log2(n: nat) -> nat
    decreases n,
{
    if n <= 1 {
        0
    } else {
        1 + ceil_log2(((n + 1) / 2) as nat)
    }
}

/// Whether a tree of `node_count` nodes and the given depth counts as
/// balanced: an empty tree does, and otherwise its depth exceeds the optimal
/// depth `ceil_log2(node_count)` by at most half of it, or by one when that
/// half is zero.
pub open spec fn balanced(node_count: nat, depth: nat) -> bool {
    let optimal = ceil_log2(node_count);
    let slack = if optimal / 2 >= 1 {
        optimal / 2
    } else {
        1
    };
    node_count == 0 || depth <= optimal + slack
}

proof fn lemma_ceil_log2_small(n: nat)
    ensures
        2 * ceil_log2(n) <= n + 1,
    decreases n,
{
    if n > 3 {
        lemma_ceil_log2_small(((n + 1) / 2) as nat);
    } else if n > 1 {
        assert(ceil_log2(((n + 1) / 2) as nat) <= 1) by {
            reveal_with_fuel(ceil_log2, 2);
        }
    }
}

/// Computes `ceil_log2(n)`.
fn ceil_log2_exec(n: usize) -> (r: usize)
    ensures
        r == ceil_log2(n as nat),
{
    let mut m = n;
    let mut steps: usize = 0;
    proof {
        lemma_ceil_log2_small(n as nat);
    }
    while m > 1
        invariant
            steps + ceil_log2(m as nat) == ceil_log2(n as nat),
            2 * ceil_log2(n as nat) <= n + 1,
        decreases m,
    {
        assert((m / 2 + m % 2) as nat == ((m + 1) / 2) as nat);
        m = m / 2 + m % 2;
        steps = steps + 1;
    }
    steps
}

/// `ceil_log2(n)` is the exponent of the smallest power of two that is at
/// least `n`: two to that power reaches `n`, and for `n >= 2` two to one
/// less does not.
pub proof fn lemma_ceil_log2_bounds(n: nat)
    ensures
        n <= pow2(ceil_log2(n)),
        n >= 2 ==> pow2((ceil_log2(n) - 1) as nat) < n,
    decreases n,
{
    reveal(vstd::arithmetic::power::pow);
    if n <= 1 {
        assert(pow2(0) == 1) by {
            lemma_pow2(0);
        }
    } else {
        let m = ((n + 1) / 2) as nat;
        lemma_ceil_log2_bounds(m);
        lemma_pow2_unfold(ceil_log2(n));
        if m >= 2 {
            lemma_pow2_unfold(ceil_log2(m));
        } else {
            assert(ceil_log2(m) == 0);
            lemma_pow2(0);
        }
    }
}

/// The balance rule for a tree of `n` nodes, with `c = ceil_log2(n)` its
/// optimal depth: an empty tree is balanced; a depth of at most `c + 1`, or
/// at most `c + c / 2`, is balanced; a non-empty tree deeper than both is
/// not.
pub proof fn lemma_balanced_thresholds(n: nat, depth: nat)
    ensures
        n == 0 ==> balanced(n, depth),
        depth <= ceil_log2(n) + 1 ==> balanced(n, depth),
        depth <= ceil_log2(n) + ceil_log2(n) / 2 ==> balanced(n, depth),
        n > 0 && depth > ceil_log2(n) + 1 && depth > ceil_log2(n) + ceil_log2(n) / 2 ==> !balanced(
            n,
            depth,
        ),
{
}

/// A shallower tree with the same number of nodes is balanced whenever a
/// deeper one is.
pub proof fn lemma_balanced_monotone(n: nat, shallow: nat, deep: nat)
    requires
        shallow <= deep,
        balanced(n, deep),
    ensures
        balanced(n, shallow),
{
}

/// Decides whether a tree of `node_count` nodes and the given depth is
/// balanced (see `balanced`).
pub fn is_balanced(node_count: usize, depth: usize) -> (b: bool)
    ensures
        b == balanced(node_count as nat, depth as nat),
{
    if node_count == 0 {
        return true;
    }
    let optimal_depth = ceil_log2_exec(node_count);
    proof {
        lemma_ceil_log2_small(node_count as nat);
    }
    let half = optimal_depth / 2;
    let slack = if half >= 1 {
        half
    } else {
        1
    };
    depth <= optimal_depth + slack
}

/// The statistics of a tree with `node_count` nodes and the given depth.
pub fn tree_stats(node_count: usize, depth: usize) -> (s: TreeStats)
    ensures
        s.node_count == node_count,
        s.depth == depth,
        s.is_balanced == balanced(node_count as nat, depth as nat),
{
    TreeStats { node_count, depth, is_balanced: is_balanced(node_count, depth) }
}

/// The depth of the tree that results from storing `n` points by placing
/// the median point at the root and building the points below and above it
/// into the two subtrees in the same way.
pub open spec fn median_split_depth(n: nat) -> nat
    decreases n,
{
    if n == 0 {
        0
    } else {
        let below = median_split_depth(n / 2);
        let above = median_split_depth((n - n / 2 - 1) as nat);
        1 + if below >= above {
            below
        } else {
            above
        }
    }
}

proof fn lemma_ceil_log2_monotone(a: nat, b: nat)
    requires
        a <= b,
    ensures
        ceil_log2(a) <= ceil_log2(b),
    decreases b,
{
    if a > 1 {
        lemma_ceil_log2_monotone(((a + 1) / 2) as nat, ((b + 1) / 2) as nat);
    }
}

proof fn lemma_median_split_depth(n: nat)
    ensures
        median_split_depth(n) == ceil_log2(n + 1),
    decreases n,
{
    if n > 0 {
        let a = n / 2;
        let b = (n - n / 2 - 1) as nat;
        lemma_median_split_depth(a);
        lemma_median_split_depth(b);
        lemma_ceil_log2_monotone(b + 1, a + 1);
        assert(((n + 1 + 1) / 2) as nat == a + 1);
    }
}

proof fn lemma_ceil_log2_step(n: nat)
    ensures
        ceil_log2(n + 1) <= ceil_log2(n) + 1,
    decreases n,
{
    if n > 1 {
        lemma_ceil_log2_step(((n + 1) / 2) as nat);
        lemma_ceil_log2_monotone(((n + 2) / 2) as nat, ((n + 1) / 2 + 1) as nat);
    }
}

/// A tree built by median splitting is always judged balanced: its depth is
/// the rounded-up logarithm of `n + 1`, at most one more than the optimum.
pub proof fn lemma_median_split_is_balanced(n: nat)
    ensures
        median_split_depth(n) == ceil_log2(n + 1),
        balanced(n, median_split_depth(n)),
{
    lemma_median_split_depth(n);
    lemma_ceil_log2_step(n);
}

/// A node of a KD-tree: one item, the axis along which its subtrees are
/// split, and the subtrees of the items before and after it on that axis.
pub struct KdNode<P> {
    /// The item stored at this node.
    pub item: P,
    /// The splitting axis (0 = x, 1 = y, 2 = z).
    pub axis: usize,
    /// Items that come before this one along the axis.
    pub left: Option<Box<KdNode<P>>>,
    /// Items that come after this one along the axis.
    pub right: Option<Box<KdNode<P>>>,
}

/// The items of a node's subtree in order: left subtree, node, right
/// subtree.
pub open spec fn node_items<P>(node: KdNode<P>) -> Seq<P>
    decreases node,
{
    subtree_items(node.left) + seq![node.item] + subtree_items(node.right)
}

/// The items of an optional subtree in order.
pub open spec fn subtree_items<P>(tree: Option<Box<KdNode<P>>>) -> Seq<P>
    decreases tree,
{
    match tree {
        None => Seq::empty(),
        Some(node) => node_items(*node),
    }
}

/// The number of nodes on the longest path from the root of an optional
/// subtree down to a leaf.
pub open spec fn subtree_depth<P>(tree: Option<Box<KdNode<P>>>) -> nat
    decreases tree,
{
    match tree {
        None => 0,
        Some(node) => {
            let left = subtree_depth(node.left);
            let right = subtree_depth(node.right);
            1 + if left >= right {
                left
            } else {
                right
            }
        },
    }
}

/// Whether a subtree rooted at the given level has the shape of median
/// splitting: each node splits on axis `level % 3`, holds half of its
/// subtree's items (rounded down) on its left, and its subtrees have that
/// shape one level further down.
pub open spec fn median_shaped<P>(tree: Option<Box<KdNode<P>>>, level: nat) -> bool
    decreases tree,
{
    match tree {
        None => true,
        Some(node) => {
            &&& node.axis == level % 3
            &&& subtree_items(node.left).len() == node_items(*node).len() / 2
            &&& median_shaped(node.left, level + 1)
            &&& median_shaped(node.right, level + 1)
        },
    }
}

proof fn lemma_median_shaped_depth<P>(tree: Option<Box<KdNode<P>>>, level: nat)
    requires
        median_shaped(tree, level),
    ensures
        subtree_depth(tree) == median_split_depth(subtree_items(tree).len()),
    decreases tree,
{
    if let Some(node) = tree {
        lemma_median_shaped_depth(node.left, level + 1);
        lemma_median_shaped_depth(node.right, level + 1);
        let n = subtree_items(tree).len();
        assert(subtree_items(node.right).len() == n - n / 2 - 1);
    }
}

proof fn lemma_median_split_depth_bounded(n: nat)
    ensures
        median_split_depth(n) <= n,
{
    lemma_median_split_depth(n);
    lemma_ceil_log2_small(n + 1);
}

/// Computes the depth of an optional subtree.
fn depth_of<P>(tree: &Option<Box<KdNode<P>>>) -> (d: usize)
    requires
        subtree_depth(*tree) <= usize::MAX,
    ensures
        d == subtree_depth(*tree),
    decreases *tree,
{
    match tree {
        None => 0,
        Some(node) => {
            let left = depth_of(&node.left);
            let right = depth_of(&node.right);
            1 + if left >= right {
                left
            } else {
                right
            }
        },
    }
}

/// Whether `goes_after` may be called on any two items and any axis.
pub open spec fn comparison_callable<P, F: Fn(&P, &P, usize) -> bool>(goes_after: F) -> bool {
    forall|a: &P, b: &P, axis: usize| #[trigger] goes_after.requires((a, b, axis))
}

/// Whether `goes_after` can answer that `a` goes after `b` on `axis`.
pub open spec fn answers_after<P, F: Fn(&P, &P, usize) -> bool>(
    goes_after: F,
    a: P,
    b: P,
    axis: usize,
) -> bool {
    call_ensures(goes_after, (&a, &b, axis), true)
}

/// Whether `goes_after` orders items weakly on every axis: it never gives
/// two answers to one question, an item never goes after one that goes
/// after it, and "does not go after" is transitive.
pub open spec fn orders_weakly<P, F: Fn(&P, &P, usize) -> bool>(goes_after: F) -> bool {
    &&& forall|a: P, b: P, axis: usize|
        #![trigger call_ensures(goes_after, (&a, &b, axis), false)]
        call_ensures(goes_after, (&a, &b, axis), false) ==> !answers_after(
            goes_after,
            a,
            b,
            axis,
        )
    &&& forall|a: P, b: P, axis: usize|
        #[trigger] answers_after(goes_after, a, b, axis) ==> !answers_after(goes_after, b, a, axis)
    &&& forall|a: P, b: P, c: P, axis: usize|
        #![trigger answers_after(goes_after, a, b, axis), answers_after(goes_after, b, c, axis)]
        !answers_after(goes_after, a, b, axis) && !answers_after(goes_after, b, c, axis)
            ==> !answers_after(goes_after, a, c, axis)
}

/// Whether no item of `items` goes after a later one on `axis`.
pub open spec fn ordered_along<P, F: Fn(&P, &P, usize) -> bool>(
    items: Seq<P>,
    goes_after: F,
    axis: usize,
) -> bool {
    forall|k: int, m: int|
        0 <= k < m < items.len() ==> !answers_after(goes_after, #[trigger] items[k], #[trigger] items[m], axis)
}

/// Whether every node of a subtree splits its items along its axis: no item
/// of its left subtree goes after it, and it goes after no item of its right
/// subtree.
pub open spec fn split_ordered<P, F: Fn(&P, &P, usize) -> bool>(
    tree: Option<Box<KdNode<P>>>,
    goes_after: F,
) -> bool
    decreases tree,
{
    match tree {
        None => true,
        Some(node) => {
            &&& forall|x: P|
                #[trigger] subtree_items(node.left).contains(x) ==> !answers_after(
                    goes_after,
                    x,
                    node.item,
                    node.axis,
                )
            &&& forall|y: P|
                #[trigger] subtree_items(node.right).contains(y) ==> !answers_after(
                    goes_after,
                    node.item,
                    y,
                    node.axis,
                )
            &&& split_ordered(node.left, goes_after)
            &&& split_ordered(node.right, goes_after)
        },
    }
}

/// Whether `a` and `b` are tied on `axis`: neither goes after the other.
pub open spec fn tied<P, F: Fn(&P, &P, usize) -> bool>(
    goes_after: F,
    a: P,
    b: P,
    axis: usize,
) -> bool {
    !answers_after(goes_after, a, b, axis) && !answers_after(goes_after, b, a, axis)
}

/// The items of `items` that are tied with `x` on `axis`, in their order.
pub open spec fn tied_with<P, F: Fn(&P, &P, usize) -> bool>(
    items: Seq<P>,
    goes_after: F,
    x: P,
    axis: usize,
) -> Seq<P> {
    items.filter(|y: P| tied(goes_after, x, y, axis))
}

/// Whether `sorted` is `items` sorted stably along `axis`: it holds the same
/// items, no item goes after a later one, and items tied on the axis keep
/// the order they had in `items`.
pub open spec fn stably_sorted<P, F: Fn(&P, &P, usize) -> bool>(
    items: Seq<P>,
    sorted: Seq<P>,
    goes_after: F,
    axis: usize,
) -> bool {
    &&& sorted.to_multiset() == items.to_multiset()
    &&& sorted.len() == items.len()
    &&& ordered_along(sorted, goes_after, axis)
    &&& forall|x: P|
        #[trigger] tied_with(sorted, goes_after, x, axis) == tied_with(items, goes_after, x, axis)
}

/// Whether a subtree rooted at the given level is what median splitting
/// builds from `items`: none for no items; otherwise the items sorted
/// stably along axis `level % 3`, their median as the node, and the items
/// before and after it built into the two subtrees one level further down.
pub open spec fn median_built<P, F: Fn(&P, &P, usize) -> bool>(
    tree: Option<Box<KdNode<P>>>,
    items: Seq<P>,
    level: nat,
    goes_after: F,
) -> bool
    decreases tree,
{
    match tree {
        None => items.len() == 0,
        Some(node) => exists|sorted: Seq<P>|
            {
                &&& #[trigger] stably_sorted(items, sorted, goes_after, (level % 3) as usize)
                &&& sorted.len() > 0
                &&& node.axis == (level % 3) as usize
                &&& node.item == sorted[(sorted.len() / 2) as int]
                &&& median_built(
                    node.left,
                    sorted.take((sorted.len() / 2) as int),
                    level + 1,
                    goes_after,
                )
                &&& median_built(
                    node.right,
                    sorted.skip((sorted.len() / 2) as int + 1),
                    level + 1,
                    goes_after,
                )
            },
    }
}

/// Under a weak order, two ordered sequences with the same items in which
/// the items tied with any one item come in the same order are equal: a
/// stable sort has one result.
pub proof fn lemma_stable_order_unique<P, F: Fn(&P, &P, usize) -> bool>(
    s1: Seq<P>,
    s2: Seq<P>,
    goes_after: F,
    axis: usize,
)
    requires
        orders_weakly(goes_after),
        s1.to_multiset() == s2.to_multiset(),
        ordered_along(s1, goes_after, axis),
        ordered_along(s2, goes_after, axis),
        forall|x: P|
            #[trigger] tied_with(s1, goes_after, x, axis) == tied_with(s2, goes_after, x, axis),
    ensures
        s1 == s2,
    decreases s1.len(),
{
    broadcast use vstd::seq_lib::group_to_multiset_ensures;
    broadcast use Seq::lemma_filter_push;

    s1.to_multiset_ensures();
    s2.to_multiset_ensures();
    if s1.len() == 0 {
        assert(s1 =~= s2);
        return;
    }
    let n = s1.len() as int;
    let a = s1[n - 1];
    let b = s2[n - 1];
    let d1 = s1.drop_last();
    let d2 = s2.drop_last();
    assert(s1 =~= d1.push(a));
    assert(s2 =~= d2.push(b));
    // The last items are tied: each comes no later than the other's place.
    assert(s2.contains(b));
    assert(s1.to_multiset().count(b) > 0);
    assert(s1.contains(b));
    let k1 = choose|k: int| 0 <= k < n && s1[k] == b;
    if k1 < n - 1 {
        assert(!answers_after(goes_after, s1[k1], s1[n - 1], axis));
    }
    assert(s1.contains(a));
    assert(s2.to_multiset().count(a) > 0);
    assert(s2.contains(a));
    let k2 = choose|k: int| 0 <= k < n && s2[k] == a;
    if k2 < n - 1 {
        assert(!answers_after(goes_after, s2[k2], s2[n - 1], axis));
    }
    assert(tied(goes_after, a, b, axis));
    assert(tied(goes_after, a, a, axis));
    // Among the items tied with `a`, the last one is `a` in `s1` and `b` in `s2`.
    let t1 = tied_with(s1, goes_after, a, axis);
    let t2 = tied_with(s2, goes_after, a, axis);
    assert(t1 == tied_with(d1, goes_after, a, axis).push(a));
    assert(t2 == tied_with(d2, goes_after, a, axis).push(b));
    assert(t1 == t2);
    assert(t1[t1.len() - 1] == a);
    assert(a == b);
    // What comes before the last items satisfies the same conditions.
    assert(d1.to_multiset() =~= d2.to_multiset()) by {
        broadcast use vstd::multiset::group_multiset_axioms;

        to_multiset_build(d1, a);
        to_multiset_build(d2, a);
        assert(s1.to_multiset() == d1.to_multiset().insert(a));
        assert(s2.to_multiset() == d2.to_multiset().insert(a));
        assert forall|x: P| d1.to_multiset().count(x) == d2.to_multiset().count(x) by {
            assert(s1.to_multiset().count(x) == s2.to_multiset().count(x));
            if x == a {
                assert(d1.to_multiset().insert(a).count(x) == d1.to_multiset().count(x) + 1);
                assert(d2.to_multiset().insert(a).count(x) == d2.to_multiset().count(x) + 1);
            } else {
                assert(d1.to_multiset().insert(a).count(x) == d1.to_multiset().count(x));
                assert(d2.to_multiset().insert(a).count(x) == d2.to_multiset().count(x));
            }
        }
    }
    assert forall|k: int, m: int| 0 <= k < m < d1.len() implies !answers_after(
        goes_after,
        #[trigger] d1[k],
        #[trigger] d1[m],
        axis,
    ) by {
        assert(d1[k] == s1[k]);
        assert(d1[m] == s1[m]);
    }
    assert forall|k: int, m: int| 0 <= k < m < d2.len() implies !answers_after(
        goes_after,
        #[trigger] d2[k],
        #[trigger] d2[m],
        axis,
    ) by {
        assert(d2[k] == s2[k]);
        assert(d2[m] == s2[m]);
    }
    assert forall|x: P| #[trigger]
        tied_with(d1, goes_after, x, axis) == tied_with(d2, goes_after, x, axis) by {
        assert(tied_with(s1, goes_after, x, axis) == tied_with(s2, goes_after, x, axis));
        if tied(goes_after, x, a, axis) {
            assert(tied_with(d1, goes_after, x, axis) =~= tied_with(s1, goes_after, x, axis).drop_last());
            assert(tied_with(d2, goes_after, x, axis) =~= tied_with(s2, goes_after, x, axis).drop_last());
        }
    }
    lemma_stable_order_unique(d1, d2, goes_after, axis);
}

/// Under a weak order, median splitting builds one tree from given items:
/// two subtrees that are both what it builds from them are equal.
pub proof fn lemma_median_built_unique<P, F: Fn(&P, &P, usize) -> bool>(
    t1: Option<Box<KdNode<P>>>,
    t2: Option<Box<KdNode<P>>>,
    items: Seq<P>,
    level: nat,
    goes_after: F,
)
    requires
        orders_weakly(goes_after),
        median_built(t1, items, level, goes_after),
        median_built(t2, items, level, goes_after),
    ensures
        t1 == t2,
    decreases t1,
{
    match t1 {
        None => {
            if let Some(n2) = t2 {
                let sorted = choose|sorted: Seq<P>|
                    {
                        &&& #[trigger] stably_sorted(items, sorted, goes_after, (level % 3) as usize)
                        &&& sorted.len() > 0
                    };
                assert(false);
            }
        },
        Some(n1) => {
            match t2 {
                None => {},
                Some(n2) => {
                    let axis = (level % 3) as usize;
                    let sorted1 = choose|sorted: Seq<P>|
                        {
                            &&& #[trigger] stably_sorted(items, sorted, goes_after, axis)
                            &&& sorted.len() > 0
                            &&& n1.axis == axis
                            &&& n1.item == sorted[(sorted.len() / 2) as int]
                            &&& median_built(
                                n1.left,
                                sorted.take((sorted.len() / 2) as int),
                                level + 1,
                                goes_after,
                            )
                            &&& median_built(
                                n1.right,
                                sorted.skip((sorted.len() / 2) as int + 1),
                                level + 1,
                                goes_after,
                            )
                        };
                    let sorted2 = choose|sorted: Seq<P>|
                        {
                            &&& #[trigger] stably_sorted(items, sorted, goes_after, axis)
                            &&& sorted.len() > 0
                            &&& n2.axis == axis
                            &&& n2.item == sorted[(sorted.len() / 2) as int]
                            &&& median_built(
                                n2.left,
                                sorted.take((sorted.len() / 2) as int),
                                level + 1,
                                goes_after,
                            )
                            &&& median_built(
                                n2.right,
                                sorted.skip((sorted.len() / 2) as int + 1),
                                level + 1,
                                goes_after,
                            )
                        };
                    assert forall|x: P| #[trigger]
                        tied_with(sorted1, goes_after, x, axis) == tied_with(
                            sorted2,
                            goes_after,
                            x,
                            axis,
                        ) by {
                        assert(tied_with(sorted1, goes_after, x, axis) == tied_with(
                            items,
                            goes_after,
                            x,
                            axis,
                        ));
                        assert(tied_with(sorted2, goes_after, x, axis) == tied_with(
                            items,
                            goes_after,
                            x,
                            axis,
                        ));
                    }
                    lemma_stable_order_unique(sorted1, sorted2, goes_after, axis);
                    lemma_median_built_unique(
                        n1.left,
                        n2.left,
                        sorted1.take((sorted1.len() / 2) as int),
                        level + 1,
                        goes_after,
                    );
                    lemma_median_built_unique(
                        n1.right,
                        n2.right,
                        sorted1.skip((sorted1.len() / 2) as int + 1),
                        level + 1,
                        goes_after,
                    );
                    assert(*n1 == *n2);
                },
            }
        },
    }
}

/// Under a weak order, being tied is transitive.
proof fn lemma_tied_transitive<P, F: Fn(&P, &P, usize) -> bool>(
    goes_after: F,
    a: P,
    b: P,
    c: P,
    axis: usize,
)
    requires
        orders_weakly(goes_after),
        tied(goes_after, a, b, axis),
        tied(goes_after, b, c, axis),
    ensures
        tied(goes_after, a, c, axis),
{
}

/// Appending an item to the merged output and to the run it came from keeps
/// the tied items of the output equal to those of the left run taken so far
/// followed by those of the right run taken so far, when the item is taken
/// from the right run.
proof fn lemma_tied_push_right<P, F: Fn(&P, &P, usize) -> bool>(
    merged: Seq<P>,
    left_taken: Seq<P>,
    right_taken: Seq<P>,
    item: P,
    goes_after: F,
    axis: usize,
)
    requires
        forall|x: P|
            #[trigger] tied_with(merged, goes_after, x, axis) == tied_with(
                left_taken,
                goes_after,
                x,
                axis,
            ) + tied_with(right_taken, goes_after, x, axis),
    ensures
        forall|x: P|
            #[trigger] tied_with(merged.push(item), goes_after, x, axis) == tied_with(
                left_taken,
                goes_after,
                x,
                axis,
            ) + tied_with(right_taken.push(item), goes_after, x, axis),
{
    broadcast use Seq::lemma_filter_push;

    assert forall|x: P| #[trigger]
        tied_with(merged.push(item), goes_after, x, axis) == tied_with(
            left_taken,
            goes_after,
            x,
            axis,
        ) + tied_with(right_taken.push(item), goes_after, x, axis) by {
        assert(tied_with(merged, goes_after, x, axis) == tied_with(left_taken, goes_after, x, axis)
            + tied_with(right_taken, goes_after, x, axis));
        if tied(goes_after, x, item, axis) {
            assert((tied_with(left_taken, goes_after, x, axis) + tied_with(
                right_taken,
                goes_after,
                x,
                axis,
            )).push(item) =~= tied_with(left_taken, goes_after, x, axis) + tied_with(
                right_taken,
                goes_after,
                x,
                axis,
            ).push(item));
        }
    }
}

/// The same, when the item is taken from the left run and is tied with no
/// item of the right run taken so far.
proof fn lemma_tied_push_left<P, F: Fn(&P, &P, usize) -> bool>(
    merged: Seq<P>,
    left_taken: Seq<P>,
    right_taken: Seq<P>,
    item: P,
    goes_after: F,
    axis: usize,
)
    requires
        orders_weakly(goes_after),
        forall|v: int| 0 <= v < right_taken.len() ==> !tied(goes_after, item, #[trigger] right_taken[v], axis),
        forall|x: P|
            #[trigger] tied_with(merged, goes_after, x, axis) == tied_with(
                left_taken,
                goes_after,
                x,
                axis,
            ) + tied_with(right_taken, goes_after, x, axis),
    ensures
        forall|x: P|
            #[trigger] tied_with(merged.push(item), goes_after, x, axis) == tied_with(
                left_taken.push(item),
                goes_after,
                x,
                axis,
            ) + tied_with(right_taken, goes_after, x, axis),
{
    broadcast use Seq::lemma_filter_push;

    assert forall|x: P| #[trigger]
        tied_with(merged.push(item), goes_after, x, axis) == tied_with(
            left_taken.push(item),
            goes_after,
            x,
            axis,
        ) + tied_with(right_taken, goes_after, x, axis) by {
        assert(tied_with(merged, goes_after, x, axis) == tied_with(left_taken, goes_after, x, axis)
            + tied_with(right_taken, goes_after, x, axis));
        if tied(goes_after, x, item, axis) {
            let pred = |y: P| tied(goes_after, x, y, axis);
            assert forall|v: int| 0 <= v < right_taken.len() implies !pred(
                #[trigger] right_taken[v],
            ) by {
                if tied(goes_after, x, right_taken[v], axis) {
                    lemma_tied_transitive(goes_after, item, x, right_taken[v], axis);
                }
            }
            right_taken.lemma_all_neg_filter_empty(pred);
            assert(tied_with(right_taken, goes_after, x, axis) =~= Seq::<P>::empty());
            assert(tied_with(merged, goes_after, x, axis) =~= tied_with(
                left_taken,
                goes_after,
                x,
                axis,
            ));
            assert(tied_with(left_taken.push(item), goes_after, x, axis) + tied_with(
                right_taken,
                goes_after,
                x,
                axis,
            ) =~= tied_with(left_taken, goes_after, x, axis).push(item));
        }
    }
}

/// The facts a merge keeps about its output when the comparison orders
/// weakly and both runs are ordered: the output is ordered, and no output
/// item goes after an item still waiting in either run.
spec fn merge_progress<P, F: Fn(&P, &P, usize) -> bool>(
    merged: Seq<P>,
    left: Seq<P>,
    i: int,
    right: Seq<P>,
    j: int,
    goes_after: F,
    axis: usize,
) -> bool {
    &&& ordered_along(merged, goes_after, axis)
    &&& forall|k: int, w: int|
        0 <= k < merged.len() && i <= w < left.len() ==> !answers_after(
            goes_after,
            #[trigger] merged[k],
            #[trigger] left[w],
            axis,
        )
    &&& forall|k: int, w: int|
        0 <= k < merged.len() && j <= w < right.len() ==> !answers_after(
            goes_after,
            #[trigger] merged[k],
            #[trigger] right[w],
            axis,
        )
}

/// Appending `item`, the front of the run `from` (at `pos`), keeps the merge
/// facts when `item` goes after no item waiting in the other run `other`
/// (from `opos`).
proof fn lemma_merge_step<P, F: Fn(&P, &P, usize) -> bool>(
    merged: Seq<P>,
    from: Seq<P>,
    pos: int,
    other: Seq<P>,
    opos: int,
    goes_after: F,
    axis: usize,
)
    requires
        orders_weakly(goes_after),
        ordered_along(from, goes_after, axis),
        0 <= pos < from.len(),
        0 <= opos,
        ordered_along(merged, goes_after, axis),
        forall|k: int, w: int|
            0 <= k < merged.len() && pos <= w < from.len() ==> !answers_after(
                goes_after,
                #[trigger] merged[k],
                #[trigger] from[w],
                axis,
            ),
        forall|k: int, w: int|
            0 <= k < merged.len() && opos <= w < other.len() ==> !answers_after(
                goes_after,
                #[trigger] merged[k],
                #[trigger] other[w],
                axis,
            ),
        forall|w: int| opos <= w < other.len() ==> !answers_after(goes_after, from[pos], #[trigger] other[w], axis),
    ensures
        ordered_along(merged.push(from[pos]), goes_after, axis),
        forall|k: int, w: int|
            0 <= k < merged.len() + 1 && pos + 1 <= w < from.len() ==> !answers_after(
                goes_after,
                #[trigger] merged.push(from[pos])[k],
                #[trigger] from[w],
                axis,
            ),
        forall|k: int, w: int|
            0 <= k < merged.len() + 1 && opos <= w < other.len() ==> !answers_after(
                goes_after,
                #[trigger] merged.push(from[pos])[k],
                #[trigger] other[w],
                axis,
            ),
{
    let item = from[pos];
    let next = merged.push(item);
    assert forall|k: int, m: int| 0 <= k < m < next.len() implies !answers_after(
        goes_after,
        #[trigger] next[k],
        #[trigger] next[m],
        axis,
    ) by {
        if m < merged.len() {
            assert(next[k] == merged[k] && next[m] == merged[m]);
        } else {
            assert(next[k] == merged[k] && next[m] == from[pos]);
        }
    }
    assert forall|k: int, w: int| 0 <= k < next.len() && pos + 1 <= w < from.len() implies !answers_after(
        goes_after,
        #[trigger] next[k],
        #[trigger] from[w],
        axis,
    ) by {
        if k < merged.len() {
            assert(next[k] == merged[k]);
        } else {
            assert(next[k] == from[pos]);
        }
    }
    assert forall|k: int, w: int| 0 <= k < next.len() && opos <= w < other.len() implies !answers_after(
        goes_after,
        #[trigger] next[k],
        #[trigger] other[w],
        axis,
    ) by {
        if k < merged.len() {
            assert(next[k] == merged[k]);
        } else {
            assert(next[k] == from[pos]);
        }
    }
}

/// Merges two runs into one holding all their items: items are taken from
/// the front of the left run unless its front item goes after the front item
/// of the right run, so that equal items keep their order. When the
/// comparison orders weakly and both runs are ordered, so is the result.
fn merge_runs<P: Copy, F: Fn(&P, &P, usize) -> bool>(
    left: &Vec<P>,
    right: &Vec<P>,
    axis: usize,
    goes_after: &F,
) -> (merged: Vec<P>)
    requires
        comparison_callable(*goes_after),
    ensures
        merged@.to_multiset() == left@.to_multiset().add(right@.to_multiset()),
        merged@.len() == left@.len() + right@.len(),
        orders_weakly(*goes_after) && ordered_along(left@, *goes_after, axis) && ordered_along(
            right@,
            *goes_after,
            axis,
        ) ==> ordered_along(merged@, *goes_after, axis),
        orders_weakly(*goes_after) && ordered_along(left@, *goes_after, axis) && ordered_along(
            right@,
            *goes_after,
            axis,
        ) ==> forall|x: P|
            #[trigger] tied_with(merged@, *goes_after, x, axis) == tied_with(
                left@,
                *goes_after,
                x,
                axis,
            ) + tied_with(right@, *goes_after, x, axis),
{
    broadcast use vstd::seq_lib::group_to_multiset_ensures, vstd::multiset::group_multiset_axioms;

    let ghost weak = orders_weakly(*goes_after) && ordered_along(left@, *goes_after, axis)
        && ordered_along(right@, *goes_after, axis);
    let mut merged: Vec<P> = Vec::new();
    let mut i: usize = 0;
    let mut j: usize = 0;
    assert(left@.take(0) =~= Seq::<P>::empty());
    assert(right@.take(0) =~= Seq::<P>::empty());
    proof {
        broadcast use Seq::lemma_filter_len;

        assert forall|x: P| #[trigger]
            tied_with(merged@, *goes_after, x, axis) == tied_with(
                left@.take(0),
                *goes_after,
                x,
                axis,
            ) + tied_with(right@.take(0), *goes_after, x, axis) by {
            assert(tied_with(Seq::<P>::empty(), *goes_after, x, axis) =~= Seq::<P>::empty());
            assert(merged@ =~= Seq::<P>::empty());
        }
    }
    while i < left.len() || j < right.len()
        invariant
            comparison_callable(*goes_after),
            weak == (orders_weakly(*goes_after) && ordered_along(left@, *goes_after, axis)
                && ordered_along(right@, *goes_after, axis)),
            i <= left@.len(),
            j <= right@.len(),
            merged@.len() == i + j,
            merged@.to_multiset() == left@.take(i as int).to_multiset().add(
                right@.take(j as int).to_multiset(),
            ),
            weak ==> merge_progress(merged@, left@, i as int, right@, j as int, *goes_after, axis),
            weak ==> forall|x: P|
                #[trigger] tied_with(merged@, *goes_after, x, axis) == tied_with(
                    left@.take(i as int),
                    *goes_after,
                    x,
                    axis,
                ) + tied_with(right@.take(j as int), *goes_after, x, axis),
            weak ==> forall|w: int, v: int|
                i <= w < left@.len() && 0 <= v < j ==> !tied(
                    *goes_after,
                    #[trigger] left@[w],
                    #[trigger] right@[v],
                    axis,
                ),
        decreases left@.len() + right@.len() - i - j,
    {
        let ghost before = merged@;
        let ghost left_taken = left@.take(i as int);
        let ghost right_taken = right@.take(j as int);
        let take_right = if i == left.len() {
            true
        } else if j == right.len() {
            false
        } else {
            goes_after(&left[i], &right[j], axis)
        };
        if take_right {
            let item = right[j];
            proof {
                if weak {
                    if i < left@.len() {
                        assert(answers_after(*goes_after, left@[i as int], item, axis));
                        assert forall|w: int| i <= w < left@.len() implies !answers_after(
                            *goes_after,
                            item,
                            #[trigger] left@[w],
                            axis,
                        ) by {
                            if w > i {
                                assert(!answers_after(*goes_after, left@[i as int], left@[w], axis));
                            }
                        }
                    }
                    lemma_merge_step(before, right@, j as int, left@, i as int, *goes_after, axis);
                    lemma_tied_push_right(before, left_taken, right_taken, item, *goes_after, axis);
                    assert forall|w: int| i <= w < left@.len() implies !tied(
                        *goes_after,
                        #[trigger] left@[w],
                        item,
                        axis,
                    ) by {
                        if w > i {
                            assert(!answers_after(*goes_after, left@[i as int], left@[w], axis));
                        }
                    }
                }
            }
            assert(right@.take(j + 1) =~= right_taken.push(item));
            merged.push(item);
            j = j + 1;
            assert(merged@ =~= before.push(item));
            proof {
                to_multiset_build(before, item);
                to_multiset_build(right_taken, item);
            }
            assert(merged@.to_multiset() =~= left_taken.to_multiset().add(
                right_taken.push(item).to_multiset(),
            ));
        } else {
            let item = left[i];
            proof {
                if weak {
                    if j < right@.len() {
                        assert(!answers_after(*goes_after, item, right@[j as int], axis));
                        assert forall|w: int| j <= w < right@.len() implies !answers_after(
                            *goes_after,
                            item,
                            #[trigger] right@[w],
                            axis,
                        ) by {
                            if w > j {
                                assert(!answers_after(*goes_after, right@[j as int], right@[w], axis));
                            }
                        }
                    }
                    lemma_merge_step(before, left@, i as int, right@, j as int, *goes_after, axis);
                    assert forall|v: int| 0 <= v < right_taken.len() implies !tied(
                        *goes_after,
                        item,
                        #[trigger] right_taken[v],
                        axis,
                    ) by {
                        assert(right_taken[v] == right@[v]);
                    }
                    lemma_tied_push_left(before, left_taken, right_taken, item, *goes_after, axis);
                }
            }
            assert(left@.take(i + 1) =~= left_taken.push(item));
            merged.push(item);
            i = i + 1;
            assert(merged@ =~= before.push(item));
            proof {
                to_multiset_build(before, item);
                to_multiset_build(left_taken, item);
            }
            assert(merged@.to_multiset() =~= left_taken.push(item).to_multiset().add(
                right_taken.to_multiset(),
            ));
        }
    }
    assert(left@.take(i as int) =~= left@);
    assert(right@.take(j as int) =~= right@);
    merged
}

/// Orders the items along `axis` by merge sorting with `goes_after`, which
/// tells whether one item goes after another on that axis. Items that do not
/// go after each other keep their order. The result holds exactly the given
/// items, and is ordered whenever the comparison orders weakly.
fn sort_along_axis<P: Copy, F: Fn(&P, &P, usize) -> bool>(
    items: &[P],
    axis: usize,
    goes_after: &F,
) -> (sorted: Vec<P>)
    requires
        comparison_callable(*goes_after),
    ensures
        sorted@.to_multiset() == items@.to_multiset(),
        sorted@.len() == items@.len(),
        orders_weakly(*goes_after) ==> stably_sorted(items@, sorted@, *goes_after, axis),
    decreases items@.len(),
{
    let n = items.len();
    if n <= 1 {
        let copy = vstd::slice::slice_to_vec(items);
        proof {
            if orders_weakly(*goes_after) {
                assert(copy@ =~= items@);
            }
        }
        return copy;
    }
    let mid = n / 2;
    let (low, high) = items.split_at(mid);
    let left = sort_along_axis(low, axis, goes_after);
    let right = sort_along_axis(high, axis, goes_after);
    proof {
        assert(items@ =~= low@ + high@);
        lemma_multiset_commutative(low@, high@);
    }
    let merged = merge_runs(&left, &right, axis, goes_after);
    proof {
        if orders_weakly(*goes_after) {
            assert forall|x: P| #[trigger]
                tied_with(merged@, *goes_after, x, axis) == tied_with(
                    items@,
                    *goes_after,
                    x,
                    axis,
                ) by {
                Seq::filter_distributes_over_add(
                    low@,
                    high@,
                    |y: P| tied(*goes_after, x, y, axis),
                );
                assert(tied_with(left@, *goes_after, x, axis) == tied_with(
                    low@,
                    *goes_after,
                    x,
                    axis,
                ));
                assert(tied_with(right@, *goes_after, x, axis) == tied_with(
                    high@,
                    *goes_after,
                    x,
                    axis,
                ));
            }
        }
    }
    merged
}

/// Builds the subtree of the given items at the given level: the items are
/// ordered along axis `level % 3`, the median one becomes the node, and the
/// items before and after it become its subtrees, one level further down.
fn build_subtree<P: Copy, F: Fn(&P, &P, usize) -> bool>(
    items: &[P],
    level: usize,
    goes_after: &F,
) -> (tree: Option<Box<KdNode<P>>>)
    requires
        comparison_callable(*goes_after),
        level + items@.len() <= usize::MAX,
    ensures
        subtree_items(tree).to_multiset() == items@.to_multiset(),
        subtree_items(tree).len() == items@.len(),
        median_shaped(tree, level as nat),
        orders_weakly(*goes_after) ==> split_ordered(tree, *goes_after),
        orders_weakly(*goes_after) ==> median_built(tree, items@, level as nat, *goes_after),
    decreases items@.len(),
{
    broadcast use vstd::seq_lib::group_to_multiset_ensures;

    if items.len() == 0 {
        assert(items@ =~= Seq::<P>::empty());
        assert(subtree_items(None::<Box<KdNode<P>>>) =~= items@);
        return None;
    }
    let axis = level % 3;
    let sorted = sort_along_axis(items, axis, goes_after);
    let median = sorted.len() / 2;
    let item = sorted[median];
    let (low, rest) = sorted.as_slice().split_at(median);
    let (_, high) = rest.split_at(1);
    let left = build_subtree(low, level + 1, goes_after);
    let right = build_subtree(high, level + 1, goes_after);
    let node = KdNode { item, axis, left, right };
    proof {
        assert(sorted@ =~= low@ + seq![item] + high@);
        lemma_multiset_commutative(low@, seq![item]);
        lemma_multiset_commutative(low@ + seq![item], high@);
        lemma_multiset_commutative(subtree_items(left), seq![item]);
        lemma_multiset_commutative(subtree_items(left) + seq![item], subtree_items(right));
        if orders_weakly(*goes_after) {
            assert(low@ =~= sorted@.take(median as int));
            assert(high@ =~= sorted@.skip(median as int + 1));
            assert(stably_sorted(items@, sorted@, *goes_after, ((level as nat) % 3) as usize));
            assert(median_built(Some(Box::new(node)), items@, level as nat, *goes_after));
            assert forall|x: P| #[trigger] subtree_items(left).contains(x) implies !answers_after(
                *goes_after,
                x,
                item,
                axis,
            ) by {
                assert(subtree_items(left).to_multiset().count(x) > 0);
                assert(low@.contains(x));
                let k = choose|k: int| 0 <= k < low@.len() && low@[k] == x;
                assert(sorted@[k] == x);
            }
            assert forall|y: P| #[trigger] subtree_items(right).contains(y) implies !answers_after(
                *goes_after,
                item,
                y,
                axis,
            ) by {
                assert(subtree_items(right).to_multiset().count(y) > 0);
                assert(high@.contains(y));
                let k = choose|k: int| 0 <= k < high@.len() && high@[k] == y;
                assert(sorted@[median + 1 + k] == y);
            }
        }
    }
    Some(Box::new(node))
}

/// Appends the items of an optional subtree to `out`, in order.
fn append_subtree_items<P: Copy>(tree: &Option<Box<KdNode<P>>>, out: &mut Vec<P>)
    ensures
        final(out)@ == old(out)@ + subtree_items(*tree),
    decreases *tree,
{
    match tree {
        None => {
            assert(old(out)@ + subtree_items(*tree) =~= old(out)@);
        },
        Some(node) => {
            append_subtree_items(&node.left, out);
            out.push(node.item);
            append_subtree_items(&node.right, out);
            assert(final(out)@ =~= old(out)@ + subtree_items(*tree));
        },
    }
}

/// A KD-tree over items of type `P`, built by median splitting along the
/// axes x, y, z in turn.
///
/// Items are added first and the tree is built from them in one go; queries
/// then walk the built tree from `root`.
pub struct KdTree<P> {
    root: Option<Box<KdNode<P>>>,
    nodes: Vec<P>,
    node_count: usize,
}

impl<P> KdTree<P> {
    /// The built tree counts its items and has the shape of median
    /// splitting from level zero.
    pub closed spec fn well_formed(&self) -> bool {
        &&& self.node_count == subtree_items(self.root).len()
        &&& median_shaped(self.root, 0)
    }

    /// The items added since the tree was last built.
    pub closed spec fn pending(&self) -> Seq<P> {
        self.nodes@
    }

    /// The root of the built tree.
    pub closed spec fn tree(&self) -> Option<Box<KdNode<P>>> {
        self.root
    }

    /// The items of the built tree, in order.
    pub open spec fn items(&self) -> Seq<P> {
        subtree_items(self.tree())
    }

    /// Creates an empty tree.
    pub fn new() -> (t: Self)
        ensures
            t.well_formed(),
            t.pending() == Seq::<P>::empty(),
            t.tree() == None::<Box<KdNode<P>>>,
    {
        KdTree { root: None, nodes: Vec::new(), node_count: 0 }
    }

    /// Creates an empty tree with room reserved for `capacity` items.
    pub fn with_capacity(capacity: usize) -> (t: Self)
        ensures
            t.well_formed(),
            t.pending() == Seq::<P>::empty(),
            t.tree() == None::<Box<KdNode<P>>>,
    {
        KdTree { root: None, nodes: Vec::with_capacity(capacity), node_count: 0 }
    }

    /// Adds an item; it enters the tree at the next `build`.
    pub fn add(&mut self, item: P)
        requires
            old(self).well_formed(),
        ensures
            final(self).well_formed(),
            final(self).pending() == old(self).pending().push(item),
            final(self).tree() == old(self).tree(),
    {
        self.nodes.push(item);
    }

    /// Builds the tree from all added items, ordering items along an axis
    /// with `goes_after(a, b, axis)` (whether `a` goes after `b` on that
    /// axis).
    ///
    /// When items are pending, the tree is rebuilt from the items it already
    /// held (in order) followed by the pending ones, with the shape of median
    /// splitting; the pending items are cleared. When the comparison orders
    /// weakly, each node is the median of its items sorted stably along its
    /// axis: items that do not go after each other keep their order (see
    /// `median_built`), which fixes the whole tree
    /// (`lemma_median_built_unique`). When none is pending, nothing changes.
    pub fn build<F: Fn(&P, &P, usize) -> bool>(&mut self, goes_after: F)
        where P: Copy
        requires
            old(self).well_formed(),
            comparison_callable(goes_after),
        ensures
            final(self).well_formed(),
            old(self).pending().len() == 0 ==> final(self).pending() == old(self).pending()
                && final(self).tree() == old(self).tree(),
            old(self).pending().len() > 0 ==> {
                &&& final(self).pending() == Seq::<P>::empty()
                &&& final(self).items().to_multiset() == old(self).items().to_multiset().add(
                    old(self).pending().to_multiset(),
                )
                &&& final(self).items().len() == old(self).items().len() + old(self).pending().len()
                &&& orders_weakly(goes_after) ==> split_ordered(final(self).tree(), goes_after)
                &&& orders_weakly(goes_after) ==> median_built(
                    final(self).tree(),
                    old(self).items() + old(self).pending(),
                    0,
                    goes_after,
                )
            },
    {
        if self.nodes.len() > 0 {
            let mut items: Vec<P> = Vec::new();
            append_subtree_items(&self.root, &mut items);
            items.append(&mut self.nodes);
            proof {
                lemma_multiset_commutative(subtree_items(old(self).root), old(self).nodes@);
            }
            self.node_count = items.len();
            self.root = build_subtree(items.as_slice(), 0, &goes_after);
        }
    }

    /// The root of the built tree, if it has any item.
    pub fn root(&self) -> (r: &Option<Box<KdNode<P>>>)
        ensures
            *r == self.tree(),
    {
        &self.root
    }

    /// Whether the built tree holds no item.
    pub fn is_empty(&self) -> (b: bool)
        ensures
            b == (self.items().len() == 0),
    {
        self.root.is_none()
    }

    /// The number of items in the built tree.
    pub fn len(&self) -> (n: usize)
        requires
            self.well_formed(),
        ensures
            n == self.items().len(),
    {
        self.node_count
    }

    /// The depth of the built tree: the number of nodes on its longest path
    /// from the root to a leaf, which for a median-split tree of `n` items is
    /// `median_split_depth(n)`.
    pub fn depth(&self) -> (d: usize)
        requires
            self.well_formed(),
        ensures
            d == subtree_depth(self.tree()),
            d == median_split_depth(self.items().len()),
    {
        proof {
            lemma_median_shaped_depth(self.root, 0);
            lemma_median_split_depth_bounded(subtree_items(self.root).len());
        }
        depth_of(&self.root)
    }

    /// Removes every item, built or pending.
    pub fn clear(&mut self)
        ensures
            final(self).well_formed(),
            final(self).pending() == Seq::<P>::empty(),
            final(self).tree() == None::<Box<KdNode<P>>>,
    {
        self.root = None;
        self.nodes.clear();
        self.node_count = 0;
    }

    /// Statistics about the built tree. A tree built by median splitting is
    /// always reported balanced.
    pub fn stats(&self) -> (s: TreeStats)
        requires
            self.well_formed(),
        ensures
            s.node_count == self.items().len(),
            s.depth == subtree_depth(self.tree()),
            s.is_balanced,
    {
        let depth = self.depth();
        proof {
            lemma_median_split_is_balanced(self.node_count as nat);
        }
        tree_stats(self.node_count, depth)
    }
}

} // verus!
