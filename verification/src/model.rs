//! The mathematical model of a built tree.
//!
//! A tree's shape is a [`SpecTree`]: a ghost value carrying the bounds and
//! density of every node. [`matches_at`] says that an arena window holds
//! exactly a shape's nodes, laid out in depth-first preorder with the
//! children in octant order, so a built arena is pinned completely by its
//! shape, and laws about built trees are proved by induction over shapes.

use vstd::prelude::*;

use crate::math::{Vec3I, iabs, spec_child_center_vec, HALF_SIZE_MAX};
use crate::tree::{ChildBlock, Node, block_child, wf_node};

verus! {

/// The shape of a subtree: a leaf, or an internal node with its eight
/// children in octant order.
pub enum SpecTree {
    /// A node without children.
    Leaf { center: Vec3I, half_size: i64, density: u32 },
    /// A node with exactly eight children.
    Split { center: Vec3I, half_size: i64, density: u32, kids: Seq<SpecTree> },
}

/// Centre of a shape's root node.
pub open spec fn t_center(t: SpecTree) -> Vec3I {
    match t {
        SpecTree::Leaf { center, .. } => center,
        SpecTree::Split { center, .. } => center,
    }
}

/// Half-extent of a shape's root node.
pub open spec fn t_half(t: SpecTree) -> i64 {
    match t {
        SpecTree::Leaf { half_size, .. } => half_size,
        SpecTree::Split { half_size, .. } => half_size,
    }
}

/// Density of a shape's root node.
pub open spec fn t_density(t: SpecTree) -> u32 {
    match t {
        SpecTree::Leaf { density, .. } => density,
        SpecTree::Split { density, .. } => density,
    }
}

/// Children of a shape's root node.
pub open spec fn t_kids(t: SpecTree) -> Seq<SpecTree> {
    match t {
        SpecTree::Leaf { .. } => Seq::empty(),
        SpecTree::Split { kids, .. } => kids,
    }
}

/// Number of nodes in a shape.
pub open spec fn size(t: SpecTree) -> nat
    decreases t, 9int,
{
    match t {
        SpecTree::Leaf { .. } => 1,
        SpecTree::Split { kids, .. } => {
            if kids.len() == 8 {
                1 + kids_size_from(kids, 0)
            } else {
                1
            }
        },
    }
}

/// Combined node count of the children from octant `k` on.
pub open spec fn kids_size_from(kids: Seq<SpecTree>, k: int) -> nat
    decreases kids, 8 - k,
{
    if 0 <= k < 8 && kids.len() == 8 {
        size(kids[k]) + kids_size_from(kids, k + 1)
    } else {
        0
    }
}

/// Number of leaves in a shape.
pub open spec fn leaf_count(t: SpecTree) -> nat
    decreases t,
{
    match t {
        SpecTree::Leaf { .. } => 1,
        SpecTree::Split { kids, .. } => {
            if kids.len() == 8 {
                leaf_count(kids[0]) + leaf_count(kids[1]) + leaf_count(kids[2]) + leaf_count(
                    kids[3],
                ) + leaf_count(kids[4]) + leaf_count(kids[5]) + leaf_count(kids[6]) + leaf_count(
                    kids[7],
                )
            } else {
                1
            }
        },
    }
}

/// Sum of the bounding volumes of a shape's leaves, where a cube of
/// half-extent `h` has volume `(2h)^3 = 8 h^3`.
pub open spec fn leaf_volume_sum(t: SpecTree) -> int
    decreases t,
{
    match t {
        SpecTree::Leaf { half_size, .. } => 8 * (half_size as int) * (half_size as int) * (
        half_size as int),
        SpecTree::Split { kids, .. } => {
            if kids.len() == 8 {
                leaf_volume_sum(kids[0]) + leaf_volume_sum(kids[1]) + leaf_volume_sum(kids[2])
                    + leaf_volume_sum(kids[3]) + leaf_volume_sum(kids[4]) + leaf_volume_sum(kids[5])
                    + leaf_volume_sum(kids[6]) + leaf_volume_sum(kids[7])
            } else {
                8 * (t_half(t) as int) * (t_half(t) as int) * (t_half(t) as int)
            }
        },
    }
}

/// Geometric well-formedness of a shape at `depth`: bounds in range, and
/// each child exactly one octant of its parent, one level deeper, never
/// past `max_depth`.
pub open spec fn tree_geom(t: SpecTree, max_depth: u32, depth: int) -> bool
    decreases t,
{
    &&& 1 <= t_half(t) <= HALF_SIZE_MAX
    &&& iabs(t_center(t).x as int) + t_half(t) <= HALF_SIZE_MAX
    &&& iabs(t_center(t).y as int) + t_half(t) <= HALF_SIZE_MAX
    &&& iabs(t_center(t).z as int) + t_half(t) <= HALF_SIZE_MAX
    &&& 0 <= depth <= max_depth
    &&& match t {
        SpecTree::Leaf { .. } => true,
        SpecTree::Split { kids, .. } => {
            &&& kids.len() == 8
            &&& depth < max_depth
            &&& t_half(t) % 2 == 0
            &&& t_half(kids[0]) == t_half(t) / 2
            &&& t_center(kids[0]) == spec_child_center_vec(t_center(t), t_half(t) as int / 2, 0)
            &&& tree_geom(kids[0], max_depth, depth + 1)
            &&& t_half(kids[1]) == t_half(t) / 2
            &&& t_center(kids[1]) == spec_child_center_vec(t_center(t), t_half(t) as int / 2, 1)
            &&& tree_geom(kids[1], max_depth, depth + 1)
            &&& t_half(kids[2]) == t_half(t) / 2
            &&& t_center(kids[2]) == spec_child_center_vec(t_center(t), t_half(t) as int / 2, 2)
            &&& tree_geom(kids[2], max_depth, depth + 1)
            &&& t_half(kids[3]) == t_half(t) / 2
            &&& t_center(kids[3]) == spec_child_center_vec(t_center(t), t_half(t) as int / 2, 3)
            &&& tree_geom(kids[3], max_depth, depth + 1)
            &&& t_half(kids[4]) == t_half(t) / 2
            &&& t_center(kids[4]) == spec_child_center_vec(t_center(t), t_half(t) as int / 2, 4)
            &&& tree_geom(kids[4], max_depth, depth + 1)
            &&& t_half(kids[5]) == t_half(t) / 2
            &&& t_center(kids[5]) == spec_child_center_vec(t_center(t), t_half(t) as int / 2, 5)
            &&& tree_geom(kids[5], max_depth, depth + 1)
            &&& t_half(kids[6]) == t_half(t) / 2
            &&& t_center(kids[6]) == spec_child_center_vec(t_center(t), t_half(t) as int / 2, 6)
            &&& tree_geom(kids[6], max_depth, depth + 1)
            &&& t_half(kids[7]) == t_half(t) / 2
            &&& t_center(kids[7]) == spec_child_center_vec(t_center(t), t_half(t) as int / 2, 7)
            &&& tree_geom(kids[7], max_depth, depth + 1)
        },
    }
}

/// The arena pinned down by a shape, rooted at slot `base`: the node there
/// carries exactly the shape's bounds and density, a cleared `active` flag,
/// its own index and the given parent and depth; its children (if any) start
/// at `base + 1` and follow each other in octant order, pinned in turn.
pub open spec fn matches_at(
    nodes: Seq<Node>,
    base: int,
    parent: Option<usize>,
    depth: int,
    t: SpecTree,
) -> bool
    decreases t, 9int,
{
    &&& 0 <= base < nodes.len()
    &&& nodes[base].index == base
    &&& nodes[base].parent == parent
    &&& nodes[base].depth as int == depth
    &&& nodes[base].center == t_center(t)
    &&& nodes[base].half_size == t_half(t)
    &&& nodes[base].density == t_density(t)
    &&& nodes[base].active == false
    &&& match t {
        SpecTree::Leaf { .. } => nodes[base].children is None,
        SpecTree::Split { kids, .. } => {
            &&& kids.len() == 8
            &&& match nodes[base].children {
                Option::Some(b) => matches_kids(nodes, kids, 0, base + 1, base, depth + 1, b),
                Option::None => false,
            }
        },
    }
}

/// The children from octant `k` on, laid out from arena slot `cursor`, each
/// matching its shape and registered in the parent's child block.
pub open spec fn matches_kids(
    nodes: Seq<Node>,
    kids: Seq<SpecTree>,
    k: int,
    cursor: int,
    parent: int,
    depth: int,
    b: ChildBlock,
) -> bool
    decreases kids, 8 - k,
{
    if 0 <= k < 8 && kids.len() == 8 {
        &&& block_child(b, k) == cursor
        &&& matches_at(nodes, cursor, Option::Some(parent as usize), depth, kids[k])
        &&& matches_kids(nodes, kids, k + 1, cursor + size(kids[k]), parent, depth, b)
    } else {
        true
    }
}

/// A match only reads the arena from its base on, so any rewrite that keeps
/// that region (appending, or touching slots below the base) preserves it.
pub proof fn lemma_matches_frame(
    n1: Seq<Node>,
    n2: Seq<Node>,
    base: int,
    parent: Option<usize>,
    depth: int,
    t: SpecTree,
)
    requires
        matches_at(n1, base, parent, depth, t),
        n1.len() <= n2.len(),
        forall|i: int| base <= i < n1.len() ==> n2[i] == n1[i],
    ensures
        matches_at(n2, base, parent, depth, t),
    decreases t, 9int,
{
    match t {
        SpecTree::Leaf { .. } => {},
        SpecTree::Split { kids, .. } => {
            let b = n1[base].children->Some_0;
            lemma_matches_kids_frame(n1, n2, kids, 0, base + 1, base, depth + 1, b);
        },
    }
}

/// Frame rule for a run of children.
pub proof fn lemma_matches_kids_frame(
    n1: Seq<Node>,
    n2: Seq<Node>,
    kids: Seq<SpecTree>,
    k: int,
    cursor: int,
    parent: int,
    depth: int,
    b: ChildBlock,
)
    requires
        kids.len() == 8,
        matches_kids(n1, kids, k, cursor, parent, depth, b),
        n1.len() <= n2.len(),
        forall|i: int| cursor <= i < n1.len() ==> n2[i] == n1[i],
        parent < cursor,
    ensures
        matches_kids(n2, kids, k, cursor, parent, depth, b),
    decreases kids, 8 - k,
{
    if 0 <= k < 8 {
        lemma_matches_frame(n1, n2, cursor, Option::Some(parent as usize), depth, kids[k]);
        lemma_matches_kids_frame(n1, n2, kids, k + 1, cursor + size(kids[k]), parent, depth, b);
    }
}

/// A matched window lies inside the arena and is well formed throughout,
/// provided the shape is geometrically well formed.
pub proof fn lemma_matches_wf(
    nodes: Seq<Node>,
    base: int,
    parent: Option<usize>,
    depth: int,
    t: SpecTree,
    max_depth: u32,
)
    requires
        matches_at(nodes, base, parent, depth, t),
        tree_geom(t, max_depth, depth),
        nodes.len() <= usize::MAX,
    ensures
        base + size(t) <= nodes.len(),
        forall|i: int| base <= i < base + size(t) ==> wf_node(nodes, max_depth, i),
    decreases t, 9int,
{
    match t {
        SpecTree::Leaf { .. } => {
            assert(wf_node(nodes, max_depth, base));
        },
        SpecTree::Split { kids, .. } => {
            let b = nodes[base].children->Some_0;
            lemma_matches_kids_wf(nodes, kids, 0, base + 1, base, depth + 1, t, max_depth);
            assert forall|k: int| #![trigger block_child(b, k)] 0 <= k < 8 implies {
                let c = block_child(b, k);
                &&& 0 <= c < nodes.len()
                &&& nodes[c].parent == Option::Some(base as usize)
                &&& nodes[c].depth == nodes[base].depth + 1
                &&& nodes[c].half_size == nodes[base].half_size / 2
                &&& nodes[c].center == spec_child_center_vec(
                    nodes[base].center,
                    nodes[base].half_size / 2,
                    k,
                )
            } by {
                lemma_matches_kids_child(nodes, kids, 0, base + 1, base, depth + 1, b, k);
            }
            assert(wf_node(nodes, max_depth, base));
            assert forall|i: int| base <= i < base + size(t) implies wf_node(
                nodes,
                max_depth,
                i,
            ) by {
                if i != base {
                    assert(base + 1 <= i < base + 1 + kids_size_from(kids, 0));
                }
            }
        },
    }
}

/// Well-formedness of a matched run of children: the run fills the window
/// from its cursor to the end of the remaining child subtrees.
pub proof fn lemma_matches_kids_wf(
    nodes: Seq<Node>,
    kids: Seq<SpecTree>,
    k: int,
    cursor: int,
    parent: int,
    depth: int,
    t: SpecTree,
    max_depth: u32,
)
    requires
        t is Split,
        t_kids(t) == kids,
        kids.len() == 8,
        0 <= k <= 8,
        tree_geom(t, max_depth, depth - 1),
        nodes[parent].children is Some,
        matches_kids(nodes, kids, k, cursor, parent, depth, nodes[parent].children->Some_0),
        0 <= parent < nodes.len(),
        nodes.len() <= usize::MAX,
    ensures
        k < 8 ==> cursor + kids_size_from(kids, k) <= nodes.len(),
        forall|i: int|
            cursor <= i < cursor + kids_size_from(kids, k) ==> wf_node(nodes, max_depth, i),
    decreases kids, 8 - k,
{
    if k < 8 {
        lemma_matches_wf(nodes, cursor, Option::Some(parent as usize), depth, kids[k], max_depth);
        assert(kids_size_from(kids, k) == size(kids[k]) + kids_size_from(kids, k + 1));
        lemma_matches_kids_wf(
            nodes,
            kids,
            k + 1,
            cursor + size(kids[k]),
            parent,
            depth,
            t,
            max_depth,
        );
        if k + 1 < 8 {
        } else {
            assert(kids_size_from(kids, k + 1) == 0);
        }
        assert forall|i: int|
            cursor <= i < cursor + kids_size_from(kids, k) implies wf_node(
            nodes,
            max_depth,
            i,
        ) by {
            if i < cursor + size(kids[k]) {
            } else {
                assert(cursor + size(kids[k]) <= i < cursor + size(kids[k]) + kids_size_from(
                    kids,
                    k + 1,
                ));
            }
        }
    }
}

/// Inside a matched run, the parent's child block points at the head of each
/// child window, whose node carries the child's bounds one level deeper.
pub proof fn lemma_matches_kids_child(
    nodes: Seq<Node>,
    kids: Seq<SpecTree>,
    k: int,
    cursor: int,
    parent: int,
    depth: int,
    b: ChildBlock,
    j: int,
)
    requires
        kids.len() == 8,
        matches_kids(nodes, kids, k, cursor, parent, depth, b),
        0 <= k <= j < 8,
    ensures
        ({
            let c = block_child(b, j);
            &&& cursor <= c < nodes.len()
            &&& nodes[c].index == c
            &&& nodes[c].parent == Option::Some(parent as usize)
            &&& nodes[c].depth as int == depth
            &&& nodes[c].center == t_center(kids[j])
            &&& nodes[c].half_size == t_half(kids[j])
        }),
    decreases kids, 8 - k,
{
    if k < j {
        lemma_matches_kids_child(nodes, kids, k + 1, cursor + size(kids[k]), parent, depth, b, j);
    } else {
        assert(block_child(b, j) == cursor);
        assert(matches_at(nodes, cursor, Option::Some(parent as usize), depth, kids[j]));
    }
}

/// Two arenas matched by the same shape at the same slot agree on the whole
/// window: a shape pins the arena completely.
pub proof fn lemma_matches_unique(
    n1: Seq<Node>,
    n2: Seq<Node>,
    base: int,
    parent: Option<usize>,
    depth: int,
    t: SpecTree,
)
    requires
        matches_at(n1, base, parent, depth, t),
        matches_at(n2, base, parent, depth, t),
    ensures
        forall|i: int| base <= i < base + size(t) ==> n1[i] == n2[i],
    decreases t, 9int,
{
    match t {
        SpecTree::Leaf { .. } => {
            assert(n1[base] == n2[base]);
        },
        SpecTree::Split { kids, .. } => {
            let b1 = n1[base].children->Some_0;
            let b2 = n2[base].children->Some_0;
            lemma_matches_kids_block(n1, n2, kids, 0, base + 1, base, depth + 1, b1, b2);
            assert(block_child(b1, 0) == block_child(b2, 0));
            assert(block_child(b1, 1) == block_child(b2, 1));
            assert(block_child(b1, 2) == block_child(b2, 2));
            assert(block_child(b1, 3) == block_child(b2, 3));
            assert(block_child(b1, 4) == block_child(b2, 4));
            assert(block_child(b1, 5) == block_child(b2, 5));
            assert(block_child(b1, 6) == block_child(b2, 6));
            assert(block_child(b1, 7) == block_child(b2, 7));
            assert(b1 == b2);
            assert(n1[base] == n2[base]);
            lemma_matches_kids_unique(n1, n2, kids, 0, base + 1, base, depth + 1, b1, b2);
            assert forall|i: int| base <= i < base + size(t) implies n1[i] == n2[i] by {
                if i != base {
                    assert(base + 1 <= i < base + 1 + kids_size_from(kids, 0));
                }
            }
        },
    }
}

/// Matched child blocks agree entry by entry.
proof fn lemma_matches_kids_block(
    n1: Seq<Node>,
    n2: Seq<Node>,
    kids: Seq<SpecTree>,
    k: int,
    cursor: int,
    parent: int,
    depth: int,
    b1: ChildBlock,
    b2: ChildBlock,
)
    requires
        kids.len() == 8,
        matches_kids(n1, kids, k, cursor, parent, depth, b1),
        matches_kids(n2, kids, k, cursor, parent, depth, b2),
        0 <= k <= 8,
    ensures
        forall|j: int| k <= j < 8 ==> block_child(b1, j) == block_child(b2, j),
    decreases kids, 8 - k,
{
    if k < 8 {
        lemma_matches_kids_block(n1, n2, kids, k + 1, cursor + size(kids[k]), parent, depth, b1, b2);
    }
}

/// Matched runs of children agree throughout their windows.
proof fn lemma_matches_kids_unique(
    n1: Seq<Node>,
    n2: Seq<Node>,
    kids: Seq<SpecTree>,
    k: int,
    cursor: int,
    parent: int,
    depth: int,
    b1: ChildBlock,
    b2: ChildBlock,
)
    requires
        kids.len() == 8,
        matches_kids(n1, kids, k, cursor, parent, depth, b1),
        matches_kids(n2, kids, k, cursor, parent, depth, b2),
        0 <= k <= 8,
    ensures
        forall|i: int| cursor <= i < cursor + kids_size_from(kids, k) ==> n1[i] == n2[i],
    decreases kids, 8 - k,
{
    if k < 8 {
        lemma_matches_unique(n1, n2, cursor, Option::Some(parent as usize), depth, kids[k]);
        lemma_matches_kids_unique(
            n1,
            n2,
            kids,
            k + 1,
            cursor + size(kids[k]),
            parent,
            depth,
            b1,
            b2,
        );
        assert forall|i: int|
            cursor <= i < cursor + kids_size_from(kids, k) implies n1[i] == n2[i] by {
            if i < cursor + size(kids[k]) {
            } else {
                assert(cursor + size(kids[k]) <= i < cursor + size(kids[k]) + kids_size_from(
                    kids,
                    k + 1,
                ));
            }
        }
    }
}

/// Eight raised to a power is positive.
pub proof fn lemma_pow8_pos(n: nat)
    ensures
        crate::math::pow8(n) >= 1,
    decreases n,
{
    if n > 0 {
        lemma_pow8_pos((n - 1) as nat);
    }
}

/// The leaves of a geometrically well-formed shape tile its root exactly:
/// their bounding volumes sum to the root's bounding volume, with no
/// rounding error. (That every non-leaf node has exactly eight children is
/// part of [`tree_geom`] and of [`wf_node`] themselves.)
pub proof fn lemma_leaf_volume_sum(t: SpecTree, max_depth: u32, depth: int)
    requires
        tree_geom(t, max_depth, depth),
    ensures
        leaf_volume_sum(t) == 8 * (t_half(t) as int) * (t_half(t) as int) * (t_half(t) as int),
    decreases t,
{
    match t {
        SpecTree::Leaf { .. } => {},
        SpecTree::Split { kids, .. } => {
            lemma_leaf_volume_sum(kids[0], max_depth, depth + 1);
            lemma_leaf_volume_sum(kids[1], max_depth, depth + 1);
            lemma_leaf_volume_sum(kids[2], max_depth, depth + 1);
            lemma_leaf_volume_sum(kids[3], max_depth, depth + 1);
            lemma_leaf_volume_sum(kids[4], max_depth, depth + 1);
            lemma_leaf_volume_sum(kids[5], max_depth, depth + 1);
            lemma_leaf_volume_sum(kids[6], max_depth, depth + 1);
            lemma_leaf_volume_sum(kids[7], max_depth, depth + 1);
            let h = t_half(t) as int;
            let q = h / 2;
            assert(h == 2 * q);
            assert(8 * (8 * q * q * q) == 8 * h * h * h) by (nonlinear_arith)
                requires
                    h == 2 * q,
            ;
        },
    }
}

/// A shape never has more leaves than full subdivision down to `max_depth`
/// would give: at most eight to the power of the remaining depth.
pub proof fn lemma_leaf_count_bound(t: SpecTree, max_depth: u32, depth: int)
    requires
        tree_geom(t, max_depth, depth),
    ensures
        leaf_count(t) <= crate::math::pow8((max_depth - depth) as nat),
    decreases t,
{
    lemma_pow8_pos((max_depth - depth) as nat);
    reveal_with_fuel(kids_size_from, 10);
    match t {
        SpecTree::Leaf { .. } => {},
        SpecTree::Split { kids, .. } => {
            lemma_leaf_count_bound(kids[0], max_depth, depth + 1);
            lemma_leaf_count_bound(kids[1], max_depth, depth + 1);
            lemma_leaf_count_bound(kids[2], max_depth, depth + 1);
            lemma_leaf_count_bound(kids[3], max_depth, depth + 1);
            lemma_leaf_count_bound(kids[4], max_depth, depth + 1);
            lemma_leaf_count_bound(kids[5], max_depth, depth + 1);
            lemma_leaf_count_bound(kids[6], max_depth, depth + 1);
            lemma_leaf_count_bound(kids[7], max_depth, depth + 1);
            assert(crate::math::pow8((max_depth - depth) as nat) == 8 * crate::math::pow8(
                (max_depth - depth - 1) as nat,
            ));
        },
    }
}

/// A shape's node count is bounded by the geometric series over the
/// remaining depth: seven times the count stays below eight to the power of
/// one more than the remaining depth.
pub proof fn lemma_size_bound(t: SpecTree, max_depth: u32, depth: int)
    requires
        tree_geom(t, max_depth, depth),
    ensures
        7 * size(t) <= 8 * crate::math::pow8((max_depth - depth) as nat) - 1,
    decreases t,
{
    lemma_pow8_pos((max_depth - depth) as nat);
    match t {
        SpecTree::Leaf { .. } => {},
        SpecTree::Split { kids, .. } => {
            lemma_size_bound(kids[0], max_depth, depth + 1);
            lemma_size_bound(kids[1], max_depth, depth + 1);
            lemma_size_bound(kids[2], max_depth, depth + 1);
            lemma_size_bound(kids[3], max_depth, depth + 1);
            lemma_size_bound(kids[4], max_depth, depth + 1);
            lemma_size_bound(kids[5], max_depth, depth + 1);
            lemma_size_bound(kids[6], max_depth, depth + 1);
            assert(kids_size_from(kids, 8) == 0);
            assert(kids_size_from(kids, 7) == size(kids[7]) + kids_size_from(kids, 8));
            assert(kids_size_from(kids, 6) == size(kids[6]) + kids_size_from(kids, 7));
            assert(kids_size_from(kids, 5) == size(kids[5]) + kids_size_from(kids, 6));
            assert(kids_size_from(kids, 4) == size(kids[4]) + kids_size_from(kids, 5));
            assert(kids_size_from(kids, 3) == size(kids[3]) + kids_size_from(kids, 4));
            assert(kids_size_from(kids, 2) == size(kids[2]) + kids_size_from(kids, 3));
            assert(kids_size_from(kids, 1) == size(kids[1]) + kids_size_from(kids, 2));
            assert(kids_size_from(kids, 0) == size(kids[0]) + kids_size_from(kids, 1));
            lemma_size_bound(kids[7], max_depth, depth + 1);
            assert(size(t) == 1 + size(kids[0]) + size(kids[1]) + size(kids[2]) + size(kids[3])
                + size(kids[4]) + size(kids[5]) + size(kids[6]) + size(kids[7]));
            assert(crate::math::pow8((max_depth - depth) as nat) == 8 * crate::math::pow8(
                (max_depth - depth - 1) as nat,
            ));
            assert((max_depth - depth - 1) as nat == (max_depth - (depth + 1)) as nat);
        },
    }
}


/// Sum of the bounding volumes of the leaf nodes in the arena window
/// `[lo, hi)`.
pub open spec fn arena_leaf_volume(nodes: Seq<Node>, lo: int, hi: int) -> int
    decreases hi - lo,
{
    if lo >= hi {
        0
    } else {
        (if nodes[lo].children is None {
            8 * (nodes[lo].half_size as int) * (nodes[lo].half_size as int) * (
            nodes[lo].half_size as int)
        } else {
            0
        }) + arena_leaf_volume(nodes, lo + 1, hi)
    }
}

/// Splitting a window splits its leaf-volume sum.
pub proof fn lemma_arena_leaf_volume_split(nodes: Seq<Node>, lo: int, m: int, hi: int)
    requires
        lo <= m <= hi,
    ensures
        arena_leaf_volume(nodes, lo, hi) == arena_leaf_volume(nodes, lo, m) + arena_leaf_volume(
            nodes,
            m,
            hi,
        ),
    decreases m - lo,
{
    if lo < m {
        lemma_arena_leaf_volume_split(nodes, lo + 1, m, hi);
    }
}

/// Combined leaf volume of the children from octant `k` on.
pub open spec fn kids_volume_from(kids: Seq<SpecTree>, k: int) -> int
    decreases kids, 8 - k,
{
    if 0 <= k < 8 && kids.len() == 8 {
        leaf_volume_sum(kids[k]) + kids_volume_from(kids, k + 1)
    } else {
        0
    }
}

/// The leaf volumes of a matched arena window sum to the shape's.
pub proof fn lemma_matches_volume(
    nodes: Seq<Node>,
    base: int,
    parent: Option<usize>,
    depth: int,
    t: SpecTree,
)
    requires
        matches_at(nodes, base, parent, depth, t),
    ensures
        arena_leaf_volume(nodes, base, base + size(t)) == leaf_volume_sum(t),
    decreases t, 9int,
{
    match t {
        SpecTree::Leaf { .. } => {
            assert(arena_leaf_volume(nodes, base + 1, base + 1) == 0);
        },
        SpecTree::Split { kids, .. } => {
            let b = nodes[base].children->Some_0;
            lemma_matches_kids_volume(nodes, kids, 0, base + 1, base, depth + 1, b);
            lemma_arena_leaf_volume_split(nodes, base, base + 1, base + size(t));
            assert(kids_size_from(kids, 8) == 0);
            assert(kids_size_from(kids, 7) == size(kids[7]) + kids_size_from(kids, 8));
            assert(kids_size_from(kids, 6) == size(kids[6]) + kids_size_from(kids, 7));
            assert(kids_size_from(kids, 5) == size(kids[5]) + kids_size_from(kids, 6));
            assert(kids_size_from(kids, 4) == size(kids[4]) + kids_size_from(kids, 5));
            assert(kids_size_from(kids, 3) == size(kids[3]) + kids_size_from(kids, 4));
            assert(kids_size_from(kids, 2) == size(kids[2]) + kids_size_from(kids, 3));
            assert(kids_size_from(kids, 1) == size(kids[1]) + kids_size_from(kids, 2));
            assert(kids_size_from(kids, 0) == size(kids[0]) + kids_size_from(kids, 1));
            assert(kids_volume_from(kids, 8) == 0);
            assert(kids_volume_from(kids, 7) == leaf_volume_sum(kids[7]) + kids_volume_from(kids, 8));
            assert(kids_volume_from(kids, 6) == leaf_volume_sum(kids[6]) + kids_volume_from(kids, 7));
            assert(kids_volume_from(kids, 5) == leaf_volume_sum(kids[5]) + kids_volume_from(kids, 6));
            assert(kids_volume_from(kids, 4) == leaf_volume_sum(kids[4]) + kids_volume_from(kids, 5));
            assert(kids_volume_from(kids, 3) == leaf_volume_sum(kids[3]) + kids_volume_from(kids, 4));
            assert(kids_volume_from(kids, 2) == leaf_volume_sum(kids[2]) + kids_volume_from(kids, 3));
            assert(kids_volume_from(kids, 1) == leaf_volume_sum(kids[1]) + kids_volume_from(kids, 2));
            assert(kids_volume_from(kids, 0) == leaf_volume_sum(kids[0]) + kids_volume_from(kids, 1));
        },
    }
}

/// The leaf volumes of a matched run of child windows sum to the shapes'.
proof fn lemma_matches_kids_volume(
    nodes: Seq<Node>,
    kids: Seq<SpecTree>,
    k: int,
    cursor: int,
    parent: int,
    depth: int,
    b: ChildBlock,
)
    requires
        kids.len() == 8,
        0 <= k <= 8,
        matches_kids(nodes, kids, k, cursor, parent, depth, b),
    ensures
        arena_leaf_volume(nodes, cursor, cursor + kids_size_from(kids, k)) == kids_volume_from(
            kids,
            k,
        ),
    decreases kids, 8 - k,
{
    if k < 8 {
        lemma_matches_volume(nodes, cursor, Option::Some(parent as usize), depth, kids[k]);
        lemma_matches_kids_volume(nodes, kids, k + 1, cursor + size(kids[k]), parent, depth, b);
        lemma_arena_leaf_volume_split(
            nodes,
            cursor,
            cursor + size(kids[k]),
            cursor + kids_size_from(kids, k),
        );
        assert(kids_size_from(kids, k) == size(kids[k]) + kids_size_from(kids, k + 1));
    }
}


/// Number of leaf nodes in the arena window `[lo, hi)`.
pub open spec fn arena_leaf_count(nodes: Seq<Node>, lo: int, hi: int) -> nat
    decreases hi - lo,
{
    if lo >= hi {
        0
    } else {
        (if nodes[lo].children is None {
            1nat
        } else {
            0nat
        }) + arena_leaf_count(nodes, lo + 1, hi)
    }
}

/// Splitting a window splits its leaf count.
pub proof fn lemma_arena_leaf_count_split(nodes: Seq<Node>, lo: int, m: int, hi: int)
    requires
        lo <= m <= hi,
    ensures
        arena_leaf_count(nodes, lo, hi) == arena_leaf_count(nodes, lo, m) + arena_leaf_count(
            nodes,
            m,
            hi,
        ),
    decreases m - lo,
{
    if lo < m {
        lemma_arena_leaf_count_split(nodes, lo + 1, m, hi);
    }
}

/// Combined leaf count of the children from octant `k` on.
pub open spec fn kids_leaves_from(kids: Seq<SpecTree>, k: int) -> nat
    decreases kids, 8 - k,
{
    if 0 <= k < 8 && kids.len() == 8 {
        leaf_count(kids[k]) + kids_leaves_from(kids, k + 1)
    } else {
        0
    }
}

/// The leaf count of a matched arena window equals the shape's.
pub proof fn lemma_matches_leaf_count(
    nodes: Seq<Node>,
    base: int,
    parent: Option<usize>,
    depth: int,
    t: SpecTree,
)
    requires
        matches_at(nodes, base, parent, depth, t),
    ensures
        arena_leaf_count(nodes, base, base + size(t)) == leaf_count(t),
    decreases t, 9int,
{
    match t {
        SpecTree::Leaf { .. } => {
            assert(arena_leaf_count(nodes, base + 1, base + 1) == 0);
        },
        SpecTree::Split { kids, .. } => {
            let b = nodes[base].children->Some_0;
            lemma_matches_kids_leaf_count(nodes, kids, 0, base + 1, base, depth + 1, b);
            lemma_arena_leaf_count_split(nodes, base, base + 1, base + size(t));
            assert(kids_size_from(kids, 8) == 0);
            assert(kids_size_from(kids, 7) == size(kids[7]) + kids_size_from(kids, 8));
            assert(kids_size_from(kids, 6) == size(kids[6]) + kids_size_from(kids, 7));
            assert(kids_size_from(kids, 5) == size(kids[5]) + kids_size_from(kids, 6));
            assert(kids_size_from(kids, 4) == size(kids[4]) + kids_size_from(kids, 5));
            assert(kids_size_from(kids, 3) == size(kids[3]) + kids_size_from(kids, 4));
            assert(kids_size_from(kids, 2) == size(kids[2]) + kids_size_from(kids, 3));
            assert(kids_size_from(kids, 1) == size(kids[1]) + kids_size_from(kids, 2));
            assert(kids_size_from(kids, 0) == size(kids[0]) + kids_size_from(kids, 1));
            assert(kids_leaves_from(kids, 8) == 0);
            assert(kids_leaves_from(kids, 7) == leaf_count(kids[7]) + kids_leaves_from(kids, 8));
            assert(kids_leaves_from(kids, 6) == leaf_count(kids[6]) + kids_leaves_from(kids, 7));
            assert(kids_leaves_from(kids, 5) == leaf_count(kids[5]) + kids_leaves_from(kids, 6));
            assert(kids_leaves_from(kids, 4) == leaf_count(kids[4]) + kids_leaves_from(kids, 5));
            assert(kids_leaves_from(kids, 3) == leaf_count(kids[3]) + kids_leaves_from(kids, 4));
            assert(kids_leaves_from(kids, 2) == leaf_count(kids[2]) + kids_leaves_from(kids, 3));
            assert(kids_leaves_from(kids, 1) == leaf_count(kids[1]) + kids_leaves_from(kids, 2));
            assert(kids_leaves_from(kids, 0) == leaf_count(kids[0]) + kids_leaves_from(kids, 1));
        },
    }
}

/// The leaf counts of a matched run of child windows sum to the shapes'.
proof fn lemma_matches_kids_leaf_count(
    nodes: Seq<Node>,
    kids: Seq<SpecTree>,
    k: int,
    cursor: int,
    parent: int,
    depth: int,
    b: ChildBlock,
)
    requires
        kids.len() == 8,
        0 <= k <= 8,
        matches_kids(nodes, kids, k, cursor, parent, depth, b),
    ensures
        arena_leaf_count(nodes, cursor, cursor + kids_size_from(kids, k)) == kids_leaves_from(
            kids,
            k,
        ),
    decreases kids, 8 - k,
{
    if k < 8 {
        lemma_matches_leaf_count(nodes, cursor, Option::Some(parent as usize), depth, kids[k]);
        lemma_matches_kids_leaf_count(nodes, kids, k + 1, cursor + size(kids[k]), parent, depth, b);
        lemma_arena_leaf_count_split(
            nodes,
            cursor,
            cursor + size(kids[k]),
            cursor + kids_size_from(kids, k),
        );
        assert(kids_size_from(kids, k) == size(kids[k]) + kids_size_from(kids, k + 1));
    }
}


} // verus!
