//! The octree arena: nodes addressed by stable integer index.
//!
//! The tree is built once; afterwards its topology never changes and only the
//! per-node `active` flags churn, so indices stay valid for the tree's
//! lifetime. Nodes are stored in depth-first preorder, which doubles as the
//! stable traversal order used for GPU serialization.

use vstd::prelude::*;

use crate::field::DensityField;
use crate::math::{Vec3I, iabs, spec_child_center_vec, HALF_SIZE_MAX};

verus! {

/// The indices of a node's eight children, one per octant.
#[derive(Clone, Copy, Debug, PartialEq, Eq, Structural)]
pub struct ChildBlock {
    pub c0: usize,
    pub c1: usize,
    pub c2: usize,
    pub c3: usize,
    pub c4: usize,
    pub c5: usize,
    pub c6: usize,
    pub c7: usize,
}

/// The index of the `k`-th child in a block.
pub open spec fn block_child(b: ChildBlock, k: int) -> int {
    if k == 0 {
        b.c0 as int
    } else if k == 1 {
        b.c1 as int
    } else if k == 2 {
        b.c2 as int
    } else if k == 3 {
        b.c3 as int
    } else if k == 4 {
        b.c4 as int
    } else if k == 5 {
        b.c5 as int
    } else if k == 6 {
        b.c6 as int
    } else {
        b.c7 as int
    }
}

impl ChildBlock {
    /// Reads the index of the `k`-th child.
    pub fn get(&self, k: usize) -> (c: usize)
        requires
            k < 8,
        ensures
            c as int == block_child(*self, k as int),
    {
        if k == 0 {
            self.c0
        } else if k == 1 {
            self.c1
        } else if k == 2 {
            self.c2
        } else if k == 3 {
            self.c3
        } else if k == 4 {
            self.c4
        } else if k == 5 {
            self.c5
        } else if k == 6 {
            self.c6
        } else {
            self.c7
        }
    }
}

/// One octree node. Owned exclusively by the arena; referenced elsewhere
/// only by its integer index.
#[derive(Clone, Copy, Debug)]
pub struct Node {
    /// Stable identifier: this node's own position in the arena.
    pub index: usize,
    /// Index of the parent, or `None` for the root.
    pub parent: Option<usize>,
    /// Either no children (a leaf) or exactly eight, in octant order.
    pub children: Option<ChildBlock>,
    /// Centre of the node's cubical bounds.
    pub center: Vec3I,
    /// Half-extent of the node's cubical bounds.
    pub half_size: i64,
    /// Distance from the root.
    pub depth: u32,
    /// Density sampled at construction time; immutable after build.
    pub density: u32,
    /// Whether the level-of-detail pass currently selects this node.
    pub active: bool,
}

/// `n` with its `active` flag replaced; all other fields kept.
pub open spec fn set_active(n: Node, a: bool) -> Node {
    Node { active: a, ..n }
}

/// Well-formedness of the node at index `i` in an arena: its identifier
/// matches its position, its bounds are in range, and its children (if any)
/// are valid indices of nodes one level deeper with exactly halved bounds at
/// the eight octant centres.
pub open spec fn wf_node(nodes: Seq<Node>, max_depth: u32, i: int) -> bool {
    &&& 0 <= i < nodes.len()
    &&& nodes[i].index == i
    &&& nodes[i].depth <= max_depth
    &&& 1 <= nodes[i].half_size <= HALF_SIZE_MAX
    &&& iabs(nodes[i].center.x as int) + nodes[i].half_size <= HALF_SIZE_MAX
    &&& iabs(nodes[i].center.y as int) + nodes[i].half_size <= HALF_SIZE_MAX
    &&& iabs(nodes[i].center.z as int) + nodes[i].half_size <= HALF_SIZE_MAX
    &&& match nodes[i].children {
        Option::None => true,
        Option::Some(b) => {
            &&& nodes[i].depth < max_depth
            &&& nodes[i].half_size % 2 == 0
            &&& forall|k: int|
                0 <= k < 8 ==> {
                    let c = #[trigger] block_child(b, k);
                    &&& 0 <= c < nodes.len()
                    &&& nodes[c].parent == Option::Some(i as usize)
                    &&& nodes[c].depth == nodes[i].depth + 1
                    &&& nodes[c].half_size == nodes[i].half_size / 2
                    &&& nodes[c].center == spec_child_center_vec(
                        nodes[i].center,
                        nodes[i].half_size / 2,
                        k,
                    )
                }
        },
    }
}

/// The octree: an arena of nodes, the construction parameters it was built
/// with, and the density field it represents.
pub struct Octree {
    /// The arena; the root is index 0 and nodes follow in depth-first
    /// preorder.
    pub nodes: Vec<Node>,
    /// Maximum distance from the root a node may have.
    pub max_depth: u32,
    /// Half-extent of the root's cubical bounds.
    pub half_size: i64,
    /// The field the tree was built from.
    pub field: DensityField,
}

impl Octree {
    /// Structural well-formedness: every node is well formed, the root spans
    /// the configured cube at the origin, and the generator is valid.
    pub open spec fn wf(self) -> bool {
        &&& self.nodes@.len() >= 1
        &&& forall|i: int| 0 <= i < self.nodes@.len() ==> wf_node(self.nodes@, self.max_depth, i)
        &&& self.nodes@[0].parent is None
        &&& self.nodes@[0].depth == 0
        &&& self.nodes@[0].center == (Vec3I { x: 0, y: 0, z: 0 })
        &&& self.nodes@[0].half_size == self.half_size
        &&& 1 <= self.half_size <= HALF_SIZE_MAX
        &&& self.field.valid()
    }

    /// Number of nodes in the arena.
    pub fn len(&self) -> (n: usize)
        ensures
            n == self.nodes@.len(),
    {
        self.nodes.len()
    }

    /// Reads the node at index `i`.
    pub fn node(&self, i: usize) -> (n: &Node)
        requires
            i < self.nodes@.len(),
        ensures
            *n == self.nodes@[i as int],
    {
        &self.nodes[i]
    }

    /// All nodes, in the stable traversal order.
    pub fn nodes(&self) -> (ns: &Vec<Node>)
        ensures
            ns@ == self.nodes@,
    {
        &self.nodes
    }
}

} // verus!
