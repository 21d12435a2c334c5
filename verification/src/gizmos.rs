//! Debug visualization: wireframe boxes for the dense parts of the tree.

use vstd::prelude::*;

use crate::math::Vec3I;
use crate::tree::{Node, Octree};

verus! {

/// One wireframe box for an external debug-draw consumer.
#[derive(Clone, Copy, Debug, PartialEq, Eq, Structural)]
pub struct BoxGizmo {
    /// Centre of the box.
    pub center: Vec3I,
    /// Half-extent of the box.
    pub half_size: i64,
}

/// The gizmo a node draws as.
pub open spec fn gizmo_of(n: Node) -> BoxGizmo {
    BoxGizmo { center: n.center, half_size: n.half_size }
}

/// Boxes of the nodes among the first `k` whose density is at or above the
/// threshold, in arena order.
pub open spec fn gizmos_seq(nodes: Seq<Node>, threshold: u32, k: int) -> Seq<BoxGizmo>
    decreases k,
{
    if k <= 0 {
        Seq::empty()
    } else {
        gizmos_seq(nodes, threshold, k - 1) + if nodes[k - 1].density >= threshold {
            seq![gizmo_of(nodes[k - 1])]
        } else {
            Seq::empty()
        }
    }
}

impl Octree {
    /// One wireframe box per node, at any depth, whose density is at or
    /// above `threshold`. A finite, restartable, purely derived sequence;
    /// the tree is never mutated.
    pub fn gizmos(&self, threshold: u32) -> (out: Vec<BoxGizmo>)
        ensures
            out@ == gizmos_seq(self.nodes@, threshold, self.nodes@.len() as int),
    {
        let n: usize = self.nodes.len();
        let mut out: Vec<BoxGizmo> = Vec::new();
        let mut i: usize = 0;
        while i < n
            invariant
                i <= n,
                n == self.nodes@.len(),
                out@ == gizmos_seq(self.nodes@, threshold, i as int),
            decreases n - i,
        {
            let nd: &Node = self.node(i);
            if nd.density >= threshold {
                out.push(BoxGizmo { center: nd.center, half_size: nd.half_size });
            }
            i = i + 1;
        }
        out
    }
}

} // verus!
