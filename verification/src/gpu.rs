//! Synchronization of the active-node set into a GPU-shaped buffer.
//!
//! The active nodes are serialized, in the selector's stable traversal
//! order, into fixed-size records. The buffer only ever grows (never
//! shrinks); when growth would exceed the configured resource limit the
//! sync reports a capacity error and leaves the previous (stale) contents
//! in place for the frame to render.

use vstd::prelude::*;

use crate::math::Vec3I;
use crate::tree::{Node, Octree};

verus! {

/// Smallest capacity a buffer is created with.
pub const MIN_CAPACITY: usize = 64;

/// A fixed-size GPU record for one active node: bounds, density and a
/// leaf marker.
#[derive(Clone, Copy, Debug, PartialEq, Eq, Structural)]
pub struct NodeRecord {
    /// Centre of the node's bounds.
    pub center: Vec3I,
    /// Half-extent of the node's bounds.
    pub half_size: i64,
    /// The node's density.
    pub density: u32,
    /// Whether the node is a leaf.
    pub is_leaf: bool,
    /// The node's stable index.
    pub index: usize,
}

/// The record a node serializes to.
pub open spec fn record_of(n: Node) -> NodeRecord {
    NodeRecord {
        center: n.center,
        half_size: n.half_size,
        density: n.density,
        is_leaf: n.children is None,
        index: n.index,
    }
}

/// An unused buffer slot.
pub open spec fn spec_empty_record() -> NodeRecord {
    NodeRecord {
        center: Vec3I { x: 0, y: 0, z: 0 },
        half_size: 0,
        density: 0,
        is_leaf: true,
        index: 0,
    }
}

/// Records of the active nodes among the first `k`, in arena (stable
/// traversal) order.
pub open spec fn active_records_seq(nodes: Seq<Node>, k: int) -> Seq<NodeRecord>
    decreases k,
{
    if k <= 0 {
        Seq::empty()
    } else {
        active_records_seq(nodes, k - 1) + if nodes[k - 1].active {
            seq![record_of(nodes[k - 1])]
        } else {
            Seq::empty()
        }
    }
}

impl Octree {
    /// Serializes the currently active nodes, in the stable traversal order.
    pub fn active_records(&self) -> (recs: Vec<NodeRecord>)
        ensures
            recs@ == active_records_seq(self.nodes@, self.nodes@.len() as int),
            recs@.len() <= self.nodes@.len(),
    {
        let n: usize = self.nodes.len();
        let mut recs: Vec<NodeRecord> = Vec::new();
        let mut i: usize = 0;
        while i < n
            invariant
                i <= n,
                n == self.nodes@.len(),
                recs@ == active_records_seq(self.nodes@, i as int),
                recs@.len() <= i,
            decreases n - i,
        {
            let nd: &Node = self.node(i);
            if nd.active {
                recs.push(
                    NodeRecord {
                        center: nd.center,
                        half_size: nd.half_size,
                        density: nd.density,
                        is_leaf: nd.children.is_none(),
                        index: nd.index,
                    },
                );
            }
            i = i + 1;
        }
        recs
    }
}

/// Growth could not be satisfied; the frame keeps rendering the previous
/// buffer contents and the sync is retried next frame.
#[derive(Clone, Copy, Debug, PartialEq, Eq, Structural)]
pub struct CapacityError;

/// The host-side image of the GPU node buffer, with its grow-only capacity
/// policy. This component is the buffer's only writer.
pub struct GpuSync {
    /// The buffer contents; its length is the current capacity.
    pub buffer: Vec<NodeRecord>,
    /// Largest capacity the resource budget allows.
    pub capacity_limit: usize,
}

impl GpuSync {
    /// A buffer sized for `initial` records, never below [`MIN_CAPACITY`].
    pub fn new(initial: usize, capacity_limit: usize) -> (s: GpuSync)
        requires
            initial <= capacity_limit,
            MIN_CAPACITY <= capacity_limit,
        ensures
            s.buffer@.len() == if initial >= MIN_CAPACITY {
                initial as int
            } else {
                MIN_CAPACITY as int
            },
            forall|i: int| 0 <= i < s.buffer@.len() ==> s.buffer@[i] == spec_empty_record(),
            s.capacity_limit == capacity_limit,
    {
        let cap: usize = if initial >= MIN_CAPACITY {
            initial
        } else {
            MIN_CAPACITY
        };
        let mut buffer: Vec<NodeRecord> = Vec::new();
        let mut i: usize = 0;
        while i < cap
            invariant
                i <= cap,
                buffer@.len() == i,
                forall|j: int| 0 <= j < i ==> buffer@[j] == spec_empty_record(),
            decreases cap - i,
        {
            buffer.push(
                NodeRecord {
                    center: Vec3I { x: 0, y: 0, z: 0 },
                    half_size: 0,
                    density: 0,
                    is_leaf: true,
                    index: 0,
                },
            );
            i = i + 1;
        }
        GpuSync { buffer, capacity_limit }
    }

    /// Current capacity, in records.
    pub fn capacity(&self) -> (c: usize)
        ensures
            c == self.buffer@.len(),
    {
        self.buffer.len()
    }

    /// Writes the active-node records of `tree` into the buffer at offset 0,
    /// leaving unused tail slots untouched. Grows the capacity first when
    /// the active count exceeds it (grow-only: capacity never decreases);
    /// when growth would exceed the resource limit, reports a capacity error
    /// and changes nothing, so the stale contents keep rendering.
    pub fn sync(&mut self, tree: &Octree) -> (r: Result<usize, CapacityError>)
        ensures
            final(self).capacity_limit == old(self).capacity_limit,
            final(self).buffer@.len() >= old(self).buffer@.len(),
            ({
                let recs = active_records_seq(tree.nodes@, tree.nodes@.len() as int);
                match r {
                    Ok(n) => {
                        &&& n == recs.len()
                        &&& recs.len() <= old(self).buffer@.len() || recs.len()
                            <= old(self).capacity_limit
                        &&& final(self).buffer@.len() == if recs.len() > old(self).buffer@.len() {
                            recs.len() as int
                        } else {
                            old(self).buffer@.len() as int
                        }
                        &&& final(self).buffer@.subrange(0, n as int) == recs
                        &&& final(self).buffer@.subrange(n as int, final(self).buffer@.len() as int)
                            == old(self).buffer@.skip(n as int).take(final(self).buffer@.len() - n)
                    },
                    Err(_) => {
                        &&& recs.len() > old(self).buffer@.len()
                        &&& recs.len() > old(self).capacity_limit
                        &&& final(self).buffer@ == old(self).buffer@
                    },
                }
            }),
    {
        let recs: Vec<NodeRecord> = tree.active_records();
        let n: usize = recs.len();
        let old_cap: usize = self.buffer.len();
        if n > old_cap && n > self.capacity_limit {
            return Err(CapacityError);
        }
        let new_cap: usize = if n > old_cap {
            n
        } else {
            old_cap
        };
        let mut out: Vec<NodeRecord> = Vec::new();
        let mut i: usize = 0;
        while i < new_cap
            invariant
                i <= new_cap,
                out@.len() == i,
                n == recs@.len(),
                n <= new_cap,
                old_cap == self.buffer@.len(),
                new_cap == if n > old_cap {
                    n as int
                } else {
                    old_cap as int
                },
                forall|j: int| 0 <= j < i && j < n ==> out@[j] == recs@[j],
                forall|j: int| n <= j < i ==> out@[j] == self.buffer@[j],
            decreases new_cap - i,
        {
            if i < n {
                out.push(recs[i]);
            } else {
                out.push(self.buffer[i]);
            }
            i = i + 1;
        }
        let ghost old_buf = self.buffer@;
        self.buffer = out;
        proof {
            let recs_s = active_records_seq(tree.nodes@, tree.nodes@.len() as int);
            assert(self.buffer@.subrange(0, n as int) =~= recs_s);
            assert(self.buffer@.subrange(n as int, self.buffer@.len() as int) =~= old_buf.skip(
                n as int,
            ).take(self.buffer@.len() - n));
        }
        Ok(n)
    }
}

} // verus!
