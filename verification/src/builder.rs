//! One-shot octree construction.
//!
//! Building is recursive, depth-first and eager: the whole tree exists
//! before the call returns. A region stops subdividing at `max_depth`, when
//! its half-extent can no longer be halved exactly, or when its local
//! density variation falls below the configured threshold. The resulting
//! arena is pinned, node for node, by the shape [`spec_build`] computes from
//! the parameters alone, which makes construction provably deterministic.

use vstd::prelude::*;

use crate::field::{DensityField, spec_density_at, spec_variation, density_at, variation_at};
use crate::math::{Vec3I, iabs, child_center, spec_child_center_vec, pow8, HALF_SIZE_MAX};
use crate::model::{
    SpecTree, kids_size_from, leaf_count, leaf_volume_sum, lemma_leaf_count_bound,
    lemma_leaf_volume_sum, lemma_matches_frame, lemma_matches_unique, lemma_matches_wf,
    lemma_matches_leaf_count, lemma_matches_volume, lemma_size_bound, arena_leaf_count,
    arena_leaf_volume, matches_at, matches_kids, size,
    t_kids, tree_geom,
};
use crate::tree::{ChildBlock, Node, Octree};

verus! {

/// Default depth budget of a tree.
pub const DEFAULT_MAX_DEPTH: u32 = 20;

/// Default subdivision threshold: a region whose density varies by less
/// than 0.2 stays a leaf.
pub const DEFAULT_DENSITY_THRESHOLD: u32 = 200_000;

/// Default level-of-detail granularity: 0.05 world units.
pub const DEFAULT_VOXEL_SIZE: i64 = 52_429;

/// Default root half-extent: 100 world units.
pub const DEFAULT_HALF_SIZE: i64 = 104_857_600;

/// Why a construction was refused; nothing is allocated when it is.
#[derive(Clone, Copy, Debug, PartialEq, Eq, Structural)]
pub enum ConstructionError {
    /// The configured half-extent was not positive.
    HalfSizeNotPositive,
    /// The configured generator cannot be sampled.
    InvalidGenerator,
}

/// Construction parameters. Pure configuration: never mutated after use.
pub struct OctreeInfo {
    /// Depth budget; 0 is legal and yields a single leaf.
    pub max_depth: u32,
    /// Root half-extent, in coordinate units; must be positive.
    pub half_size: i64,
    /// Subdivision stop criterion: a region whose density variation is
    /// below this stays a leaf.
    pub density_threshold: u32,
    /// The density generator to sample.
    pub generator: DensityField,
}

impl Default for OctreeInfo {
    /// The default configuration: depth 20, half-extent 100 world units,
    /// threshold 0.2, a uniformly dense generator.
    fn default() -> (r: OctreeInfo)
        ensures
            r.max_depth == DEFAULT_MAX_DEPTH,
            r.half_size == DEFAULT_HALF_SIZE,
            r.density_threshold == DEFAULT_DENSITY_THRESHOLD,
            r.generator == DensityField::Constant(crate::DENSITY_ONE),
    {
        OctreeInfo {
            max_depth: DEFAULT_MAX_DEPTH,
            half_size: DEFAULT_HALF_SIZE,
            density_threshold: DEFAULT_DENSITY_THRESHOLD,
            generator: DensityField::Constant(crate::DENSITY_ONE),
        }
    }
}

/// Whether a region subdivides: only below the depth budget, only when its
/// half-extent halves exactly, and only when its density varies enough.
pub open spec fn spec_subdivides(
    f: DensityField,
    thr: u32,
    maxd: u32,
    center: Vec3I,
    half: i64,
    depth: u32,
) -> bool {
    depth < maxd && half % 2 == 0 && half >= 2 && spec_variation(f, center, half) >= thr
}

/// The shape construction produces: a pure function of the parameters and
/// the generator state, which is what makes building deterministic.
pub open spec fn spec_build(
    f: DensityField,
    thr: u32,
    maxd: u32,
    center: Vec3I,
    half: i64,
    depth: u32,
) -> SpecTree
    decreases maxd - depth,
{
    let d = spec_density_at(f, center);
    if depth < maxd && half % 2 == 0 && half >= 2 && spec_variation(f, center, half) >= thr {
        let step = (half / 2) as i64;
        SpecTree::Split {
            center,
            half_size: half,
            density: d,
            kids: seq![
                spec_build(f, thr, maxd, spec_child_center_vec(center, step as int, 0), step, (depth + 1) as u32),
                spec_build(f, thr, maxd, spec_child_center_vec(center, step as int, 1), step, (depth + 1) as u32),
                spec_build(f, thr, maxd, spec_child_center_vec(center, step as int, 2), step, (depth + 1) as u32),
                spec_build(f, thr, maxd, spec_child_center_vec(center, step as int, 3), step, (depth + 1) as u32),
                spec_build(f, thr, maxd, spec_child_center_vec(center, step as int, 4), step, (depth + 1) as u32),
                spec_build(f, thr, maxd, spec_child_center_vec(center, step as int, 5), step, (depth + 1) as u32),
                spec_build(f, thr, maxd, spec_child_center_vec(center, step as int, 6), step, (depth + 1) as u32),
                spec_build(f, thr, maxd, spec_child_center_vec(center, step as int, 7), step, (depth + 1) as u32),
            ],
        }
    } else {
        SpecTree::Leaf { center, half_size: half, density: d }
    }
}

/// The shape built from in-range parameters is geometrically well formed.
pub proof fn lemma_build_geom(
    f: DensityField,
    thr: u32,
    maxd: u32,
    center: Vec3I,
    half: i64,
    depth: u32,
)
    requires
        1 <= half <= HALF_SIZE_MAX,
        iabs(center.x as int) + half <= HALF_SIZE_MAX,
        iabs(center.y as int) + half <= HALF_SIZE_MAX,
        iabs(center.z as int) + half <= HALF_SIZE_MAX,
        depth <= maxd,
    ensures
        tree_geom(spec_build(f, thr, maxd, center, half, depth), maxd, depth as int),
    decreases maxd - depth,
{
    if depth < maxd && half % 2 == 0 && half >= 2 && spec_variation(f, center, half)
        >= thr {
        lemma_build_geom(f, thr, maxd, spec_child_center_vec(center, ((half / 2) as i64) as int, 0), (half / 2) as i64, (depth + 1) as u32);
        lemma_build_geom(f, thr, maxd, spec_child_center_vec(center, ((half / 2) as i64) as int, 1), (half / 2) as i64, (depth + 1) as u32);
        lemma_build_geom(f, thr, maxd, spec_child_center_vec(center, ((half / 2) as i64) as int, 2), (half / 2) as i64, (depth + 1) as u32);
        lemma_build_geom(f, thr, maxd, spec_child_center_vec(center, ((half / 2) as i64) as int, 3), (half / 2) as i64, (depth + 1) as u32);
        lemma_build_geom(f, thr, maxd, spec_child_center_vec(center, ((half / 2) as i64) as int, 4), (half / 2) as i64, (depth + 1) as u32);
        lemma_build_geom(f, thr, maxd, spec_child_center_vec(center, ((half / 2) as i64) as int, 5), (half / 2) as i64, (depth + 1) as u32);
        lemma_build_geom(f, thr, maxd, spec_child_center_vec(center, ((half / 2) as i64) as int, 6), (half / 2) as i64, (depth + 1) as u32);
        lemma_build_geom(f, thr, maxd, spec_child_center_vec(center, ((half / 2) as i64) as int, 7), (half / 2) as i64, (depth + 1) as u32);
    }
}

/// The in-memory tree the recursive pass grows before it is laid out as an
/// arena.
enum GrowTree {
    Leaf { center: Vec3I, half_size: i64, density: u32 },
    Split { center: Vec3I, half_size: i64, density: u32, kids: Vec<GrowTree> },
}

/// The shape of a grown tree.
spec fn gt_view(t: GrowTree) -> SpecTree
    decreases t,
{
    match t {
        GrowTree::Leaf { center, half_size, density } => SpecTree::Leaf {
            center,
            half_size,
            density,
        },
        GrowTree::Split { center, half_size, density, kids } => {
            if kids.len() == 8 {
                SpecTree::Split {
                    center,
                    half_size,
                    density,
                    kids: seq![
                        gt_view(kids[0]),
                    gt_view(kids[1]),
                    gt_view(kids[2]),
                    gt_view(kids[3]),
                    gt_view(kids[4]),
                    gt_view(kids[5]),
                    gt_view(kids[6]),
                    gt_view(kids[7]),
                    ],
                }
            } else {
                SpecTree::Leaf { center, half_size, density }
            }
        },
    }
}

/// Depth bookkeeping of a grown tree: splits stay below the budget.
spec fn gt_ok(t: GrowTree, depth: u32, maxd: u32) -> bool
    decreases t,
{
    match t {
        GrowTree::Leaf { .. } => depth <= maxd,
        GrowTree::Split { kids, .. } => {
            &&& depth < maxd
            &&& kids.len() == 8
            &&& gt_ok(kids[0], (depth + 1) as u32, maxd)
            &&& gt_ok(kids[1], (depth + 1) as u32, maxd)
            &&& gt_ok(kids[2], (depth + 1) as u32, maxd)
            &&& gt_ok(kids[3], (depth + 1) as u32, maxd)
            &&& gt_ok(kids[4], (depth + 1) as u32, maxd)
            &&& gt_ok(kids[5], (depth + 1) as u32, maxd)
            &&& gt_ok(kids[6], (depth + 1) as u32, maxd)
            &&& gt_ok(kids[7], (depth + 1) as u32, maxd)
        },
    }
}

/// Recursively grows the tree for a region: samples the density at the
/// centre, and subdivides into the eight octants while the stop criteria
/// allow.
#[verifier::rlimit(100)]
#[verifier::spinoff_prover]
fn grow(f: &DensityField, thr: u32, maxd: u32, center: Vec3I, half: i64, depth: u32) -> (t:
    GrowTree)
    requires
        f.valid(),
        1 <= half <= HALF_SIZE_MAX,
        iabs(center.x as int) + half <= HALF_SIZE_MAX,
        iabs(center.y as int) + half <= HALF_SIZE_MAX,
        iabs(center.z as int) + half <= HALF_SIZE_MAX,
        depth <= maxd,
    ensures
        gt_view(t) == spec_build(*f, thr, maxd, center, half, depth),
        gt_ok(t, depth, maxd),
    decreases maxd - depth,
{
    let density: u32 = density_at(f, center);
    if depth < maxd && half % 2 == 0 && half >= 2 {
        let v: u32 = variation_at(f, center, half);
        if v >= thr {
            let step: i64 = half / 2;
            let mut kids: Vec<GrowTree> = Vec::new();
            let c0 = grow(f, thr, maxd, child_center(center, step, 0), step, depth + 1);
            kids.push(c0);
            let c1 = grow(f, thr, maxd, child_center(center, step, 1), step, depth + 1);
            kids.push(c1);
            let c2 = grow(f, thr, maxd, child_center(center, step, 2), step, depth + 1);
            kids.push(c2);
            let c3 = grow(f, thr, maxd, child_center(center, step, 3), step, depth + 1);
            kids.push(c3);
            let c4 = grow(f, thr, maxd, child_center(center, step, 4), step, depth + 1);
            kids.push(c4);
            let c5 = grow(f, thr, maxd, child_center(center, step, 5), step, depth + 1);
            kids.push(c5);
            let c6 = grow(f, thr, maxd, child_center(center, step, 6), step, depth + 1);
            kids.push(c6);
            let c7 = grow(f, thr, maxd, child_center(center, step, 7), step, depth + 1);
            kids.push(c7);
            let t = GrowTree::Split { center, half_size: half, density, kids };
            proof {
                assert(t_kids(gt_view(t)) =~= t_kids(
                    spec_build(*f, thr, maxd, center, half, depth),
                ));
                assert(gt_view(t) == spec_build(*f, thr, maxd, center, half, depth));
            }
            t
        } else {
            GrowTree::Leaf { center, half_size: half, density }
        }
    } else {
        GrowTree::Leaf { center, half_size: half, density }
    }
}

/// Lays a grown subtree out into the arena in depth-first preorder and
/// returns the index of its root slot. Only appends, except for linking the
/// root slot to its children once they are placed.
#[verifier::rlimit(100)]
#[verifier::spinoff_prover]
fn flatten(
    t: &GrowTree,
    nodes: &mut Vec<Node>,
    parent: Option<usize>,
    depth: u32,
    Ghost(maxd): Ghost<u32>,
) -> (r: usize)
    requires
        gt_ok(*t, depth, maxd),
    ensures
        r == old(nodes)@.len(),
        final(nodes)@.len() == old(nodes)@.len() + size(gt_view(*t)),
        forall|i: int| 0 <= i < old(nodes)@.len() ==> final(nodes)@[i] == old(nodes)@[i],
        matches_at(final(nodes)@, r as int, parent, depth as int, gt_view(*t)),
    decreases maxd - depth,
{
    let base: usize = nodes.len();
    match t {
        GrowTree::Leaf { center, half_size, density } => {
            nodes.push(
                Node {
                    index: base,
                    parent,
                    children: Option::None,
                    center: *center,
                    half_size: *half_size,
                    depth,
                    density: *density,
                    active: false,
                },
            );
            base
        },
        GrowTree::Split { center, half_size, density, kids } => {
            nodes.push(
                Node {
                    index: base,
                    parent,
                    children: Option::None,
                    center: *center,
                    half_size: *half_size,
                    depth,
                    density: *density,
                    active: false,
                },
            );
            let i0 = flatten(&kids[0], nodes, Option::Some(base), depth + 1, Ghost(maxd));
            let ghost s1 = nodes@;
            let i1 = flatten(&kids[1], nodes, Option::Some(base), depth + 1, Ghost(maxd));
            let ghost s2 = nodes@;
            let i2 = flatten(&kids[2], nodes, Option::Some(base), depth + 1, Ghost(maxd));
            let ghost s3 = nodes@;
            let i3 = flatten(&kids[3], nodes, Option::Some(base), depth + 1, Ghost(maxd));
            let ghost s4 = nodes@;
            let i4 = flatten(&kids[4], nodes, Option::Some(base), depth + 1, Ghost(maxd));
            let ghost s5 = nodes@;
            let i5 = flatten(&kids[5], nodes, Option::Some(base), depth + 1, Ghost(maxd));
            let ghost s6 = nodes@;
            let i6 = flatten(&kids[6], nodes, Option::Some(base), depth + 1, Ghost(maxd));
            let ghost s7 = nodes@;
            let i7 = flatten(&kids[7], nodes, Option::Some(base), depth + 1, Ghost(maxd));
            let ghost s8 = nodes@;
            let blk = ChildBlock { c0: i0, c1: i1, c2: i2, c3: i3, c4: i4, c5: i5, c6: i6, c7: i7 };
            let nd = Node {
                index: base,
                parent,
                children: Option::Some(blk),
                center: *center,
                half_size: *half_size,
                depth,
                density: *density,
                active: false,
            };
            nodes[base] = nd;
            proof {
                let fin = nodes@;
                let tv = gt_view(*t);
                let tks = t_kids(tv);
                assert(tks[0] == gt_view(kids@[0]));
                assert(tks[1] == gt_view(kids@[1]));
                assert(tks[2] == gt_view(kids@[2]));
                assert(tks[3] == gt_view(kids@[3]));
                assert(tks[4] == gt_view(kids@[4]));
                assert(tks[5] == gt_view(kids@[5]));
                assert(tks[6] == gt_view(kids@[6]));
                assert(tks[7] == gt_view(kids@[7]));
                assert(forall|i: int| 0 <= i < s7.len() ==> s8[i] == s7[i]);
                assert forall|i: int| 0 <= i < s6.len() implies s8[i] == s6[i] by {
                    assert(s8[i] == s7[i]);
                    assert(s7[i] == s6[i]);
                }
                assert forall|i: int| 0 <= i < s5.len() implies s8[i] == s5[i] by {
                    assert(s8[i] == s6[i]);
                    assert(s6[i] == s5[i]);
                }
                assert forall|i: int| 0 <= i < s4.len() implies s8[i] == s4[i] by {
                    assert(s8[i] == s5[i]);
                    assert(s5[i] == s4[i]);
                }
                assert forall|i: int| 0 <= i < s3.len() implies s8[i] == s3[i] by {
                    assert(s8[i] == s4[i]);
                    assert(s4[i] == s3[i]);
                }
                assert forall|i: int| 0 <= i < s2.len() implies s8[i] == s2[i] by {
                    assert(s8[i] == s3[i]);
                    assert(s3[i] == s2[i]);
                }
                assert forall|i: int| 0 <= i < s1.len() implies s8[i] == s1[i] by {
                    assert(s8[i] == s2[i]);
                    assert(s2[i] == s1[i]);
                }

                assert forall|i: int| i0 <= i < s1.len() implies fin[i] == s1[i] by {
                    assert(fin[i] == s8[i]);
                    assert(s8[i] == s1[i]);
                }
                lemma_matches_frame(
                    s1,
                    fin,
                    i0 as int,
                    Option::Some(base as usize),
                    depth as int + 1,
                    tks[0],
                );
                assert forall|i: int| i1 <= i < s2.len() implies fin[i] == s2[i] by {
                    assert(fin[i] == s8[i]);
                    assert(s8[i] == s2[i]);
                }
                lemma_matches_frame(
                    s2,
                    fin,
                    i1 as int,
                    Option::Some(base as usize),
                    depth as int + 1,
                    tks[1],
                );
                assert forall|i: int| i2 <= i < s3.len() implies fin[i] == s3[i] by {
                    assert(fin[i] == s8[i]);
                    assert(s8[i] == s3[i]);
                }
                lemma_matches_frame(
                    s3,
                    fin,
                    i2 as int,
                    Option::Some(base as usize),
                    depth as int + 1,
                    tks[2],
                );
                assert forall|i: int| i3 <= i < s4.len() implies fin[i] == s4[i] by {
                    assert(fin[i] == s8[i]);
                    assert(s8[i] == s4[i]);
                }
                lemma_matches_frame(
                    s4,
                    fin,
                    i3 as int,
                    Option::Some(base as usize),
                    depth as int + 1,
                    tks[3],
                );
                assert forall|i: int| i4 <= i < s5.len() implies fin[i] == s5[i] by {
                    assert(fin[i] == s8[i]);
                    assert(s8[i] == s5[i]);
                }
                lemma_matches_frame(
                    s5,
                    fin,
                    i4 as int,
                    Option::Some(base as usize),
                    depth as int + 1,
                    tks[4],
                );
                assert forall|i: int| i5 <= i < s6.len() implies fin[i] == s6[i] by {
                    assert(fin[i] == s8[i]);
                    assert(s8[i] == s6[i]);
                }
                lemma_matches_frame(
                    s6,
                    fin,
                    i5 as int,
                    Option::Some(base as usize),
                    depth as int + 1,
                    tks[5],
                );
                assert forall|i: int| i6 <= i < s7.len() implies fin[i] == s7[i] by {
                    assert(fin[i] == s8[i]);
                    assert(s8[i] == s7[i]);
                }
                lemma_matches_frame(
                    s7,
                    fin,
                    i6 as int,
                    Option::Some(base as usize),
                    depth as int + 1,
                    tks[6],
                );
                assert forall|i: int| i7 <= i < s8.len() implies fin[i] == s8[i] by {
                    assert(fin[i] == s8[i]);
                    assert(s8[i] == s8[i]);
                }
                lemma_matches_frame(
                    s8,
                    fin,
                    i7 as int,
                    Option::Some(base as usize),
                    depth as int + 1,
                    tks[7],
                );

                assert(i1 as int == i0 + size(tks[0]));
                assert(i2 as int == i1 + size(tks[1]));
                assert(i3 as int == i2 + size(tks[2]));
                assert(i4 as int == i3 + size(tks[3]));
                assert(i5 as int == i4 + size(tks[4]));
                assert(i6 as int == i5 + size(tks[5]));
                assert(i7 as int == i6 + size(tks[6]));
                assert(matches_kids(fin, tks, 8, i7 + size(tks[7]), base as int, depth as int + 1, blk));
                assert(matches_kids(fin, tks, 7, i7 as int, base as int, depth as int + 1, blk));
                assert(matches_kids(fin, tks, 6, i6 as int, base as int, depth as int + 1, blk));
                assert(matches_kids(fin, tks, 5, i5 as int, base as int, depth as int + 1, blk));
                assert(matches_kids(fin, tks, 4, i4 as int, base as int, depth as int + 1, blk));
                assert(matches_kids(fin, tks, 3, i3 as int, base as int, depth as int + 1, blk));
                assert(matches_kids(fin, tks, 2, i2 as int, base as int, depth as int + 1, blk));
                assert(matches_kids(fin, tks, 1, i1 as int, base as int, depth as int + 1, blk));
                assert(matches_kids(fin, tks, 0, i0 as int, base as int, depth as int + 1, blk));

                assert(fin[base as int] == nd);
                assert(matches_at(fin, base as int, parent, depth as int, tv));
                assert(kids_size_from(tks, 8) == 0);
                assert(kids_size_from(tks, 7) == size(tks[7]) + kids_size_from(tks, 8));
                assert(kids_size_from(tks, 6) == size(tks[6]) + kids_size_from(tks, 7));
                assert(kids_size_from(tks, 5) == size(tks[5]) + kids_size_from(tks, 6));
                assert(kids_size_from(tks, 4) == size(tks[4]) + kids_size_from(tks, 5));
                assert(kids_size_from(tks, 3) == size(tks[3]) + kids_size_from(tks, 4));
                assert(kids_size_from(tks, 2) == size(tks[2]) + kids_size_from(tks, 3));
                assert(kids_size_from(tks, 1) == size(tks[1]) + kids_size_from(tks, 2));
                assert(kids_size_from(tks, 0) == size(tks[0]) + kids_size_from(tks, 1));
                assert(size(tv) == 1 + kids_size_from(tks, 0));
            }
            base
        },
    }
}

/// What a successful construction guarantees: the tree is well formed,
/// carries its parameters, and its arena is pinned, node for node, by the
/// shape computed from the parameters alone.
pub open spec fn built_from(t: Octree, info: OctreeInfo) -> bool {
    let shape = spec_build(
        info.generator,
        info.density_threshold,
        info.max_depth,
        Vec3I { x: 0, y: 0, z: 0 },
        info.half_size,
        0,
    );
    &&& 1 <= info.half_size <= HALF_SIZE_MAX
    &&& info.generator.valid()
    &&& t.wf()
    &&& t.max_depth == info.max_depth
    &&& t.half_size == info.half_size
    &&& t.field == info.generator
    &&& matches_at(t.nodes@, 0, Option::None, 0, shape)
    &&& tree_geom(shape, info.max_depth, 0)
    &&& t.nodes@.len() == size(shape)
}

impl OctreeInfo {
    /// Builds the whole tree for this configuration, eagerly. Fails before
    /// any allocation when the half-extent is not positive or the generator
    /// is invalid; otherwise the result is exactly the tree whose shape
    /// [`spec_build`] gives, with every `active` flag cleared.
    pub fn build(self) -> (r: Result<Octree, ConstructionError>)
        requires
            self.half_size <= HALF_SIZE_MAX,
        ensures
            match r {
                Result::Ok(t) => built_from(t, self),
                Result::Err(e) => {
                    &&& (self.half_size < 1 || !self.generator.valid())
                    &&& (e == ConstructionError::HalfSizeNotPositive <==> self.half_size < 1)
                },
            },
    {
        if self.half_size < 1 {
            return Result::Err(ConstructionError::HalfSizeNotPositive);
        }
        if !self.generator.is_valid() {
            return Result::Err(ConstructionError::InvalidGenerator);
        }
        let origin = Vec3I { x: 0, y: 0, z: 0 };
        let g = grow(
            &self.generator,
            self.density_threshold,
            self.max_depth,
            origin,
            self.half_size,
            0,
        );
        let mut nodes: Vec<Node> = Vec::new();
        flatten(&g, &mut nodes, Option::None, 0, Ghost(self.max_depth));
        let t = Octree {
            nodes,
            max_depth: self.max_depth,
            half_size: self.half_size,
            field: self.generator,
        };
        let total: usize = t.nodes.len();
        proof {
            assert(t.nodes@.len() == total);
            let shape = spec_build(
                t.field,
                self.density_threshold,
                self.max_depth,
                origin,
                self.half_size,
                0,
            );
            lemma_build_geom(
                t.field,
                self.density_threshold,
                self.max_depth,
                origin,
                self.half_size,
                0,
            );
            lemma_matches_wf(t.nodes@, 0, Option::None, 0, shape, self.max_depth);
        }
        Result::Ok(t)
    }
}

/// Determinism: two trees built from identical parameters and generator
/// state are identical node for node — same node count and the same bounds,
/// density and linkage at every index.
pub proof fn lemma_build_deterministic(info: OctreeInfo, t1: Octree, t2: Octree)
    requires
        built_from(t1, info),
        built_from(t2, info),
    ensures
        t1.nodes@.len() == t2.nodes@.len(),
        forall|i: int| 0 <= i < t1.nodes@.len() ==> t1.nodes@[i] == t2.nodes@[i],
{
    let shape = spec_build(
        info.generator,
        info.density_threshold,
        info.max_depth,
        Vec3I { x: 0, y: 0, z: 0 },
        info.half_size,
        0,
    );
    lemma_matches_unique(t1.nodes@, t2.nodes@, 0, Option::None, 0, shape);
}

/// Size bounds of a built tree: seven times the node count stays under
/// eight to the power of one more than the depth budget, the number of leaf
/// nodes in the arena stays under eight to the power of the budget, and a
/// budget of zero yields exactly one node, the leaf root.
pub proof fn lemma_build_node_count(info: OctreeInfo, t: Octree)
    requires
        built_from(t, info),
    ensures
        7 * t.nodes@.len() <= 8 * pow8(info.max_depth as nat) - 1,
        arena_leaf_count(t.nodes@, 0, t.nodes@.len() as int) <= pow8(info.max_depth as nat),
        leaf_count(
            spec_build(
                info.generator,
                info.density_threshold,
                info.max_depth,
                Vec3I { x: 0, y: 0, z: 0 },
                info.half_size,
                0,
            ),
        ) <= pow8(info.max_depth as nat),
        info.max_depth == 0 ==> t.nodes@.len() == 1,
{
    let shape = spec_build(
        info.generator,
        info.density_threshold,
        info.max_depth,
        Vec3I { x: 0, y: 0, z: 0 },
        info.half_size,
        0,
    );
    lemma_size_bound(shape, info.max_depth, 0);
    lemma_leaf_count_bound(shape, info.max_depth, 0);
    lemma_matches_leaf_count(t.nodes@, 0, Option::None, 0, shape);
}

/// Exact tiling of a built tree: the bounding volumes of its leaf nodes,
/// summed over the whole arena, equal the root's bounding volume
/// `(2 * half_size)^3`, with no error.
pub proof fn lemma_build_leaf_volumes(info: OctreeInfo, t: Octree)
    requires
        built_from(t, info),
    ensures
        arena_leaf_volume(t.nodes@, 0, t.nodes@.len() as int) == (2 * info.half_size) * (2
            * info.half_size) * (2 * info.half_size),
        leaf_volume_sum(
            spec_build(
                info.generator,
                info.density_threshold,
                info.max_depth,
                Vec3I { x: 0, y: 0, z: 0 },
                info.half_size,
                0,
            ),
        ) == (2 * info.half_size) * (2 * info.half_size) * (2 * info.half_size),
{
    let shape = spec_build(
        info.generator,
        info.density_threshold,
        info.max_depth,
        Vec3I { x: 0, y: 0, z: 0 },
        info.half_size,
        0,
    );
    lemma_leaf_volume_sum(shape, info.max_depth, 0);
    lemma_matches_volume(t.nodes@, 0, Option::None, 0, shape);
    let h = info.half_size as int;
    assert(8 * h * h * h == (2 * h) * (2 * h) * (2 * h)) by (nonlinear_arith);
}


} // verus!
