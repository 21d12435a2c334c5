//! Per-frame level-of-detail refinement.
//!
//! Each frame the selector recomputes every node's `active` flag from the
//! camera position and field of view and reports how many flags flipped; a
//! zero means no GPU resynchronization is needed. The metric: a node is
//! active when its apparent size at the camera's Chebyshev distance and field
//! of view is at or above the voxel granularity, that is when
//! `2 * half_size * FOV_ONE * COORD_ONE >= voxel_size * fov * distance`.
//! Degenerate inputs (a non-positive field of view, a far-away camera) are
//! clamped to safe defaults that select the coarsest refinement.

use vstd::prelude::*;

use crate::math::{
    Vec3I, cheb_dist, iclamp, clamp_i64, CAMERA_LIMIT, COORD_ONE, FOV_MAX, FOV_ONE, VOXEL_MAX,
};
use crate::tree::{Node, Octree, set_active};

verus! {

/// The field of view the selector works with: non-positive or oversized
/// inputs become the largest accepted value, which selects the coarsest
/// level of detail.
pub open spec fn clamped_fov(fov: i64) -> int {
    if fov <= 0 {
        FOV_MAX as int
    } else if fov > FOV_MAX {
        FOV_MAX as int
    } else {
        fov as int
    }
}

/// The voxel granularity the selector works with.
pub open spec fn clamped_voxel(v: i64) -> int {
    iclamp(v as int, 0, VOXEL_MAX as int)
}

/// The camera position the selector works with.
pub open spec fn clamped_camera(c: Vec3I) -> Vec3I {
    Vec3I {
        x: iclamp(c.x as int, -CAMERA_LIMIT as int, CAMERA_LIMIT as int) as i64,
        y: iclamp(c.y as int, -CAMERA_LIMIT as int, CAMERA_LIMIT as int) as i64,
        z: iclamp(c.z as int, -CAMERA_LIMIT as int, CAMERA_LIMIT as int) as i64,
    }
}

/// Whether a node is selected under the given (already clamped) parameters:
/// its apparent size at the camera's distance is at or above the voxel
/// granularity. Depends only on the node's bounds, never on its flags, so
/// the selection is a pure function of tree geometry and camera state.
pub open spec fn is_active(n: Node, vox: int, fov: int, cam: Vec3I) -> bool {
    2 * n.half_size * FOV_ONE * COORD_ONE >= vox * fov * cheb_dist(cam, n.center)
}

/// Number of nodes among the first `k` whose `active` flag disagrees with
/// the selection under the given parameters.
pub open spec fn count_flips(nodes: Seq<Node>, vox: int, fov: int, cam: Vec3I, k: int) -> nat
    decreases k,
{
    if k <= 0 {
        0
    } else {
        count_flips(nodes, vox, fov, cam, k - 1) + if nodes[k - 1].active != is_active(
            nodes[k - 1],
            vox,
            fov,
            cam,
        ) {
            1nat
        } else {
            0nat
        }
    }
}

/// Evaluates the selection metric for one node.
fn node_active(n: &Node, vox: i64, fov: i64, cam: Vec3I) -> (r: bool)
    requires
        0 <= vox <= VOXEL_MAX,
        0 < fov <= FOV_MAX,
        camera_in_range(cam),
    ensures
        r == is_active(*n, vox as int, fov as int, cam),
{
    let dxr: i128 = (cam.x as i128) - (n.center.x as i128);
    let dx: i128 = if dxr < 0 {
        -dxr
    } else {
        dxr
    };
    let dyr: i128 = (cam.y as i128) - (n.center.y as i128);
    let dy: i128 = if dyr < 0 {
        -dyr
    } else {
        dyr
    };
    let dzr: i128 = (cam.z as i128) - (n.center.z as i128);
    let dz: i128 = if dzr < 0 {
        -dzr
    } else {
        dzr
    };
    let dyz: i128 = if dy >= dz {
        dy
    } else {
        dz
    };
    let dist: i128 = if dx >= dyz {
        dx
    } else {
        dyz
    };
    assert(dist == cheb_dist(cam, n.center));
    let hq: i128 = n.half_size as i128;
    assert(2 * hq * 1048576i128 * 1048576i128 <= 20282409603651670423947251286016i128 && 2 * hq
        * 1048576i128 * 1048576i128 >= -20282409603651670423947251286016i128) by (nonlinear_arith)
        requires
            -9223372036854775808i128 <= hq <= 9223372036854775807i128,
    ;
    let lhs: i128 = 2 * hq * (FOV_ONE as i128) * (COORD_ONE as i128);
    let vq: i128 = vox as i128;
    let fq: i128 = fov as i128;
    assert(0 <= vq * fq <= 1152921504606846976i128) by (nonlinear_arith)
        requires
            0 <= vq <= 1073741824i128,
            0 < fq <= 1073741824i128,
    ;
    let vf: i128 = vq * fq;
    assert(vf * dist <= 21267647932558653966460912964485513216i128 && vf * dist
        >= -21267647932558653966460912964485513216i128) by (nonlinear_arith)
        requires
            0 <= vf <= 1152921504606846976i128,
            0 <= dist <= 18446744073709551616i128,
    ;
    let rhs: i128 = vf * dist;
    lhs >= rhs
}

/// Camera coordinates within the clamp range the selector works with.
pub open spec fn camera_in_range(cam: Vec3I) -> bool {
    &&& -CAMERA_LIMIT <= cam.x <= CAMERA_LIMIT
    &&& -CAMERA_LIMIT <= cam.y <= CAMERA_LIMIT
    &&& -CAMERA_LIMIT <= cam.z <= CAMERA_LIMIT
}

impl Octree {
    /// Runs one level-of-detail refinement from the camera state: recomputes
    /// every node's `active` flag in the stable traversal order and returns
    /// how many flags flipped. Zero signals that no GPU resynchronization is
    /// required this frame. Tree topology, bounds and densities are never
    /// touched.
    pub fn update(&mut self, voxel_size: i64, fov: i64, camera: Vec3I) -> (changed: usize)
        ensures
            final(self).nodes@.len() == old(self).nodes@.len(),
            forall|i: int|
                0 <= i < final(self).nodes@.len() ==> final(self).nodes@[i] == set_active(
                    old(self).nodes@[i],
                    is_active(
                        old(self).nodes@[i],
                        clamped_voxel(voxel_size),
                        clamped_fov(fov),
                        clamped_camera(camera),
                    ),
                ),
            changed == count_flips(
                old(self).nodes@,
                clamped_voxel(voxel_size),
                clamped_fov(fov),
                clamped_camera(camera),
                old(self).nodes@.len() as int,
            ),
            final(self).max_depth == old(self).max_depth,
            final(self).half_size == old(self).half_size,
            final(self).field == old(self).field,
    {
        let vox: i64 = clamp_i64(voxel_size, 0, VOXEL_MAX);
        let f0: i64 = if fov <= 0 {
            FOV_MAX
        } else {
            fov
        };
        let fv: i64 = clamp_i64(f0, 1, FOV_MAX);
        let cam = Vec3I {
            x: clamp_i64(camera.x, -CAMERA_LIMIT, CAMERA_LIMIT),
            y: clamp_i64(camera.y, -CAMERA_LIMIT, CAMERA_LIMIT),
            z: clamp_i64(camera.z, -CAMERA_LIMIT, CAMERA_LIMIT),
        };
        let ghost gvox: int = clamped_voxel(voxel_size);
        let ghost gfov: int = clamped_fov(fov);
        let ghost gcam: Vec3I = clamped_camera(camera);
        assert(vox as int == gvox && fv as int == gfov && cam == gcam);
        let n: usize = self.nodes.len();
        let mut out: Vec<Node> = Vec::new();
        let mut changed: usize = 0;
        let mut i: usize = 0;
        while i < n
            invariant
                i <= n,
                n == self.nodes@.len(),
                out@.len() == i,
                0 <= vox <= VOXEL_MAX,
                0 < fv <= FOV_MAX,
                camera_in_range(cam),
                vox as int == gvox,
                fv as int == gfov,
                cam == gcam,
                forall|j: int|
                    0 <= j < i ==> out@[j] == set_active(
                        self.nodes@[j],
                        is_active(self.nodes@[j], gvox, gfov, gcam),
                    ),
                changed == count_flips(self.nodes@, gvox, gfov, gcam, i as int),
                changed <= i,
            decreases n - i,
        {
            let nd: Node = *self.node(i);
            let na: bool = node_active(&nd, vox, fv, cam);
            if na != nd.active {
                changed = changed + 1;
            }
            let mut nd2: Node = nd;
            nd2.active = na;
            out.push(nd2);
            assert(nd2 == set_active(self.nodes@[i as int], is_active(self.nodes@[i as int], gvox, gfov, gcam)));
            i = i + 1;
        }
        self.nodes = out;
        changed
    }
}

/// After a refinement every flag agrees with the selection, so an immediate
/// second refinement under the same camera parameters flips nothing: the
/// changed-count of a converged tree is zero.
pub proof fn lemma_update_idempotent(
    pre: Seq<Node>,
    post: Seq<Node>,
    vox: int,
    fov: int,
    cam: Vec3I,
    k: int,
)
    requires
        post.len() == pre.len(),
        k <= pre.len(),
        forall|i: int|
            0 <= i < pre.len() ==> post[i] == set_active(pre[i], is_active(pre[i], vox, fov, cam)),
    ensures
        count_flips(post, vox, fov, cam, k) == 0,
    decreases k,
{
    if k > 0 {
        lemma_update_idempotent(pre, post, vox, fov, cam, k - 1);
        assert(post[k - 1].active == is_active(pre[k - 1], vox, fov, cam));
        assert(is_active(post[k - 1], vox, fov, cam) == is_active(pre[k - 1], vox, fov, cam));
    }
}

} // verus!
