//! Fixed-point scalar and vector helpers shared by the octree components.
//!
//! All world geometry is measured in integer coordinate units, with
//! [`COORD_ONE`] units to one world unit, so halving a cube's extent and
//! offsetting a child centre are exact integer operations.

use vstd::prelude::*;

verus! {

/// Coordinate units per world unit (a power of two, so that repeated
/// halving of extents stays exact).
pub const COORD_ONE: i64 = 1_048_576;

/// Largest root half-extent the tree accepts; keeps every coordinate and
/// every level-of-detail product within range of the machine arithmetic.
pub const HALF_SIZE_MAX: i64 = 1_073_741_824;

/// Fixed-point units per radian of field of view.
pub const FOV_ONE: i64 = 1_048_576;

/// Largest field of view the level-of-detail pass works with; degenerate
/// inputs are clamped here, which selects the coarsest refinement.
pub const FOV_MAX: i64 = 1_073_741_824;

/// Largest voxel granularity accepted by the level-of-detail pass.
pub const VOXEL_MAX: i64 = 1_073_741_824;

/// Camera coordinates are clamped into `[-CAMERA_LIMIT, CAMERA_LIMIT]`.
pub const CAMERA_LIMIT: i64 = 1_073_741_824;

/// A position or direction in fixed-point coordinates.
#[derive(Clone, Copy, Debug, PartialEq, Eq, Structural)]
pub struct Vec3I {
    pub x: i64,
    pub y: i64,
    pub z: i64,
}

impl Vec3I {
    /// The origin.
    pub fn zero() -> (r: Vec3I)
        ensures
            r == (Vec3I { x: 0, y: 0, z: 0 }),
    {
        Vec3I { x: 0, y: 0, z: 0 }
    }
}

/// Absolute value over mathematical integers.
pub open spec fn iabs(x: int) -> int {
    if x < 0 {
        -x
    } else {
        x
    }
}

/// Maximum of two mathematical integers.
pub open spec fn imax(a: int, b: int) -> int {
    if a >= b {
        a
    } else {
        b
    }
}

/// Clamp of a mathematical integer into `[lo, hi]`.
pub open spec fn iclamp(x: int, lo: int, hi: int) -> int {
    if x < lo {
        lo
    } else if x > hi {
        hi
    } else {
        x
    }
}

/// Chebyshev distance between two points: the largest per-axis gap.
/// The level-of-detail metric uses it as the distance from the camera
/// to a node's centre.
pub open spec fn cheb_dist(a: Vec3I, b: Vec3I) -> int {
    imax(
        iabs(a.x - b.x),
        imax(iabs(a.y - b.y), iabs(a.z - b.z)),
    )
}

/// Sign (+1 or -1) of octant `k` along the x axis; octants are numbered so
/// that bit 0 picks x, bit 1 picks y and bit 2 picks z.
pub open spec fn octant_sx(k: int) -> int {
    if k % 2 == 1 {
        1
    } else {
        -1
    }
}

/// Sign of octant `k` along the y axis.
pub open spec fn octant_sy(k: int) -> int {
    if (k / 2) % 2 == 1 {
        1
    } else {
        -1
    }
}

/// Sign of octant `k` along the z axis.
pub open spec fn octant_sz(k: int) -> int {
    if (k / 4) % 2 == 1 {
        1
    } else {
        -1
    }
}

/// Centre of the `k`-th octant of a cube centred at `c`, where `step` is the
/// child's half-extent (half the parent's).
pub open spec fn spec_child_center(c: Vec3I, step: int, k: int) -> (int, int, int) {
    (
        c.x + step * octant_sx(k),
        c.y + step * octant_sy(k),
        c.z + step * octant_sz(k),
    )
}

/// A vector built from mathematical integers; meaningful when each component
/// is in range of the machine type.
pub open spec fn vec3_from_ints(x: int, y: int, z: int) -> Vec3I {
    Vec3I { x: x as i64, y: y as i64, z: z as i64 }
}

/// [`spec_child_center`] packaged as a vector.
pub open spec fn spec_child_center_vec(c: Vec3I, step: int, k: int) -> Vec3I {
    vec3_from_ints(
        c.x + step * octant_sx(k),
        c.y + step * octant_sy(k),
        c.z + step * octant_sz(k),
    )
}

/// Computes the centre of the `k`-th octant of a cube centred at `c` with
/// child half-extent `step`.
pub fn child_center(c: Vec3I, step: i64, k: usize) -> (r: Vec3I)
    requires
        k < 8,
        0 < step <= HALF_SIZE_MAX,
        iabs(c.x as int) + step <= HALF_SIZE_MAX,
        iabs(c.y as int) + step <= HALF_SIZE_MAX,
        iabs(c.z as int) + step <= HALF_SIZE_MAX,
    ensures
        (r.x as int, r.y as int, r.z as int) == spec_child_center(c, step as int, k as int),
        r == spec_child_center_vec(c, step as int, k as int),
        iabs(r.x as int) <= HALF_SIZE_MAX,
        iabs(r.y as int) <= HALF_SIZE_MAX,
        iabs(r.z as int) <= HALF_SIZE_MAX,
        iabs(r.x as int) <= iabs(c.x as int) + step,
        iabs(r.y as int) <= iabs(c.y as int) + step,
        iabs(r.z as int) <= iabs(c.z as int) + step,
{
    let x: i64 = if k % 2 == 1 { c.x + step } else { c.x - step };
    let y: i64 = if (k / 2) % 2 == 1 { c.y + step } else { c.y - step };
    let z: i64 = if (k / 4) % 2 == 1 { c.z + step } else { c.z - step };
    Vec3I { x, y, z }
}

/// Clamps `x` into `[lo, hi]`.
pub fn clamp_i64(x: i64, lo: i64, hi: i64) -> (r: i64)
    requires
        lo <= hi,
    ensures
        r as int == iclamp(x as int, lo as int, hi as int),
{
    if x < lo {
        lo
    } else if x > hi {
        hi
    } else {
        x
    }
}

/// Eight raised to `n`; the capacity a subdivision level can add.
pub open spec fn pow8(n: nat) -> nat
    decreases n,
{
    if n == 0 {
        1
    } else {
        8 * pow8((n - 1) as nat)
    }
}

} // verus!
