//! Nearest-hit ray queries against the stored density.
//!
//! Intersection is computed exactly: the parameter `t` along the ray is a
//! rational with a positive denominator, compared by cross-multiplication,
//! so no floating-point rounding enters the traversal. A leaf is a candidate
//! hit when its density is at or above the query threshold; the traversal
//! returns the candidate with the smallest entry parameter (ties broken by
//! octant order), or nothing. Read-only: the tree is never mutated.

use vstd::prelude::*;

use crate::math::{Vec3I, iabs, HALF_SIZE_MAX};
use crate::tree::{Node, Octree, block_child, wf_node};

verus! {

/// Largest magnitude accepted for a ray's origin and direction components.
pub const RAY_LIMIT: i64 = 2_147_483_648;

/// A ray: origin and (unnormalized) direction, both in fixed-point
/// coordinates.
#[derive(Clone, Copy, Debug, PartialEq, Eq, Structural)]
pub struct Ray {
    /// Origin of the ray.
    pub origin: Vec3I,
    /// Direction of the ray.
    pub dir: Vec3I,
}

/// A qualifying intersection: the leaf hit, the entry parameter `t` as the
/// exact fraction `t_num / t_den`, and the intersection point, rounded
/// towards the origin.
#[derive(Clone, Copy, Debug, PartialEq, Eq, Structural)]
pub struct HitRecord {
    /// Index of the leaf that was hit.
    pub node: usize,
    /// Numerator of the entry parameter; never negative.
    pub t_num: i128,
    /// Denominator of the entry parameter; always positive.
    pub t_den: i128,
    /// x coordinate of `origin + t * dir`, truncated towards zero.
    pub point_x: i128,
    /// y coordinate of the intersection point.
    pub point_y: i128,
    /// z coordinate of the intersection point.
    pub point_z: i128,
}

/// `a <= b` on fractions with positive denominators.
pub open spec fn fle(a: (int, int), b: (int, int)) -> bool {
    a.0 * b.1 <= b.0 * a.1
}

/// The larger of two fractions; `a` on ties.
pub open spec fn fmax(a: (int, int), b: (int, int)) -> (int, int) {
    if fle(b, a) {
        a
    } else {
        b
    }
}

/// The smaller of two fractions; `a` on ties.
pub open spec fn fmin(a: (int, int), b: (int, int)) -> (int, int) {
    if fle(a, b) {
        a
    } else {
        b
    }
}

/// Entry parameter of the slab `[lo, hi]` on one axis, as a fraction with
/// positive denominator; meaningful only when `d != 0`.
pub open spec fn axis_entry(o: int, d: int, lo: int, hi: int) -> (int, int) {
    if d > 0 {
        (lo - o, d)
    } else {
        (o - hi, -d)
    }
}

/// Exit parameter of the slab `[lo, hi]` on one axis.
pub open spec fn axis_exit(o: int, d: int, lo: int, hi: int) -> (int, int) {
    if d > 0 {
        (hi - o, d)
    } else {
        (o - lo, -d)
    }
}

/// On every axis where the ray is parallel to the slab, the origin must lie
/// inside it.
pub open spec fn flat_axes_ok(ray: Ray, c: Vec3I, h: int) -> bool {
    &&& (ray.dir.x == 0 ==> c.x - h <= ray.origin.x <= c.x + h)
    &&& (ray.dir.y == 0 ==> c.y - h <= ray.origin.y <= c.y + h)
    &&& (ray.dir.z == 0 ==> c.z - h <= ray.origin.z <= c.z + h)
}

/// Entry parameter of the box at `c` with half-extent `h`: the largest of
/// the per-axis entries over the non-parallel axes, never below zero.
pub open spec fn box_entry(ray: Ray, c: Vec3I, h: int) -> (int, int) {
    let e0 = (0int, 1int);
    let e1 = if ray.dir.x != 0 {
        fmax(e0, axis_entry(ray.origin.x as int, ray.dir.x as int, c.x - h, c.x + h))
    } else {
        e0
    };
    let e2 = if ray.dir.y != 0 {
        fmax(e1, axis_entry(ray.origin.y as int, ray.dir.y as int, c.y - h, c.y + h))
    } else {
        e1
    };
    if ray.dir.z != 0 {
        fmax(e2, axis_entry(ray.origin.z as int, ray.dir.z as int, c.z - h, c.z + h))
    } else {
        e2
    }
}

/// Exit parameter of the box, when some axis bounds it.
pub open spec fn box_exit(ray: Ray, c: Vec3I, h: int) -> Option<(int, int)> {
    let x0: Option<(int, int)> = if ray.dir.x != 0 {
        Option::Some(axis_exit(ray.origin.x as int, ray.dir.x as int, c.x - h, c.x + h))
    } else {
        Option::None
    };
    let x1: Option<(int, int)> = if ray.dir.y != 0 {
        let ey = axis_exit(ray.origin.y as int, ray.dir.y as int, c.y - h, c.y + h);
        match x0 {
            Option::Some(e) => Option::Some(fmin(e, ey)),
            Option::None => Option::Some(ey),
        }
    } else {
        x0
    };
    if ray.dir.z != 0 {
        let ez = axis_exit(ray.origin.z as int, ray.dir.z as int, c.z - h, c.z + h);
        match x1 {
            Option::Some(e) => Option::Some(fmin(e, ez)),
            Option::None => Option::Some(ez),
        }
    } else {
        x1
    }
}

/// Whether the ray meets the box at all, at some parameter `t >= 0`.
pub open spec fn hits_box(ray: Ray, c: Vec3I, h: int) -> bool {
    &&& flat_axes_ok(ray, c, h)
    &&& match box_exit(ray, c, h) {
        Option::Some(ex) => fle(box_entry(ray, c, h), ex),
        Option::None => true,
    }
}

/// Of two optional candidates, the nearer along the ray; the first on ties.
pub open spec fn nearer(a: Option<(int, (int, int))>, b: Option<(int, (int, int))>) -> Option<
    (int, (int, int)),
> {
    match (a, b) {
        (Option::Some(x), Option::Some(y)) => {
            if fle(x.1, y.1) {
                a
            } else {
                b
            }
        },
        (Option::Some(_), Option::None) => a,
        (Option::None, _) => b,
    }
}

/// The nearest qualifying intersection in the subtree at `i`: the index of
/// the nearest leaf whose box the ray meets and whose density is at or
/// above the threshold, with its entry parameter; or nothing.
pub open spec fn spec_raycast(nodes: Seq<Node>, i: int, ray: Ray, thr: u32, fuel: nat) -> Option<
    (int, (int, int)),
>
    decreases fuel,
{
    let n = nodes[i];
    if !hits_box(ray, n.center, n.half_size as int) {
        Option::None
    } else {
        match n.children {
            Option::None => {
                if n.density >= thr {
                    Option::Some((i, box_entry(ray, n.center, n.half_size as int)))
                } else {
                    Option::None
                }
            },
            Option::Some(b) => {
                if fuel == 0 {
                    Option::None
                } else {
                    let f = (fuel - 1) as nat;
                    nearer(
                        nearer(
                            nearer(
                                nearer(
                                    nearer(
                                        nearer(
                                            nearer(
                                                spec_raycast(nodes, block_child(b, 0), ray, thr, f),
                                                spec_raycast(nodes, block_child(b, 1), ray, thr, f),
                                            ),
                                            spec_raycast(nodes, block_child(b, 2), ray, thr, f),
                                        ),
                                        spec_raycast(nodes, block_child(b, 3), ray, thr, f),
                                    ),
                                    spec_raycast(nodes, block_child(b, 4), ray, thr, f),
                                ),
                                spec_raycast(nodes, block_child(b, 5), ray, thr, f),
                            ),
                            spec_raycast(nodes, block_child(b, 6), ray, thr, f),
                        ),
                        spec_raycast(nodes, block_child(b, 7), ray, thr, f),
                    )
                }
            },
        }
    }
}

/// The coordinate of `o + t * d` on one axis, truncated towards zero.
pub open spec fn spec_point_coord(o: int, d: int, tn: int, td: int) -> int {
    let prod = tn * d;
    if prod >= 0 {
        o + prod / td
    } else {
        o - ((-prod) / td)
    }
}

/// Bounded ray components, so that the exact fraction arithmetic stays in
/// machine range.
pub open spec fn ray_in_range(ray: Ray) -> bool {
    &&& iabs(ray.origin.x as int) <= RAY_LIMIT
    &&& iabs(ray.origin.y as int) <= RAY_LIMIT
    &&& iabs(ray.origin.z as int) <= RAY_LIMIT
    &&& iabs(ray.dir.x as int) <= RAY_LIMIT
    &&& iabs(ray.dir.y as int) <= RAY_LIMIT
    &&& iabs(ray.dir.z as int) <= RAY_LIMIT
}

/// A fraction in machine range: numerator within `2^33` in magnitude,
/// positive denominator within `2^32`.
pub open spec fn frac_ok(n: i128, d: i128) -> bool {
    &&& -8589934592i128 <= n <= 8589934592i128
    &&& 0 < d <= 4294967296i128
}

/// Compares two in-range fractions exactly.
fn frac_le(an: i128, ad: i128, bn: i128, bd: i128) -> (r: bool)
    requires
        frac_ok(an, ad),
        frac_ok(bn, bd),
    ensures
        r == fle((an as int, ad as int), (bn as int, bd as int)),
{
    assert(an * bd <= 36893488147419103232i128 && an * bd >= -36893488147419103232i128)
        by (nonlinear_arith)
        requires
            -8589934592i128 <= an <= 8589934592i128,
            0 < bd <= 4294967296i128,
    ;
    assert(bn * ad <= 36893488147419103232i128 && bn * ad >= -36893488147419103232i128)
        by (nonlinear_arith)
        requires
            -8589934592i128 <= bn <= 8589934592i128,
            0 < ad <= 4294967296i128,
    ;
    an * bd <= bn * ad
}

/// Per-axis entry fraction of a slab, in machine arithmetic.
fn f_axis_entry(o: i64, d: i64, lo: i64, hi: i64) -> (r: (i128, i128))
    requires
        d != 0,
        iabs(o as int) <= RAY_LIMIT,
        iabs(d as int) <= RAY_LIMIT,
        iabs(lo as int) <= HALF_SIZE_MAX,
        iabs(hi as int) <= HALF_SIZE_MAX,
    ensures
        (r.0 as int, r.1 as int) == axis_entry(o as int, d as int, lo as int, hi as int),
        frac_ok(r.0, r.1),
{
    if d > 0 {
        ((lo as i128) - (o as i128), d as i128)
    } else {
        ((o as i128) - (hi as i128), -(d as i128))
    }
}

/// Per-axis exit fraction of a slab, in machine arithmetic.
fn f_axis_exit(o: i64, d: i64, lo: i64, hi: i64) -> (r: (i128, i128))
    requires
        d != 0,
        iabs(o as int) <= RAY_LIMIT,
        iabs(d as int) <= RAY_LIMIT,
        iabs(lo as int) <= HALF_SIZE_MAX,
        iabs(hi as int) <= HALF_SIZE_MAX,
    ensures
        (r.0 as int, r.1 as int) == axis_exit(o as int, d as int, lo as int, hi as int),
        frac_ok(r.0, r.1),
{
    if d > 0 {
        ((hi as i128) - (o as i128), d as i128)
    } else {
        ((o as i128) - (lo as i128), -(d as i128))
    }
}

/// Tests a node's box against a ray: whether it is met at all, and the entry
/// parameter.
fn box_test(ray: &Ray, c: Vec3I, h: i64) -> (r: (bool, i128, i128))
    requires
        ray_in_range(*ray),
        1 <= h <= HALF_SIZE_MAX,
        iabs(c.x as int) + h <= HALF_SIZE_MAX,
        iabs(c.y as int) + h <= HALF_SIZE_MAX,
        iabs(c.z as int) + h <= HALF_SIZE_MAX,
    ensures
        r.0 == hits_box(*ray, c, h as int),
        (r.1 as int, r.2 as int) == box_entry(*ray, c, h as int),
        frac_ok(r.1, r.2),
        r.1 >= 0,
{
    let mut en: i128 = 0;
    let mut ed: i128 = 1;
    let mut flat_ok: bool = true;
    let mut xn: i128 = 0;
    let mut xd: i128 = 1;
    let mut have_exit: bool = false;
    if ray.dir.x != 0 {
        let e = f_axis_entry(ray.origin.x, ray.dir.x, c.x - h, c.x + h);
        if !frac_le(e.0, e.1, en, ed) {
            en = e.0;
            ed = e.1;
        }
        let x = f_axis_exit(ray.origin.x, ray.dir.x, c.x - h, c.x + h);
        xn = x.0;
        xd = x.1;
        have_exit = true;
    } else {
        flat_ok = c.x - h <= ray.origin.x && ray.origin.x <= c.x + h;
    }
    if ray.dir.y != 0 {
        let e = f_axis_entry(ray.origin.y, ray.dir.y, c.y - h, c.y + h);
        if !frac_le(e.0, e.1, en, ed) {
            en = e.0;
            ed = e.1;
        }
        let x = f_axis_exit(ray.origin.y, ray.dir.y, c.y - h, c.y + h);
        if have_exit {
            if !frac_le(xn, xd, x.0, x.1) {
                xn = x.0;
                xd = x.1;
            }
        } else {
            xn = x.0;
            xd = x.1;
            have_exit = true;
        }
    } else {
        flat_ok = flat_ok && c.y - h <= ray.origin.y && ray.origin.y <= c.y + h;
    }
    if ray.dir.z != 0 {
        let e = f_axis_entry(ray.origin.z, ray.dir.z, c.z - h, c.z + h);
        if !frac_le(e.0, e.1, en, ed) {
            en = e.0;
            ed = e.1;
        }
        let x = f_axis_exit(ray.origin.z, ray.dir.z, c.z - h, c.z + h);
        if have_exit {
            if !frac_le(xn, xd, x.0, x.1) {
                xn = x.0;
                xd = x.1;
            }
        } else {
            xn = x.0;
            xd = x.1;
            have_exit = true;
        }
    } else {
        flat_ok = flat_ok && c.z - h <= ray.origin.z && ray.origin.z <= c.z + h;
    }
    let hit: bool = if !flat_ok {
        false
    } else if have_exit {
        frac_le(en, ed, xn, xd)
    } else {
        true
    };
    proof {
        lemma_box_entry_nonneg(*ray, c, h as int);
    }
    (hit, en, ed)
}

/// Of two optional candidates, the nearer; the first on ties.
fn pick_nearer(a: Option<(usize, i128, i128)>, b: Option<(usize, i128, i128)>) -> (r: Option<
    (usize, i128, i128),
>)
    requires
        a is Some ==> frac_ok(a->Some_0.1, a->Some_0.2),
        b is Some ==> frac_ok(b->Some_0.1, b->Some_0.2),
    ensures
        opt_view(r) == nearer(opt_view(a), opt_view(b)),
        r is Some ==> frac_ok(r->Some_0.1, r->Some_0.2),
        r is Some ==> (r == a || r == b),
{
    match (a, b) {
        (Option::Some(x), Option::Some(y)) => {
            if frac_le(x.1, x.2, y.1, y.2) {
                Option::Some(x)
            } else {
                Option::Some(y)
            }
        },
        (Option::Some(x), Option::None) => Option::Some(x),
        (Option::None, _) => b,
    }
}

/// The candidate as the specification sees it.
pub open spec fn opt_view(a: Option<(usize, i128, i128)>) -> Option<(int, (int, int))> {
    match a {
        Option::Some(x) => Option::Some((x.0 as int, (x.1 as int, x.2 as int))),
        Option::None => Option::None,
    }
}

/// Recursive traversal: nearest qualifying leaf in the subtree at `i`.
fn raycast_rec(nodes: &Vec<Node>, i: usize, ray: &Ray, thr: u32, max_depth: u32) -> (r: Option<
    (usize, i128, i128),
>)
    requires
        forall|j: int| 0 <= j < nodes@.len() ==> wf_node(nodes@, max_depth, j),
        i < nodes@.len(),
        ray_in_range(*ray),
    ensures
        opt_view(r) == spec_raycast(
            nodes@,
            i as int,
            *ray,
            thr,
            (max_depth - nodes@[i as int].depth) as nat,
        ),
        r is Some ==> frac_ok(r->Some_0.1, r->Some_0.2),
    decreases max_depth - nodes@[i as int].depth,
{
    assert(wf_node(nodes@, max_depth, i as int));
    let nd: Node = nodes[i];
    let (hit, en, ed) = box_test(ray, nd.center, nd.half_size);
    if !hit {
        return Option::None;
    }
    match nd.children {
        Option::None => {
            if nd.density >= thr {
                Option::Some((i, en, ed))
            } else {
                Option::None
            }
        },
        Option::Some(b) => {
            let r0 = raycast_rec(nodes, b.get(0), ray, thr, max_depth);
            let r1 = raycast_rec(nodes, b.get(1), ray, thr, max_depth);
            let r2 = raycast_rec(nodes, b.get(2), ray, thr, max_depth);
            let r3 = raycast_rec(nodes, b.get(3), ray, thr, max_depth);
            let r4 = raycast_rec(nodes, b.get(4), ray, thr, max_depth);
            let r5 = raycast_rec(nodes, b.get(5), ray, thr, max_depth);
            let r6 = raycast_rec(nodes, b.get(6), ray, thr, max_depth);
            let r7 = raycast_rec(nodes, b.get(7), ray, thr, max_depth);
            let mut best = pick_nearer(r0, r1);
            best = pick_nearer(best, r2);
            best = pick_nearer(best, r3);
            best = pick_nearer(best, r4);
            best = pick_nearer(best, r5);
            best = pick_nearer(best, r6);
            best = pick_nearer(best, r7);
            best
        },
    }
}

/// One coordinate of `origin + t * dir`, truncated towards zero.
fn point_coord(o: i64, d: i64, tn: i128, td: i128) -> (p: i128)
    requires
        0 <= tn <= 8589934592i128,
        0 < td <= 4294967296i128,
        iabs(d as int) <= RAY_LIMIT,
        iabs(o as int) <= RAY_LIMIT,
    ensures
        p == spec_point_coord(o as int, d as int, tn as int, td as int),
{
    assert(tn * (d as i128) <= 36893488147419103232i128 && tn * (d as i128)
        >= -36893488147419103232i128) by (nonlinear_arith)
        requires
            0 <= tn <= 8589934592i128,
            -4294967296i128 <= d as i128 <= 4294967296i128,
    ;
    let prod: i128 = tn * (d as i128);
    if prod >= 0 {
        (o as i128) + prod / td
    } else {
        (o as i128) - ((-prod) / td)
    }
}

impl Octree {
    /// Nearest-hit query: traverses from the root and returns the nearest
    /// leaf the ray meets whose density is at or above `density_threshold`,
    /// with the exact entry parameter and the intersection point; or nothing
    /// when no leaf along the ray qualifies. Read-only and safe to repeat.
    pub fn raycast(&self, ray: &Ray, density_threshold: u32) -> (r: Option<HitRecord>)
        requires
            self.wf(),
            ray_in_range(*ray),
        ensures
            ({
                let s = spec_raycast(
                    self.nodes@,
                    0,
                    *ray,
                    density_threshold,
                    self.max_depth as nat,
                );
                match r {
                    Option::Some(h) => {
                        &&& s == Option::Some((h.node as int, (h.t_num as int, h.t_den as int)))
                        &&& h.point_x == spec_point_coord(
                            ray.origin.x as int,
                            ray.dir.x as int,
                            h.t_num as int,
                            h.t_den as int,
                        )
                        &&& h.point_y == spec_point_coord(
                            ray.origin.y as int,
                            ray.dir.y as int,
                            h.t_num as int,
                            h.t_den as int,
                        )
                        &&& h.point_z == spec_point_coord(
                            ray.origin.z as int,
                            ray.dir.z as int,
                            h.t_num as int,
                            h.t_den as int,
                        )
                    },
                    Option::None => s is None,
                }
            }),
    {
        let best = raycast_rec(&self.nodes, 0, ray, density_threshold, self.max_depth);
        match best {
            Option::Some((n, tn, td)) => {
                proof {
                    lemma_raycast_entry_nonneg(
                        self.nodes@,
                        0,
                        *ray,
                        density_threshold,
                        self.max_depth as nat,
                    );
                }
                Option::Some(
                    HitRecord {
                        node: n,
                        t_num: tn,
                        t_den: td,
                        point_x: point_coord(ray.origin.x, ray.dir.x, tn, td),
                        point_y: point_coord(ray.origin.y, ray.dir.y, tn, td),
                        point_z: point_coord(ray.origin.z, ray.dir.z, tn, td),
                    },
                )
            },
            Option::None => Option::None,
        }
    }
}

/// The entry parameter of any hit is non-negative: the intersection lies on
/// the ray, never behind its origin.
pub proof fn lemma_raycast_entry_nonneg(nodes: Seq<Node>, i: int, ray: Ray, thr: u32, fuel: nat)
    ensures
        match spec_raycast(nodes, i, ray, thr, fuel) {
            Option::Some(h) => h.1.0 >= 0 && h.1.1 >= 1,
            Option::None => true,
        },
    decreases fuel,
{
    let n = nodes[i];
    if hits_box(ray, n.center, n.half_size as int) {
        match n.children {
            Option::None => {
                lemma_box_entry_nonneg(ray, n.center, n.half_size as int);
            },
            Option::Some(b) => {
                if fuel > 0 {
                    let f = (fuel - 1) as nat;
                    lemma_raycast_entry_nonneg(nodes, block_child(b, 0), ray, thr, f);
                    lemma_raycast_entry_nonneg(nodes, block_child(b, 1), ray, thr, f);
                    lemma_raycast_entry_nonneg(nodes, block_child(b, 2), ray, thr, f);
                    lemma_raycast_entry_nonneg(nodes, block_child(b, 3), ray, thr, f);
                    lemma_raycast_entry_nonneg(nodes, block_child(b, 4), ray, thr, f);
                    lemma_raycast_entry_nonneg(nodes, block_child(b, 5), ray, thr, f);
                    lemma_raycast_entry_nonneg(nodes, block_child(b, 6), ray, thr, f);
                    lemma_raycast_entry_nonneg(nodes, block_child(b, 7), ray, thr, f);
                }
            },
        }
    }
}

/// Taking the larger of two fractions keeps a non-negative value
/// non-negative.
pub proof fn lemma_fmax_nonneg(a: (int, int), b: (int, int))
    requires
        a.0 >= 0,
        a.1 >= 1,
        b.1 >= 1,
    ensures
        fmax(a, b).0 >= 0,
        fmax(a, b).1 >= 1,
{
    if !fle(b, a) {
        assert(a.0 * b.1 >= 0) by (nonlinear_arith)
            requires
                a.0 >= 0,
                b.1 >= 1,
        ;
        assert(b.0 > 0) by (nonlinear_arith)
            requires
                b.0 * a.1 > 0,
                a.1 >= 1,
        ;
    }
}

/// A box's entry parameter never lies behind the ray origin.
pub proof fn lemma_box_entry_nonneg(ray: Ray, c: Vec3I, h: int)
    ensures
        box_entry(ray, c, h).0 >= 0,
        box_entry(ray, c, h).1 >= 1,
{
    let e0 = (0int, 1int);
    let e1 = if ray.dir.x != 0 {
        fmax(e0, axis_entry(ray.origin.x as int, ray.dir.x as int, c.x - h, c.x + h))
    } else {
        e0
    };
    if ray.dir.x != 0 {
        lemma_fmax_nonneg(e0, axis_entry(ray.origin.x as int, ray.dir.x as int, c.x - h, c.x + h));
    }
    let e2 = if ray.dir.y != 0 {
        fmax(e1, axis_entry(ray.origin.y as int, ray.dir.y as int, c.y - h, c.y + h))
    } else {
        e1
    };
    if ray.dir.y != 0 {
        lemma_fmax_nonneg(e1, axis_entry(ray.origin.y as int, ray.dir.y as int, c.y - h, c.y + h));
    }
    if ray.dir.z != 0 {
        lemma_fmax_nonneg(e2, axis_entry(ray.origin.z as int, ray.dir.z as int, c.z - h, c.z + h));
    }
}

} // verus!
