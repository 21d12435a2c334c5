//! Density fields: pure sampling capabilities mapping a position to a
//! fixed-point density.
//!
//! A raw sample may fall outside the valid density range (the analogue of a
//! generator producing an anomalous value); callers recover by treating such
//! a sample as fully dense rather than propagating the anomaly.

use vstd::prelude::*;

use crate::math::{Vec3I, iclamp, child_center, iabs, HALF_SIZE_MAX};
use crate::DENSITY_ONE;

verus! {

/// Mixes one encoded coordinate into a running hash; the core step of the
/// table-lookup generator.
pub open spec fn spec_mix(h: u64, v: u64) -> u64 {
    mul_mask32(((h ^ v) % 0x1_0000_0000) as u64)
}

/// Multiplies a 32-bit value by a fixed odd constant and folds the top bits
/// back in.
pub open spec fn mul_mask32(a: u64) -> u64 {
    ((a * 0x9E37_79B1) as u64) ^ (((a * 0x9E37_79B1) as u64) >> 17)
}

/// Encodes a coordinate as a non-negative value for hashing; positions
/// outside the supported cube are clamped first.
pub open spec fn spec_enc(x: int) -> u64 {
    (iclamp(x, -HALF_SIZE_MAX as int, HALF_SIZE_MAX as int) + HALF_SIZE_MAX) as u64
}

/// Position hash used by the table-lookup generator.
pub open spec fn spec_pos_hash(p: Vec3I) -> u64 {
    spec_mix(spec_mix(spec_mix(0x243F_6A88_85A3_08D3u64, spec_enc(p.x as int)), spec_enc(p.y as int)), spec_enc(p.z as int))
}

/// A pure density generator chosen at construction time.
pub enum DensityField {
    /// The same raw density everywhere.
    Constant(u32),
    /// A raw density picked from a table by a position hash; deterministic
    /// and position-sensitive. An empty table is an invalid generator.
    Lookup(Vec<u32>),
}

impl DensityField {
    /// A generator is valid when it can produce a sample for every position.
    pub open spec fn valid(self) -> bool {
        match self {
            DensityField::Constant(_) => true,
            DensityField::Lookup(table) => table@.len() > 0,
        }
    }

    /// The raw sample the generator yields at `p`.
    pub open spec fn spec_raw_sample(self, p: Vec3I) -> u32 {
        match self {
            DensityField::Constant(d) => d,
            DensityField::Lookup(table) => {
                if table@.len() == 0 {
                    DENSITY_ONE
                } else {
                    table@[(spec_pos_hash(p) % (table@.len() as u64)) as int]
                }
            },
        }
    }

    /// Checks that this generator can be sampled.
    pub fn is_valid(&self) -> (r: bool)
        ensures
            r == self.valid(),
    {
        match self {
            DensityField::Constant(_) => true,
            DensityField::Lookup(table) => table.len() > 0,
        }
    }

    /// Samples the raw density at `p`. Deterministic and side-effect-free:
    /// equal generators and positions always yield equal samples.
    pub fn raw_sample(&self, p: Vec3I) -> (r: u32)
        requires
            self.valid(),
        ensures
            r == self.spec_raw_sample(p),
    {
        match self {
            DensityField::Constant(d) => *d,
            DensityField::Lookup(table) => {
                let h: u64 = pos_hash(p);
                let i: u64 = h % (table.len() as u64);
                table[i as usize]
            },
        }
    }
}

/// The density a raw sample stands for: an anomalous sample (outside the
/// `[0, DENSITY_ONE]` range a well-behaved generator produces) is recovered
/// locally as fully dense, the conservative fail-safe value.
pub open spec fn spec_resolve(raw: u32) -> u32 {
    if raw > DENSITY_ONE {
        DENSITY_ONE
    } else {
        raw
    }
}

/// Recovers a usable density from a raw sample.
pub fn resolve_sample(raw: u32) -> (d: u32)
    ensures
        d == spec_resolve(raw),
        d <= DENSITY_ONE,
{
    if raw > DENSITY_ONE {
        DENSITY_ONE
    } else {
        raw
    }
}

/// The usable density of `f` at `p`.
pub open spec fn spec_density_at(f: DensityField, p: Vec3I) -> u32 {
    spec_resolve(f.spec_raw_sample(p))
}

/// Samples `f` at `p` and recovers a usable density.
pub fn density_at(f: &DensityField, p: Vec3I) -> (d: u32)
    requires
        f.valid(),
    ensures
        d == spec_density_at(*f, p),
        d <= DENSITY_ONE,
{
    resolve_sample(f.raw_sample(p))
}

/// Local density variation of `f` over the cube at `c` with half-extent
/// `half`: the spread between the largest and smallest of the densities at
/// the centre and the eight corners.
pub open spec fn spec_variation(f: DensityField, c: Vec3I, half: i64) -> u32 {
    let d0 = spec_density_at(f, c);
    let lo = umin8(f, c, half, d0);
    let hi = umax8(f, c, half, d0);
    (hi - lo) as u32
}

/// Smallest of the centre density `d0` and the eight corner densities.
pub open spec fn umin8(f: DensityField, c: Vec3I, half: i64, d0: u32) -> u32 {
    umin_k(f, c, half, d0, 8)
}

/// Smallest of `d0` and the first `k` corner densities.
pub open spec fn umin_k(f: DensityField, c: Vec3I, half: i64, d0: u32, k: int) -> u32
    decreases k,
{
    if k <= 0 {
        d0
    } else {
        let rest = umin_k(f, c, half, d0, k - 1);
        let dk = spec_density_at(f, crate::math::spec_child_center_vec(c, half as int, k - 1));
        if dk < rest {
            dk
        } else {
            rest
        }
    }
}

/// Largest of the centre density `d0` and the eight corner densities.
pub open spec fn umax8(f: DensityField, c: Vec3I, half: i64, d0: u32) -> u32 {
    umax_k(f, c, half, d0, 8)
}

/// Largest of `d0` and the first `k` corner densities.
pub open spec fn umax_k(f: DensityField, c: Vec3I, half: i64, d0: u32, k: int) -> u32
    decreases k,
{
    if k <= 0 {
        d0
    } else {
        let rest = umax_k(f, c, half, d0, k - 1);
        let dk = spec_density_at(f, crate::math::spec_child_center_vec(c, half as int, k - 1));
        if dk > rest {
            dk
        } else {
            rest
        }
    }
}

/// Measures the local density variation of `f` over the cube at `c`.
pub fn variation_at(f: &DensityField, c: Vec3I, half: i64) -> (v: u32)
    requires
        f.valid(),
        0 < half <= HALF_SIZE_MAX,
        iabs(c.x as int) + half <= HALF_SIZE_MAX,
        iabs(c.y as int) + half <= HALF_SIZE_MAX,
        iabs(c.z as int) + half <= HALF_SIZE_MAX,
    ensures
        v == spec_variation(*f, c, half),
{
    let d0: u32 = density_at(f, c);
    let mut lo: u32 = d0;
    let mut hi: u32 = d0;
    let mut k: usize = 0;
    while k < 8
        invariant
            k <= 8,
            f.valid(),
            0 < half <= HALF_SIZE_MAX,
            iabs(c.x as int) + half <= HALF_SIZE_MAX,
            iabs(c.y as int) + half <= HALF_SIZE_MAX,
            iabs(c.z as int) + half <= HALF_SIZE_MAX,
            d0 == spec_density_at(*f, c),
            lo == umin_k(*f, c, half, d0, k as int),
            hi == umax_k(*f, c, half, d0, k as int),
            lo <= hi,
        decreases 8 - k,
    {
        let corner = child_center(c, half, k);
        let dk: u32 = density_at(f, corner);
        if dk < lo {
            lo = dk;
        }
        if dk > hi {
            hi = dk;
        }
        k = k + 1;
    }
    hi - lo
}

/// Hashes a position; equal positions always hash alike.
fn pos_hash(p: Vec3I) -> (h: u64)
    ensures
        h == spec_pos_hash(p),
{
    let s0: u64 = 0x243F_6A88_85A3_08D3u64;
    let h1: u64 = mix(s0, enc(p.x));
    let h2: u64 = mix(h1, enc(p.y));
    mix(h2, enc(p.z))
}

/// Encodes one coordinate for hashing.
fn enc(x: i64) -> (e: u64)
    ensures
        e == spec_enc(x as int),
{
    let c: i64 = crate::math::clamp_i64(x, -HALF_SIZE_MAX, HALF_SIZE_MAX);
    (c + HALF_SIZE_MAX) as u64
}

/// One hash-mixing step.
fn mix(h: u64, v: u64) -> (r: u64)
    ensures
        r == spec_mix(h, v),
{
    let a: u64 = (h ^ v) % 0x1_0000_0000;
    assert(a * 0x9E37_79B1 <= 0xFFFF_FFFFu64 * 0x9E37_79B1) by (nonlinear_arith)
        requires a <= 0xFFFF_FFFFu64,
    ;
    let b: u64 = a * 0x9E37_79B1;
    b ^ (b >> 17)
}

} // verus!
