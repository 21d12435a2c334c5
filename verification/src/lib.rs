//! An adaptive octree over a volumetric density field, for cloud rendering.
//!
//! The tree is built once from a density field, refined per frame from the
//! camera position (level of detail), serialized into fixed-size records for
//! a GPU-resident buffer, and queried by rays. All geometry is carried in
//! fixed-point integer coordinates ([`math::COORD_ONE`] units per world unit)
//! so that subdivision, traversal and intersection are exact.

pub mod bindgen;
pub mod builder;
pub mod field;
pub mod gizmos;
pub mod gpu;
pub mod lod;
pub mod math;
pub mod model;
pub mod raycast;
pub mod tree;

use vstd::prelude::*;

use crate::builder::{
    built_from, ConstructionError, OctreeInfo, DEFAULT_DENSITY_THRESHOLD, DEFAULT_MAX_DEPTH,
};
use crate::field::DensityField;
use crate::math::HALF_SIZE_MAX;
use crate::tree::Octree;

verus! {

/// Scale of fixed-point densities: `DENSITY_ONE` stands for a density of 1.0.
pub const DENSITY_ONE: u32 = 1_000_000;

/// The cloud effect's state: the octree built for it at creation time. The
/// tree's topology is immutable afterwards; only per-frame `active` flags
/// churn.
pub struct CloudState {
    /// The tree representing the cloud's density field.
    pub tree: Octree,
}

impl CloudState {
    /// Builds the cloud state for a root half-extent and a generator, with
    /// the default depth budget and subdivision threshold.
    pub fn new(half_size: i64, generator: DensityField) -> (r: Result<CloudState, ConstructionError>)
        requires
            half_size <= HALF_SIZE_MAX,
        ensures
            match r {
                Result::Ok(s) => built_from(
                    s.tree,
                    OctreeInfo {
                        max_depth: DEFAULT_MAX_DEPTH,
                        half_size,
                        density_threshold: DEFAULT_DENSITY_THRESHOLD,
                        generator,
                    },
                ),
                Result::Err(e) => {
                    &&& (half_size < 1 || !generator.valid())
                    &&& (e == ConstructionError::HalfSizeNotPositive <==> half_size < 1)
                },
            },
    {
        let info = OctreeInfo {
            max_depth: DEFAULT_MAX_DEPTH,
            half_size,
            density_threshold: DEFAULT_DENSITY_THRESHOLD,
            generator,
        };
        match info.build() {
            Result::Ok(tree) => Result::Ok(CloudState { tree }),
            Result::Err(e) => Result::Err(e),
        }
    }
}

} // verus!
