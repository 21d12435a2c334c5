//! Conversions between the library's types and the plain wire values
//! (bare tuples of machine integers) that cross the host boundary.
//!
//! Each conversion is specified exactly, so round trips are proved lossless.

use vstd::prelude::*;

use crate::gpu::NodeRecord;
use crate::math::Vec3I;
use crate::raycast::Ray;

verus! {

/// Converts a library value to its wire representation.
pub trait IntoBindgen: Sized {
    /// The wire representation.
    type Item;

    /// What the conversion yields.
    spec fn into_bindgen_spec(self) -> Self::Item;

    /// Converts to the wire representation.
    fn into_bindgen(self) -> (r: Self::Item)
        ensures
            r == self.into_bindgen_spec(),
    ;
}

/// Converts a wire value back to its library representation.
pub trait FromBindgen: Sized {
    /// The library representation.
    type Item;

    /// What the conversion yields.
    spec fn from_bindgen_spec(self) -> Self::Item;

    /// Converts from the wire representation.
    fn from_bindgen(self) -> (r: Self::Item)
        ensures
            r == self.from_bindgen_spec(),
    ;
}

impl IntoBindgen for Vec3I {
    type Item = (i64, i64, i64);

    open spec fn into_bindgen_spec(self) -> (i64, i64, i64) {
        (self.x, self.y, self.z)
    }

    fn into_bindgen(self) -> (r: (i64, i64, i64)) {
        (self.x, self.y, self.z)
    }
}

impl FromBindgen for (i64, i64, i64) {
    type Item = Vec3I;

    open spec fn from_bindgen_spec(self) -> Vec3I {
        Vec3I { x: self.0, y: self.1, z: self.2 }
    }

    fn from_bindgen(self) -> (r: Vec3I) {
        Vec3I { x: self.0, y: self.1, z: self.2 }
    }
}

impl IntoBindgen for Ray {
    type Item = ((i64, i64, i64), (i64, i64, i64));

    open spec fn into_bindgen_spec(self) -> ((i64, i64, i64), (i64, i64, i64)) {
        ((self.origin.x, self.origin.y, self.origin.z), (self.dir.x, self.dir.y, self.dir.z))
    }

    fn into_bindgen(self) -> (r: ((i64, i64, i64), (i64, i64, i64))) {
        ((self.origin.x, self.origin.y, self.origin.z), (self.dir.x, self.dir.y, self.dir.z))
    }
}

impl FromBindgen for ((i64, i64, i64), (i64, i64, i64)) {
    type Item = Ray;

    open spec fn from_bindgen_spec(self) -> Ray {
        Ray {
            origin: Vec3I { x: self.0.0, y: self.0.1, z: self.0.2 },
            dir: Vec3I { x: self.1.0, y: self.1.1, z: self.1.2 },
        }
    }

    fn from_bindgen(self) -> (r: Ray) {
        Ray {
            origin: Vec3I { x: self.0.0, y: self.0.1, z: self.0.2 },
            dir: Vec3I { x: self.1.0, y: self.1.1, z: self.1.2 },
        }
    }
}

impl IntoBindgen for NodeRecord {
    type Item = (i64, i64, i64, i64, u32, bool, usize);

    open spec fn into_bindgen_spec(self) -> (i64, i64, i64, i64, u32, bool, usize) {
        (
            self.center.x,
            self.center.y,
            self.center.z,
            self.half_size,
            self.density,
            self.is_leaf,
            self.index,
        )
    }

    fn into_bindgen(self) -> (r: (i64, i64, i64, i64, u32, bool, usize)) {
        (
            self.center.x,
            self.center.y,
            self.center.z,
            self.half_size,
            self.density,
            self.is_leaf,
            self.index,
        )
    }
}

impl FromBindgen for (i64, i64, i64, i64, u32, bool, usize) {
    type Item = NodeRecord;

    open spec fn from_bindgen_spec(self) -> NodeRecord {
        NodeRecord {
            center: Vec3I { x: self.0, y: self.1, z: self.2 },
            half_size: self.3,
            density: self.4,
            is_leaf: self.5,
            index: self.6,
        }
    }

    fn from_bindgen(self) -> (r: NodeRecord) {
        NodeRecord {
            center: Vec3I { x: self.0, y: self.1, z: self.2 },
            half_size: self.3,
            density: self.4,
            is_leaf: self.5,
            index: self.6,
        }
    }
}

/// A vector survives the round trip through its wire representation.
pub proof fn lemma_vec3_round_trip(v: Vec3I)
    ensures
        v.into_bindgen_spec().from_bindgen_spec() == v,
{
}

/// A ray survives the round trip through its wire representation.
pub proof fn lemma_ray_round_trip(r: Ray)
    ensures
        r.into_bindgen_spec().from_bindgen_spec() == r,
{
}

/// A node record survives the round trip through its wire representation.
pub proof fn lemma_record_round_trip(n: NodeRecord)
    ensures
        n.into_bindgen_spec().from_bindgen_spec() == n,
{
}

} // verus!
