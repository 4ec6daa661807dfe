//! Fixed-point three-component vectors for fixture and effect
//! positions, in thousandths of a spatial unit.

use crate::math::{isqrt64, spec_isqrt, POS_LIMIT};
use vstd::prelude::*;

verus! {

/// A spatial vector in fixed-point thousandths.
#[derive(Clone, Copy, Debug, PartialEq, Eq, Structural)]
pub struct Vec3 {
    pub x: i64,
    pub y: i64,
    pub z: i64,
}

/// The squared Euclidean distance between `a` and `b`.
pub open spec fn spec_dist_sq(a: Vec3, b: Vec3) -> int {
    (a.x - b.x) * (a.x - b.x) + (a.y - b.y) * (a.y - b.y) + (a.z - b.z) * (a.z - b.z)
}

/// The dot product of `a` and `b`.
pub open spec fn spec_dot(a: Vec3, b: Vec3) -> int {
    a.x * b.x + a.y * b.y + a.z * b.z
}

impl Vec3 {
    /// Every component is within the representable spatial range.
    pub open spec fn in_range(self) -> bool {
        &&& -POS_LIMIT <= self.x <= POS_LIMIT
        &&& -POS_LIMIT <= self.y <= POS_LIMIT
        &&& -POS_LIMIT <= self.z <= POS_LIMIT
    }

    /// The zero vector.
    pub fn zero() -> (v: Vec3)
        ensures
            v == spec_vec3_zero(),
    {
        Vec3 { x: 0, y: 0, z: 0 }
    }

    /// The Euclidean distance from `self` to `other`, rounded down.
    pub fn distance(&self, other: &Vec3) -> (r: i64)
        requires
            self.in_range(),
            other.in_range(),
        ensures
            r == spec_isqrt(spec_dist_sq(*self, *other) as nat),
            0 <= r < 0x4000_0000,
    {
        let dx: i64 = self.x - other.x;
        let dy: i64 = self.y - other.y;
        let dz: i64 = self.z - other.z;
        proof {
            assert(0 <= dx * dx <= 0x10_0000_0000_0000 && 0 <= dy * dy <= 0x10_0000_0000_0000
                && 0 <= dz * dz <= 0x10_0000_0000_0000) by (nonlinear_arith)
                requires
                    -2 * POS_LIMIT <= dx <= 2 * POS_LIMIT && -2 * POS_LIMIT <= dy <= 2 * POS_LIMIT
                        && -2 * POS_LIMIT <= dz <= 2 * POS_LIMIT,
            ;
        }
        let sum: u64 = (dx * dx) as u64 + (dy * dy) as u64 + (dz * dz) as u64;
        isqrt64(sum) as i64
    }

    /// The dot product of `self` and `other`.
    pub fn dot(&self, other: &Vec3) -> (r: i64)
        requires
            self.in_range(),
            other.in_range(),
        ensures
            r == spec_dot(*self, *other),
            -0x2_0000_0000_0000 <= r <= 0x2_0000_0000_0000,
    {
        proof {
            assert(-0x6000_0000_0000 <= self.x * other.x <= 0x6000_0000_0000
                && -0x6000_0000_0000 <= self.y * other.y <= 0x6000_0000_0000
                && -0x6000_0000_0000 <= self.z * other.z <= 0x6000_0000_0000)
                by (nonlinear_arith)
                requires
                    self.in_range() && other.in_range(),
            ;
        }
        self.x * other.x + self.y * other.y + self.z * other.z
    }
}

/// The zero vector.
pub open spec fn spec_vec3_zero() -> Vec3 {
    Vec3 { x: 0, y: 0, z: 0 }
}

} // verus!
