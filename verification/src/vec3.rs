//! Triples of scalars: points, directions and colours.
use vstd::prelude::*;
use crate::scalar::Scalar;

verus! {

/// The pattern of 1e-8, the bound under which a component counts as zero.
pub const NEAR_ZERO_BITS: u64 = 0x3E45_798E_E230_8C3A;

/// Three scalars. The library carries such triples and compares their
/// components; sums and products are the caller's.
#[derive(Clone, Copy, Debug, PartialEq, Eq, Structural)]
pub struct Vec3 {
    pub x: Scalar,
    pub y: Scalar,
    pub z: Scalar,
}

pub type Point3 = Vec3;

impl Vec3 {
    /// The component on an axis: 0 is x, 1 is y, anything else is z.
    pub open spec fn axis(self, i: int) -> Scalar {
        if i == 0 {
            self.x
        } else if i == 1 {
            self.y
        } else {
            self.z
        }
    }

    pub open spec fn near_zero_spec(&self) -> bool {
        let s = Scalar { bits: NEAR_ZERO_BITS };
        self.x.abs_spec().lt_spec(s) && self.y.abs_spec().lt_spec(s) && self.z.abs_spec().lt_spec(s)
    }

    pub open spec fn neg_spec(self) -> Vec3 {
        Vec3 { x: self.x.neg_spec(), y: self.y.neg_spec(), z: self.z.neg_spec() }
    }

    pub open spec fn min_spec(self, other: Vec3) -> Vec3 {
        Vec3 {
            x: self.x.min_spec(other.x),
            y: self.y.min_spec(other.y),
            z: self.z.min_spec(other.z),
        }
    }

    pub open spec fn max_spec(self, other: Vec3) -> Vec3 {
        Vec3 {
            x: self.x.max_spec(other.x),
            y: self.y.max_spec(other.y),
            z: self.z.max_spec(other.z),
        }
    }

    /// Whether no component is a pattern without a number.
    pub open spec fn is_numeric(self) -> bool {
        !self.x.is_nan_spec() && !self.y.is_nan_spec() && !self.z.is_nan_spec()
    }

    pub fn new(x: Scalar, y: Scalar, z: Scalar) -> (v: Vec3)
        ensures
            v == (Vec3 { x, y, z }),
    {
        Vec3 { x, y, z }
    }

    /// The triple with the same scalar three times.
    pub fn splat(s: Scalar) -> (v: Vec3)
        ensures
            v == (Vec3 { x: s, y: s, z: s }),
    {
        Vec3 { x: s, y: s, z: s }
    }

    pub fn x(&self) -> (s: Scalar)
        ensures
            s == self.x,
    {
        self.x
    }

    pub fn y(&self) -> (s: Scalar)
        ensures
            s == self.y,
    {
        self.y
    }

    pub fn z(&self) -> (s: Scalar)
        ensures
            s == self.z,
    {
        self.z
    }

    /// The component on axis `i`.
    pub fn get(&self, i: usize) -> (s: Scalar)
        requires
            i < 3,
        ensures
            s == self.axis(i as int),
    {
        if i == 0 {
            self.x
        } else if i == 1 {
            self.y
        } else {
            self.z
        }
    }

    /// Whether every component is closer to zero than 1e-8.
    #[verifier::when_used_as_spec(near_zero_spec)]
    pub fn near_zero(&self) -> (b: bool)
        ensures
            b == self.near_zero_spec(),
    {
        let s = Scalar { bits: NEAR_ZERO_BITS };
        self.x.abs().lt(s) && self.y.abs().lt(s) && self.z.abs().lt(s)
    }

    /// The opposite triple: every sign flipped.
    #[verifier::when_used_as_spec(neg_spec)]
    pub fn neg(self) -> (v: Vec3)
        ensures
            v == self.neg_spec(),
    {
        Vec3 { x: self.x.neg(), y: self.y.neg(), z: self.z.neg() }
    }

    /// The smaller scalar on each axis.
    #[verifier::when_used_as_spec(min_spec)]
    pub fn min(self, other: Vec3) -> (v: Vec3)
        ensures
            v == self.min_spec(other),
    {
        Vec3 { x: self.x.min(other.x), y: self.y.min(other.y), z: self.z.min(other.z) }
    }

    /// The larger scalar on each axis.
    #[verifier::when_used_as_spec(max_spec)]
    pub fn max(self, other: Vec3) -> (v: Vec3)
        ensures
            v == self.max_spec(other),
    {
        Vec3 { x: self.x.max(other.x), y: self.y.max(other.y), z: self.z.max(other.z) }
    }
}

} // verus!
