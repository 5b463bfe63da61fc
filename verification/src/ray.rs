//! Rays.
use vstd::prelude::*;
use crate::scalar::Scalar;
use crate::vec3::{Point3, Vec3};

verus! {

/// A ray: where it starts, which way it goes (of any length), and the
/// moment at which it exists.
#[derive(Clone, Copy, Debug, PartialEq, Eq, Structural)]
pub struct Ray {
    pub origin: Point3,
    pub direction: Vec3,
    pub time: Scalar,
}

impl Ray {
    pub fn new(origin: Point3, direction: Vec3, time: Scalar) -> (r: Ray)
        ensures
            r == (Ray { origin, direction, time }),
    {
        Ray { origin, direction, time }
    }
}

} // verus!
