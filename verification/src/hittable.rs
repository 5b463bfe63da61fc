//! The record of an intersection.
use vstd::prelude::*;
use crate::scalar::Scalar;
use crate::vec3::{Point3, Vec3};

verus! {

/// What a successful hit test reports: the point, the surface normal turned
/// against the incoming ray, the ray parameter, the surface coordinates, and
/// the material of the surface, which is whatever handle `M` the caller
/// keeps its materials by. `front_face` tells whether the geometric normal
/// already pointed against the ray.
#[derive(Clone, Debug)]
pub struct HitRecord<M> {
    pub p: Point3,
    pub normal: Vec3,
    pub t: Scalar,
    pub u: Scalar,
    pub v: Scalar,
    pub front_face: bool,
    pub mat_ptr: M,
}

impl<M> HitRecord<M> {
    /// Whether a ray meets a surface from the front, given the dot product
    /// `facing` of the ray's direction with the outward normal: it does
    /// unless that product is above zero.
    pub open spec fn meets_front(facing: Scalar) -> bool {
        !facing.gt_spec(Scalar::zero_spec())
    }

    /// The normal turned against the ray.
    pub open spec fn turned(facing: Scalar, outward_normal: Vec3) -> Vec3 {
        if facing.gt_spec(Scalar::zero_spec()) {
            outward_normal.neg_spec()
        } else {
            outward_normal
        }
    }

    /// A record for the hit at parameter `t` and point `p`. `facing` is the
    /// dot product of the ray's direction with `outward_normal`.
    pub fn new(
        t: Scalar,
        p: Point3,
        facing: Scalar,
        outward_normal: Vec3,
        u: Scalar,
        v: Scalar,
        mat_ptr: M,
    ) -> (rec: HitRecord<M>)
        ensures
            rec.t == t,
            rec.p == p,
            rec.u == u,
            rec.v == v,
            rec.mat_ptr == mat_ptr,
            rec.front_face == Self::meets_front(facing),
            rec.normal == Self::turned(facing, outward_normal),
    {
        let mut rec = HitRecord { p, normal: outward_normal, t, u, v, front_face: true, mat_ptr };
        rec.set_face_normal(facing, outward_normal);
        rec
    }

    /// Sets the normal and the front-face flag from the outward normal and
    /// its dot product `facing` with the ray's direction; nothing else
    /// changes.
    pub fn set_face_normal(&mut self, facing: Scalar, outward_normal: Vec3)
        ensures
            final(self).front_face == Self::meets_front(facing),
            final(self).normal == Self::turned(facing, outward_normal),
            final(self).t == old(self).t,
            final(self).p == old(self).p,
            final(self).u == old(self).u,
            final(self).v == old(self).v,
            final(self).mat_ptr == old(self).mat_ptr,
    {
        if facing.gt(Scalar::zero()) {
            self.front_face = false;
            self.normal = outward_normal.neg();
        } else {
            self.front_face = true;
            self.normal = outward_normal;
        }
    }
}

} // verus!
