//! Materials: what becomes of a ray at a surface. Each material decides
//! here whether the ray goes on, with which direction and which
//! attenuation; directions that take arithmetic are handed in.
use vstd::prelude::*;
use crate::color::{white, white_spec, Color};
use crate::hittable::HitRecord;
use crate::ray::Ray;
use crate::scalar::Scalar;
use crate::texture::SolidColor;
use crate::vec3::{Point3, Vec3};

verus! {

pub open spec fn min_spec(v1: Scalar, v2: Scalar) -> Scalar {
    if v1.lt_spec(v2) {
        v1
    } else {
        v2
    }
}

pub open spec fn abs_spec(v: Scalar) -> Scalar {
    if v.lt_spec(Scalar::zero_spec()) {
        v.neg_spec()
    } else {
        v
    }
}

/// The first argument if it is below the second, else the second.
#[verifier::when_used_as_spec(min_spec)]
pub fn min(v1: Scalar, v2: Scalar) -> (m: Scalar)
    ensures
        m == min_spec(v1, v2),
{
    if v1.lt(v2) {
        v1
    } else {
        v2
    }
}

/// The argument with its sign flipped if it is below zero, else as it is.
#[verifier::when_used_as_spec(abs_spec)]
pub fn abs(v: Scalar) -> (a: Scalar)
    ensures
        a == abs_spec(v),
{
    if v.lt(Scalar::zero()) {
        v.neg()
    } else {
        v
    }
}

/// The ray that leaves a hit in a direction, at the time of the incoming
/// ray.
pub open spec fn leaving<M>(r_in: Ray, rec: HitRecord<M>, direction: Vec3) -> Ray {
    Ray { origin: rec.p, direction, time: r_in.time }
}

/// A mirror, more or less polished.
#[derive(Clone, Copy, Debug, PartialEq, Eq, Structural)]
pub struct Metal {
    pub albedo: Color,
    pub fuzz: Scalar,
}

impl Metal {
    pub fn new(albedo: Color, fuzz: Scalar) -> (m: Metal)
        ensures
            m.albedo == albedo,
            m.fuzz == fuzz,
    {
        Metal { albedo, fuzz }
    }

    /// `direction` is the incoming direction mirrored at the surface and
    /// blurred by the fuzz, `facing` its dot product with the normal. The
    /// ray goes on in that direction, attenuated by the albedo, if the
    /// direction leaves the surface: if `facing` is above zero. Else it is
    /// absorbed.
    pub fn scatter<M>(
        &self,
        r_in: &Ray,
        rec: &HitRecord<M>,
        direction: Vec3,
        facing: Scalar,
    ) -> (out: Option<(Color, Ray)>)
        ensures
            out == if facing.gt_spec(Scalar::zero_spec()) {
                Some((self.albedo, leaving(*r_in, *rec, direction)))
            } else {
                None
            },
    {
        if facing.gt(Scalar::zero()) {
            Some((self.albedo, Ray::new(rec.p, direction, r_in.time)))
        } else {
            None
        }
    }
}

/// A matte surface coloured by a texture.
pub struct Lambertian<X> {
    pub albedo: X,
}

impl Lambertian<SolidColor> {
    /// A matte surface of one colour.
    pub fn new(a: Color) -> (l: Lambertian<SolidColor>)
        ensures
            l.albedo.color_value == a,
    {
        Lambertian { albedo: SolidColor::new(a) }
    }
}

impl<X> Lambertian<X> {
    pub fn new_texture(a: X) -> (l: Lambertian<X>)
        ensures
            l.albedo == a,
    {
        Lambertian { albedo: a }
    }

    /// The direction in which a matte surface scatters: `sum`, the normal
    /// plus a random unit vector, unless that is near zero on every axis,
    /// in which case it is the normal itself.
    pub open spec fn direction(normal: Vec3, sum: Vec3) -> Vec3 {
        if sum.near_zero_spec() {
            normal
        } else {
            sum
        }
    }

    /// Always scatters: in `direction(rec.normal, sum)`, attenuated by what
    /// `sample` returns for the texture at the hit.
    pub fn scatter<M, F: Fn(&X, Scalar, Scalar, Point3) -> Color>(
        &self,
        r_in: &Ray,
        rec: &HitRecord<M>,
        sum: Vec3,
        sample: &F,
    ) -> (out: Option<(Color, Ray)>)
        requires
            sample.requires((&self.albedo, rec.u, rec.v, rec.p)),
        ensures
            out matches Some((attenuation, scattered)) && sample.ensures(
                (&self.albedo, rec.u, rec.v, rec.p),
                attenuation,
            ) && scattered == leaving(*r_in, *rec, Self::direction(rec.normal, sum)),
    {
        let mut scatter_direction = sum;
        if scatter_direction.near_zero() {
            scatter_direction = rec.normal;
        }
        let attenuation = sample(&self.albedo, rec.u, rec.v, rec.p);
        Some((attenuation, Ray::new(rec.p, scatter_direction, r_in.time)))
    }
}

/// Glass and the like: light is bent or mirrored, never absorbed.
#[derive(Clone, Copy, Debug, PartialEq, Eq, Structural)]
pub struct Dielectric {
    pub index_of_refraction: Scalar,
}

impl Dielectric {
    pub fn new(index_of_refraction: Scalar) -> (d: Dielectric)
        ensures
            d.index_of_refraction == index_of_refraction,
    {
        Dielectric { index_of_refraction }
    }

    pub open spec fn refraction_ratio_spec(&self, front_face: bool, inverse: Scalar) -> Scalar {
        if front_face {
            inverse
        } else {
            self.index_of_refraction
        }
    }

    /// The ratio of the indices across the surface: `inverse`, one over the
    /// material's index, for a ray that enters through the front face, the
    /// index itself for one that leaves.
    #[verifier::when_used_as_spec(refraction_ratio_spec)]
    pub fn refraction_ratio(&self, front_face: bool, inverse: Scalar) -> (ratio: Scalar)
        ensures
            ratio == self.refraction_ratio_spec(front_face, inverse),
    {
        if front_face {
            inverse
        } else {
            self.index_of_refraction
        }
    }

    /// Whether the ray cannot be bent through the surface and is mirrored
    /// whole: where `bend`, the refraction ratio times the sine of the angle
    /// of incidence, is above one.
    pub open spec fn cannot_refract(bend: Scalar) -> bool {
        bend.gt_spec(Scalar::one_spec())
    }

    /// Always scatters, with no loss: mirrored where the ray cannot be
    /// bent, else bent. `reflected` and `refracted` are the two directions.
    pub fn scatter<M>(
        &self,
        r_in: &Ray,
        rec: &HitRecord<M>,
        bend: Scalar,
        reflected: Vec3,
        refracted: Vec3,
    ) -> (out: Option<(Color, Ray)>)
        ensures
            out == Some(
                (
                    white_spec(),
                    leaving(
                        *r_in,
                        *rec,
                        if Self::cannot_refract(bend) {
                            reflected
                        } else {
                            refracted
                        },
                    ),
                ),
            ),
    {
        let cannot_refract = bend.gt(Scalar::one());
        let direction = if cannot_refract {
            reflected
        } else {
            refracted
        };
        Some((white(), Ray::new(rec.p, direction, r_in.time)))
    }
}

/// A surface that gives off light and scatters none.
pub struct DiffuseLight<X> {
    pub emit: X,
}

impl<X> DiffuseLight<X> {
    pub fn new(emit: X) -> (d: DiffuseLight<X>)
        ensures
            d.emit == emit,
    {
        DiffuseLight { emit }
    }

    /// Never scatters.
    pub fn scatter<M>(&self, _r_in: &Ray, _rec: &HitRecord<M>) -> (out: Option<(Color, Ray)>)
        ensures
            out.is_none(),
    {
        None
    }

    /// The light given off: what `sample` returns for the texture.
    pub fn emitted<F: Fn(&X, Scalar, Scalar, Point3) -> Color>(
        &self,
        u: Scalar,
        v: Scalar,
        p: Point3,
        sample: &F,
    ) -> (c: Color)
        requires
            sample.requires((&self.emit, u, v, p)),
        ensures
            sample.ensures((&self.emit, u, v, p), c),
    {
        sample(&self.emit, u, v, p)
    }
}

/// The scattering inside a medium such as smoke: any direction is as
/// likely as any other.
pub struct Isotropic<X> {
    pub albedo: X,
}

impl<X> Isotropic<X> {
    pub fn new(albedo: X) -> (i: Isotropic<X>)
        ensures
            i.albedo == albedo,
    {
        Isotropic { albedo }
    }

    /// Always scatters: in `direction`, which the caller draws at random,
    /// attenuated by what `sample` returns for the texture at the hit.
    pub fn scatter<M, F: Fn(&X, Scalar, Scalar, Point3) -> Color>(
        &self,
        r_in: &Ray,
        rec: &HitRecord<M>,
        direction: Vec3,
        sample: &F,
    ) -> (out: Option<(Color, Ray)>)
        requires
            sample.requires((&self.albedo, rec.u, rec.v, rec.p)),
        ensures
            out matches Some((attenuation, scattered)) && sample.ensures(
                (&self.albedo, rec.u, rec.v, rec.p),
                attenuation,
            ) && scattered == leaving(*r_in, *rec, direction),
    {
        let attenuation = sample(&self.albedo, rec.u, rec.v, rec.p);
        Some((attenuation, Ray::new(rec.p, direction, r_in.time)))
    }
}

} // verus!
