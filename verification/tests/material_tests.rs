use raytracer::color::white;
use raytracer::hittable::HitRecord;
use raytracer::material::{abs, min, Dielectric, DiffuseLight, Isotropic, Lambertian, Metal};
use raytracer::ray::Ray;
use raytracer::scalar::Scalar;
use raytracer::texture::SolidColor;
use raytracer::vec3::Vec3;

fn s(x: f64) -> Scalar {
    Scalar::from_bits(x.to_bits())
}

fn f(x: Scalar) -> f64 {
    f64::from_bits(x.to_bits())
}

fn v(x: f64, y: f64, z: f64) -> Vec3 {
    Vec3::new(s(x), s(y), s(z))
}

fn a(p: Vec3) -> [f64; 3] {
    [f(p.x), f(p.y), f(p.z)]
}

fn dot(p: [f64; 3], q: [f64; 3]) -> f64 {
    p[0] * q[0] + p[1] * q[1] + p[2] * q[2]
}

fn unit(p: [f64; 3]) -> [f64; 3] {
    let l = dot(p, p).sqrt();
    [p[0] / l, p[1] / l, p[2] / l]
}

fn reflect(d: [f64; 3], n: [f64; 3]) -> [f64; 3] {
    let k = 2.0 * dot(d, n);
    [d[0] - k * n[0], d[1] - k * n[1], d[2] - k * n[2]]
}

fn refract(d: [f64; 3], n: [f64; 3], ratio: f64) -> [f64; 3] {
    let cos_theta = (-dot(d, n)).min(1.0);
    let perp = [
        ratio * (d[0] + cos_theta * n[0]),
        ratio * (d[1] + cos_theta * n[1]),
        ratio * (d[2] + cos_theta * n[2]),
    ];
    let k = -(1.0 - dot(perp, perp)).abs().sqrt();
    [perp[0] + k * n[0], perp[1] + k * n[1], perp[2] + k * n[2]]
}

fn incoming() -> Ray {
    Ray::new(v(0.0, 0.0, -5.0), v(0.0, 0.0, 1.0), s(0.25))
}

fn record(front: bool) -> HitRecord<u8> {
    let facing = if front { -1.0 } else { 1.0 };
    HitRecord::new(
        s(4.0),
        v(0.0, 0.0, -1.0),
        s(facing),
        v(0.0, 0.0, facing),
        s(0.3),
        s(0.6),
        9,
    )
}

fn solid(t: &SolidColor, u: Scalar, w: Scalar, p: Vec3) -> Vec3 {
    t.value(u, w, p)
}

#[test]
fn min_is_the_first_if_it_is_below() {
    assert_eq!(f(min(s(1.0), s(2.0))), 1.0);
    assert_eq!(f(min(s(2.0), s(1.0))), 1.0);
    assert_eq!(f(min(s(-3.0), s(-3.0))), -3.0);
    assert_eq!(min(s(0.0), s(-0.0)), s(-0.0));
    assert_eq!(min(s(-0.0), s(0.0)), s(0.0));
    assert_eq!(f(min(s(f64::NAN), s(1.0))), 1.0);
    assert!(min(s(1.0), s(f64::NAN)).is_nan());
}

#[test]
fn abs_flips_what_is_below_zero() {
    assert_eq!(f(abs(s(-2.5))), 2.5);
    assert_eq!(f(abs(s(2.5))), 2.5);
    assert_eq!(abs(s(0.0)), s(0.0));
    assert_eq!(abs(s(-0.0)), s(-0.0));
    assert_eq!(f(abs(s(f64::NEG_INFINITY))), f64::INFINITY);
    assert!(abs(s(f64::NAN)).is_nan());
}

#[test]
fn lambertian_scatters_along_the_sum() {
    let m = Lambertian::new(v(0.4, 0.2, 0.1));
    let rec = record(true);
    let (attenuation, scattered) =
        m.scatter(&incoming(), &rec, v(0.3, 0.4, -0.5), &solid).unwrap();
    assert_eq!(attenuation, v(0.4, 0.2, 0.1));
    assert_eq!(scattered.origin, rec.p);
    assert_eq!(scattered.direction, v(0.3, 0.4, -0.5));
    assert_eq!(f(scattered.time), 0.25);
}

#[test]
fn lambertian_falls_back_to_the_normal() {
    let m = Lambertian::new(v(0.4, 0.2, 0.1));
    let rec = record(true);
    for sum in [v(0.0, 0.0, 0.0), v(1e-9, -1e-9, 9e-9), v(-0.0, 0.0, -9.9e-9)] {
        let (_, scattered) = m.scatter(&incoming(), &rec, sum, &solid).unwrap();
        assert_eq!(scattered.direction, rec.normal);
        assert_eq!(scattered.direction, v(0.0, 0.0, -1.0));
    }
    let (_, scattered) = m.scatter(&incoming(), &rec, v(1e-8, 0.0, 0.0), &solid).unwrap();
    assert_eq!(scattered.direction, v(1e-8, 0.0, 0.0));
}

#[test]
fn lambertian_samples_its_texture_at_the_hit() {
    let m = Lambertian::new_texture(7u8);
    let rec = record(true);
    let sample = |t: &u8, u: Scalar, w: Scalar, p: Vec3| {
        assert_eq!((*t, f(u), f(w), p), (7, 0.3, 0.6, v(0.0, 0.0, -1.0)));
        v(0.5, 0.5, 0.5)
    };
    let (attenuation, _) = m.scatter(&incoming(), &rec, v(0.0, 1.0, 0.0), &sample).unwrap();
    assert_eq!(attenuation, v(0.5, 0.5, 0.5));
}

#[test]
fn metal_scatters_only_away_from_the_surface() {
    let m = Metal::new(v(0.7, 0.6, 0.5), s(0.0));
    assert_eq!(m.albedo, v(0.7, 0.6, 0.5));
    assert_eq!(f(m.fuzz), 0.0);
    let rec = record(true);
    let d = a(incoming().direction);
    let n = a(rec.normal);
    let out = reflect(unit(d), n);
    let direction = v(out[0], out[1], out[2]);
    let (attenuation, scattered) =
        m.scatter(&incoming(), &rec, direction, s(dot(out, n))).unwrap();
    assert_eq!(attenuation, v(0.7, 0.6, 0.5));
    assert_eq!(scattered.direction, v(0.0, 0.0, -1.0));
    assert_eq!(scattered.origin, rec.p);
    assert_eq!(f(scattered.time), 0.25);
    assert!(m.scatter(&incoming(), &rec, direction, s(0.0)).is_none());
    assert!(m.scatter(&incoming(), &rec, direction, s(-0.2)).is_none());
    assert!(m.scatter(&incoming(), &rec, direction, s(f64::NAN)).is_none());
}

fn through_glass(index: f64, d: [f64; 3], rec: &HitRecord<u8>) -> (Vec3, Ray, [f64; 3], [f64; 3]) {
    let m = Dielectric::new(s(index));
    let ratio = f(m.refraction_ratio(rec.front_face, s(1.0 / index)));
    let n = a(rec.normal);
    let u = unit(d);
    let cos_theta = (-dot(u, n)).min(1.0);
    let sin_theta = (1.0 - cos_theta * cos_theta).sqrt();
    let reflected = reflect(u, n);
    let refracted = refract(u, n, ratio);
    let r_in = Ray::new(v(0.0, 0.0, -5.0), v(d[0], d[1], d[2]), s(0.25));
    let (attenuation, scattered) = m
        .scatter(
            &r_in,
            rec,
            s(ratio * sin_theta),
            v(reflected[0], reflected[1], reflected[2]),
            v(refracted[0], refracted[1], refracted[2]),
        )
        .unwrap();
    (attenuation, scattered, reflected, refracted)
}

#[test]
fn dielectric_refracts_at_near_normal_incidence() {
    let rec = record(true);
    for d in [[0.0, 0.0, 1.0], [0.01, 0.0, 1.0], [-0.02, 0.03, 1.0]] {
        let (attenuation, scattered, reflected, refracted) = through_glass(1.5, d, &rec);
        assert_eq!(attenuation, v(1.0, 1.0, 1.0));
        assert_eq!(attenuation, white());
        assert_eq!(a(scattered.direction), refracted);
        assert_ne!(a(scattered.direction), reflected);
        assert!(f(scattered.direction.z) > 0.0);
        assert_eq!(scattered.origin, rec.p);
        assert_eq!(f(scattered.time), 0.25);
    }
}

#[test]
fn dielectric_reflects_when_it_cannot_refract() {
    let rec = record(false);
    assert!(!rec.front_face);
    let (attenuation, scattered, reflected, _) = through_glass(1.5, [1.0, 0.0, -0.3], &rec);
    assert_eq!(attenuation, v(1.0, 1.0, 1.0));
    assert_eq!(a(scattered.direction), reflected);
    let (_, scattered, _, refracted) = through_glass(1.5, [0.01, 0.0, -1.0], &rec);
    assert_eq!(a(scattered.direction), refracted);
}

#[test]
fn dielectric_picks_the_ratio_by_the_face() {
    let m = Dielectric::new(s(1.5));
    assert_eq!(f(m.index_of_refraction), 1.5);
    assert_eq!(f(m.refraction_ratio(true, s(1.0 / 1.5))), 1.0 / 1.5);
    assert_eq!(f(m.refraction_ratio(false, s(1.0 / 1.5))), 1.5);
    let rec = record(true);
    let at_one = m.scatter(&incoming(), &rec, s(1.0), v(1.0, 0.0, 0.0), v(0.0, 1.0, 0.0));
    assert_eq!(at_one.unwrap().1.direction, v(0.0, 1.0, 0.0));
    let above = m.scatter(&incoming(), &rec, s(1.0000001), v(1.0, 0.0, 0.0), v(0.0, 1.0, 0.0));
    assert_eq!(above.unwrap().1.direction, v(1.0, 0.0, 0.0));
}

#[test]
fn a_light_emits_and_never_scatters() {
    let m = DiffuseLight::new(SolidColor::new(v(15.0, 15.0, 15.0)));
    assert!(m.scatter(&incoming(), &record(true)).is_none());
    assert!(m.scatter(&incoming(), &record(false)).is_none());
    assert_eq!(m.emitted(s(0.1), s(0.2), v(1.0, 2.0, 3.0), &solid), v(15.0, 15.0, 15.0));
}

#[test]
fn a_medium_scatters_in_the_direction_drawn() {
    let m = Isotropic::new(SolidColor::new(v(0.1, 0.2, 0.3)));
    let rec = record(true);
    let (attenuation, scattered) =
        m.scatter(&incoming(), &rec, v(0.1, -0.7, 0.2), &solid).unwrap();
    assert_eq!(attenuation, v(0.1, 0.2, 0.3));
    assert_eq!(scattered, Ray::new(rec.p, v(0.1, -0.7, 0.2), s(0.25)));
}
