use raytracer::color::{black, ray_color, white, write_color, BRIGHTEST_BITS, NEAREST_BITS};
use raytracer::hittable::HitRecord;
use raytracer::hittable_list::HittableList;
use raytracer::ray::Ray;
use raytracer::scalar::Scalar;
use raytracer::vec3::Vec3;
use std::cell::{Cell, RefCell};

fn s(x: f64) -> Scalar {
    Scalar::from_bits(x.to_bits())
}

fn f(x: Scalar) -> f64 {
    f64::from_bits(x.to_bits())
}

fn v(x: f64, y: f64, z: f64) -> Vec3 {
    Vec3::new(s(x), s(y), s(z))
}

fn blend(glow: Vec3, attenuation: Vec3, incoming: Vec3) -> Vec3 {
    v(
        f(glow.x) + f(attenuation.x) * f(incoming.x),
        f(glow.y) + f(attenuation.y) * f(incoming.y),
        f(glow.z) + f(attenuation.z) * f(incoming.z),
    )
}

/// A surface across every ray, one unit ahead.
#[derive(Clone, Copy)]
struct Veil {
    glow: f64,
    attenuation: Option<f64>,
}

fn probe(veil: &Veil, r: &Ray, lo: Scalar, hi: Scalar) -> Option<HitRecord<Veil>> {
    if 1.0 < f(lo) || 1.0 > f(hi) {
        return None;
    }
    Some(HitRecord::new(
        s(1.0),
        v(f(r.origin.x) + 1.0, 0.0, 0.0),
        s(-1.0),
        v(-1.0, 0.0, 0.0),
        s(0.0),
        s(0.0),
        *veil,
    ))
}

fn emitted(rec: &HitRecord<Veil>) -> Vec3 {
    v(rec.mat_ptr.glow, rec.mat_ptr.glow, rec.mat_ptr.glow)
}

fn scatter(r: &Ray, rec: &HitRecord<Veil>) -> Option<(Vec3, Ray)> {
    let k = rec.mat_ptr.attenuation?;
    Some((v(k, k / 2.0, 0.0), Ray::new(rec.p, r.direction, r.time)))
}

fn world(veils: &[Veil]) -> HittableList<Veil> {
    let mut list = HittableList::new();
    for &veil in veils {
        list.add(veil);
    }
    list
}

fn start() -> Ray {
    Ray::new(v(0.0, 0.0, 0.0), v(1.0, 0.0, 0.0), s(0.5))
}

#[test]
fn without_depth_the_colour_is_black() {
    let sky = v(0.7, 0.8, 1.0);
    let scenes = [
        world(&[]),
        world(&[Veil { glow: 15.0, attenuation: None }]),
        world(&[Veil { glow: 1.0, attenuation: Some(0.5) }]),
    ];
    for scene in scenes.iter() {
        let c = ray_color(&start(), sky, scene, 0, &probe, &emitted, &scatter, &blend);
        assert_eq!(c, v(0.0, 0.0, 0.0));
        assert_eq!(c, black());
    }
}

#[test]
fn without_depth_nothing_is_asked() {
    let asked = Cell::new(0);
    let counting = |veil: &Veil, r: &Ray, lo: Scalar, hi: Scalar| {
        asked.set(asked.get() + 1);
        probe(veil, r, lo, hi)
    };
    let scene = world(&[Veil { glow: 1.0, attenuation: Some(0.5) }]);
    let c = ray_color(&start(), v(1.0, 1.0, 1.0), &scene, 0, &counting, &emitted, &scatter, &blend);
    assert_eq!(c, black());
    assert_eq!(asked.get(), 0);
}

#[test]
fn a_ray_that_hits_nothing_brings_the_background() {
    let sky = v(0.7, 0.8, 1.0);
    let c = ray_color(&start(), sky, &world(&[]), 5, &probe, &emitted, &scatter, &blend);
    assert_eq!(c, sky);
}

#[test]
fn a_surface_that_does_not_scatter_gives_its_glow() {
    let scene = world(&[Veil { glow: 15.0, attenuation: None }]);
    let c = ray_color(&start(), v(0.7, 0.8, 1.0), &scene, 5, &probe, &emitted, &scatter, &blend);
    assert_eq!(c, v(15.0, 15.0, 15.0));
}

#[test]
fn every_bounce_adds_glow_and_attenuates_the_rest() {
    let scene = world(&[Veil { glow: 1.0, attenuation: Some(0.5) }]);
    let sky = v(9.0, 9.0, 9.0);
    let at = |depth: usize| ray_color(&start(), sky, &scene, depth, &probe, &emitted, &scatter, &blend);
    assert_eq!(at(1), v(1.0, 1.0, 1.0));
    assert_eq!(at(2), v(1.5, 1.25, 1.0));
    assert_eq!(at(3), v(1.75, 1.3125, 1.0));
}

#[test]
fn the_scattered_ray_is_followed_from_the_hit() {
    let rays = RefCell::new(Vec::new());
    let recording = |veil: &Veil, r: &Ray, lo: Scalar, hi: Scalar| {
        rays.borrow_mut().push((f(r.origin.x), f(lo), f(hi), f(r.time)));
        probe(veil, r, lo, hi)
    };
    let scene = world(&[Veil { glow: 0.0, attenuation: Some(1.0) }]);
    ray_color(&start(), black(), &scene, 3, &recording, &emitted, &scatter, &blend);
    assert_eq!(
        *rays.borrow(),
        vec![
            (0.0, 0.001, f64::INFINITY, 0.5),
            (1.0, 0.001, f64::INFINITY, 0.5),
            (2.0, 0.001, f64::INFINITY, 0.5)
        ]
    );
}

#[test]
fn named_colours_and_bounds_have_their_patterns() {
    assert_eq!(black(), v(0.0, 0.0, 0.0));
    assert_eq!(white(), v(1.0, 1.0, 1.0));
    assert_eq!(NEAREST_BITS, 0.001f64.to_bits());
    assert_eq!(BRIGHTEST_BITS, 0.999f64.to_bits());
}

fn tone(sum: Scalar, samples: usize) -> Scalar {
    s((f(sum) * (1.0 / samples as f64)).sqrt())
}

fn quantize(x: Scalar) -> u32 {
    (256.0 * f(x)) as u32
}

#[test]
fn a_pixel_is_written_as_three_numbers_and_a_line_feed() {
    assert_eq!(write_color(v(4.0, 1.0, 0.0), 4, &tone, &quantize), "255 128 0\n");
    assert_eq!(write_color(v(0.25, 0.0625, 1.0), 1, &tone, &quantize), "128 64 255\n");
    assert_eq!(write_color(v(0.0, 0.0, 0.0), 100, &tone, &quantize), "0 0 0\n");
}

#[test]
fn a_channel_is_held_between_nothing_and_the_brightest() {
    assert_eq!(write_color(v(1e9, 400.0, 99.9), 100, &tone, &quantize), "255 255 255\n");
    let seen = RefCell::new(Vec::new());
    let watching = |x: Scalar| {
        seen.borrow_mut().push(f(x));
        quantize(x)
    };
    let plain = |sum: Scalar, _: usize| sum;
    assert_eq!(write_color(v(-3.0, 0.5, 7.0), 1, &plain, &watching), "0 128 255\n");
    assert_eq!(*seen.borrow(), vec![0.0, 0.5, 0.999]);
}
