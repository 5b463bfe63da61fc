use raytracer::aabb::{Slab, AABB};
use raytracer::ray::Ray;
use raytracer::scalar::Scalar;
use raytracer::vec3::Vec3;

fn s(x: f64) -> Scalar {
    Scalar::from_bits(x.to_bits())
}

fn f(x: Scalar) -> f64 {
    f64::from_bits(x.to_bits())
}

fn v(x: f64, y: f64, z: f64) -> Vec3 {
    Vec3::new(s(x), s(y), s(z))
}

fn ray(o: [f64; 3], d: [f64; 3]) -> Ray {
    Ray::new(v(o[0], o[1], o[2]), v(d[0], d[1], d[2]), s(0.0))
}

fn bx(a: [f64; 3], b: [f64; 3]) -> AABB {
    AABB::new(v(a[0], a[1], a[2]), v(b[0], b[1], b[2]))
}

fn slab(r: &Ray, axis: usize, lowest: Scalar, highest: Scalar) -> Slab {
    let inv_d = 1.0 / f(r.direction.get(axis));
    let o = f(r.origin.get(axis));
    Slab { inv_d: s(inv_d), t0: s((f(lowest) - o) * inv_d), t1: s((f(highest) - o) * inv_d) }
}

fn test_box(b: &AABB, r: &Ray, lo: f64, hi: f64) -> (bool, f64, f64) {
    let mut t_min = s(lo);
    let mut t_max = s(hi);
    let passes = b.hit(r, &mut t_min, &mut t_max, &slab);
    (passes, f(t_min), f(t_max))
}

#[test]
fn ray_along_x_hits_the_unit_cube() {
    let b = bx([-1.0, -1.0, -1.0], [1.0, 1.0, 1.0]);
    let r = ray([-5.0, 0.0, 0.0], [1.0, 0.0, 0.0]);
    let (passes, t_min, t_max) = test_box(&b, &r, 0.0, f64::INFINITY);
    assert!(passes);
    assert_eq!(t_min, 4.0);
    assert_eq!(t_max, 6.0);
    let (passes, t_min, t_max) = test_box(&b, &r, 0.0, 5.0);
    assert!(passes);
    assert_eq!((t_min, t_max), (4.0, 5.0));
}

#[test]
fn ray_along_y_beside_the_cube_misses() {
    let b = bx([-1.0, -1.0, -1.0], [1.0, 1.0, 1.0]);
    let r = ray([-5.0, 0.0, 0.0], [0.0, 1.0, 0.0]);
    let (passes, _, _) = test_box(&b, &r, 0.0, f64::INFINITY);
    assert!(!passes);
    let (passes, _, _) = test_box(&b, &r, 0.0, 1000.0);
    assert!(!passes);
}

#[test]
fn the_interval_cuts_the_box_off() {
    let b = bx([-1.0, -1.0, -1.0], [1.0, 1.0, 1.0]);
    let r = ray([-5.0, 0.0, 0.0], [1.0, 0.0, 0.0]);
    assert!(!test_box(&b, &r, 0.0, 3.0).0);
    assert!(!test_box(&b, &r, 7.0, 10.0).0);
    assert!(!test_box(&b, &r, 0.0, 4.0).0);
    assert!(test_box(&b, &r, 5.0, 5.5).0);
}

#[test]
fn a_ray_towards_smaller_coordinates_swaps_entry_and_exit() {
    let b = bx([-1.0, -1.0, -1.0], [1.0, 1.0, 1.0]);
    let r = ray([5.0, 0.5, -0.5], [-2.0, 0.0, 0.0]);
    let (passes, t_min, t_max) = test_box(&b, &r, 0.0, f64::INFINITY);
    assert!(passes);
    assert_eq!((t_min, t_max), (2.0, 3.0));
    let r = ray([0.0, 0.0, 0.0], [0.0, -0.0, 1.0]);
    let (passes, t_min, t_max) = test_box(&b, &r, 0.0, f64::INFINITY);
    assert!(passes);
    assert_eq!((t_min, t_max), (0.0, 1.0));
}

#[test]
fn the_test_stops_at_the_first_empty_axis() {
    let b = bx([-1.0, -1.0, -1.0], [1.0, 1.0, 1.0]);
    let r = ray([-5.0, 0.0, 0.0], [0.0, 1.0, 0.0]);
    let calls = std::cell::Cell::new(0);
    let counting = |r: &Ray, axis: usize, lo: Scalar, hi: Scalar| {
        calls.set(calls.get() + 1);
        slab(r, axis, lo, hi)
    };
    let mut t_min = s(0.0);
    let mut t_max = s(f64::INFINITY);
    assert!(!b.hit(&r, &mut t_min, &mut t_max, &counting));
    assert_eq!(calls.get(), 1);
    assert_eq!(f(t_min), f64::INFINITY);
}

#[test]
fn a_ray_in_a_face_of_the_box_keeps_its_interval() {
    let b = bx([-1.0, -1.0, -1.0], [1.0, 1.0, 1.0]);
    let r = ray([-5.0, 1.0, 0.0], [1.0, 0.0, 0.0]);
    let (passes, t_min, t_max) = test_box(&b, &r, 0.0, f64::INFINITY);
    assert!(passes);
    assert_eq!((t_min, t_max), (4.0, 6.0));
}

#[test]
fn a_slab_raises_and_lowers_the_interval() {
    let b = bx([0.0, 0.0, 0.0], [1.0, 1.0, 1.0]);
    let r = ray([0.0, 0.0, 0.0], [1.0, 1.0, 1.0]);
    let fixed = |_: &Ray, axis: usize, _: Scalar, _: Scalar| match axis {
        0 => Slab { inv_d: s(1.0), t0: s(1.0), t1: s(9.0) },
        1 => Slab { inv_d: s(-1.0), t0: s(8.0), t1: s(2.0) },
        _ => Slab { inv_d: s(1.0), t0: s(f64::NAN), t1: s(f64::NAN) },
    };
    let mut t_min = s(0.0);
    let mut t_max = s(10.0);
    assert!(b.hit(&r, &mut t_min, &mut t_max, &fixed));
    assert_eq!((f(t_min), f(t_max)), (2.0, 8.0));
}

#[test]
fn new_keeps_the_corners() {
    let b = bx([1.0, 2.0, 3.0], [4.0, 5.0, 6.0]);
    assert_eq!(b.min(), v(1.0, 2.0, 3.0));
    assert_eq!(b.max(), v(4.0, 5.0, 6.0));
    assert!(b.is_ordered());
    assert!(bx([0.0, 0.0, 0.0], [0.0, 0.0, 0.0]).is_ordered());
    assert!(!bx([1.0, 2.0, 3.0], [4.0, 1.0, 6.0]).is_ordered());
    assert!(!bx([f64::NAN, 2.0, 3.0], [4.0, 5.0, 6.0]).is_ordered());
}

#[test]
fn surrounding_box_is_the_union() {
    let a = bx([-1.0, 0.0, 2.0], [1.0, 3.0, 4.0]);
    let b = bx([0.0, -2.0, 3.0], [5.0, 1.0, 3.5]);
    let u = AABB::surrounding_box(&a, &b);
    assert_eq!(u, bx([-1.0, -2.0, 2.0], [5.0, 3.0, 4.0]));
    assert!(u.is_ordered());
}

#[test]
fn surrounding_box_commutes_associates_and_is_idempotent() {
    let boxes = [
        bx([-1.0, 0.0, 2.0], [1.0, 3.0, 4.0]),
        bx([0.0, -2.0, 3.0], [5.0, 1.0, 3.5]),
        bx([-0.0, -0.0, -0.0], [0.0, 0.0, 0.0]),
        bx([0.0, 0.0, 0.0], [0.0, 0.0, 0.0]),
        bx([-7.5, 2.0, -1e300], [-7.5, 2.0, 1e300]),
        bx([f64::NEG_INFINITY, 0.0, 0.0], [f64::INFINITY, 0.0, 0.0]),
    ];
    for a in boxes.iter() {
        assert_eq!(AABB::surrounding_box(a, a), *a);
        for b in boxes.iter() {
            assert_eq!(AABB::surrounding_box(a, b), AABB::surrounding_box(b, a));
            for c in boxes.iter() {
                let left = AABB::surrounding_box(&AABB::surrounding_box(a, b), c);
                let right = AABB::surrounding_box(a, &AABB::surrounding_box(b, c));
                assert_eq!(left, right);
            }
        }
    }
}

#[test]
fn corners_come_in_order() {
    let b = bx([1.0, 2.0, 3.0], [4.0, 5.0, 6.0]);
    let cs = b.corners();
    assert_eq!(
        cs,
        vec![
            v(1.0, 2.0, 3.0),
            v(1.0, 2.0, 6.0),
            v(1.0, 5.0, 3.0),
            v(1.0, 5.0, 6.0),
            v(4.0, 2.0, 3.0),
            v(4.0, 2.0, 6.0),
            v(4.0, 5.0, 3.0),
            v(4.0, 5.0, 6.0),
        ]
    );
}

#[test]
fn enclosing_takes_least_and_greatest_on_each_axis() {
    let points = vec![v(1.0, -2.0, 3.0), v(-4.0, 5.0, 0.5), v(2.0, 0.0, -6.0)];
    let b = AABB::enclosing(&points);
    assert_eq!(b, bx([-4.0, -2.0, -6.0], [2.0, 5.0, 3.0]));
    assert!(b.is_ordered());
    let one = AABB::enclosing(&vec![v(1.0, 2.0, 3.0)]);
    assert_eq!(one, bx([1.0, 2.0, 3.0], [1.0, 2.0, 3.0]));
    let none = AABB::enclosing(&Vec::new());
    assert_eq!(
        none,
        bx(
            [f64::INFINITY, f64::INFINITY, f64::INFINITY],
            [f64::NEG_INFINITY, f64::NEG_INFINITY, f64::NEG_INFINITY]
        )
    );
    let b = bx([1.0, 2.0, 3.0], [4.0, 5.0, 6.0]);
    assert_eq!(AABB::enclosing(&b.corners()), b);
}
