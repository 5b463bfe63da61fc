use raytracer::aabb::AABB;
use raytracer::hittable::HitRecord;
use raytracer::hittable_list::HittableList;
use raytracer::ray::Ray;
use raytracer::scalar::Scalar;
use raytracer::vec3::Vec3;

fn s(x: f64) -> Scalar {
    Scalar::from_bits(x.to_bits())
}

fn f(x: Scalar) -> f64 {
    f64::from_bits(x.to_bits())
}

fn v(x: f64, y: f64, z: f64) -> Vec3 {
    Vec3::new(s(x), s(y), s(z))
}

fn any_ray() -> Ray {
    Ray::new(v(0.0, 0.0, 0.0), v(0.0, 0.0, 1.0), s(0.0))
}

/// A wall across the ray at a fixed parameter.
fn wall(at: &f64, _r: &Ray, lo: Scalar, hi: Scalar) -> Option<HitRecord<u32>> {
    if *at < f(lo) || *at > f(hi) {
        return None;
    }
    Some(HitRecord::new(
        s(*at),
        v(0.0, 0.0, *at),
        s(-1.0),
        v(0.0, 0.0, -1.0),
        s(0.0),
        s(0.0),
        (*at * 10.0) as u32,
    ))
}

fn list_of(walls: &[f64]) -> HittableList<f64> {
    let mut list = HittableList::new();
    for &w in walls {
        list.add(w);
    }
    list
}

#[test]
fn a_new_list_is_empty_and_add_appends() {
    let mut list: HittableList<u8> = HittableList::new();
    assert!(list.objects.is_empty());
    list.add(3);
    list.add(1);
    list.add(2);
    assert_eq!(list.objects, vec![3, 1, 2]);
}

#[test]
fn an_empty_list_is_never_hit() {
    let list = list_of(&[]);
    assert!(list.hit(&any_ray(), s(0.0), s(f64::INFINITY), &wall).is_none());
}

#[test]
fn the_scan_returns_the_closest_hit() {
    let list = list_of(&[5.0, 2.0, 9.0, 3.0]);
    let rec = list.hit(&any_ray(), s(0.001), s(f64::INFINITY), &wall).unwrap();
    assert_eq!(f(rec.t), 2.0);
    assert_eq!(rec.mat_ptr, 20);
    let rec = list.hit(&any_ray(), s(2.5), s(f64::INFINITY), &wall).unwrap();
    assert_eq!(f(rec.t), 3.0);
    let rec = list.hit(&any_ray(), s(4.0), s(100.0), &wall).unwrap();
    assert_eq!(f(rec.t), 5.0);
    assert!(list.hit(&any_ray(), s(9.5), s(100.0), &wall).is_none());
    assert!(list.hit(&any_ray(), s(0.0), s(1.5), &wall).is_none());
}

#[test]
fn every_probe_ends_at_the_closest_hit_so_far() {
    let list = list_of(&[5.0, 7.0, 2.0, 3.0]);
    let seen = std::cell::RefCell::new(Vec::new());
    let probe = |at: &f64, r: &Ray, lo: Scalar, hi: Scalar| {
        seen.borrow_mut().push((f(lo), f(hi)));
        wall(at, r, lo, hi)
    };
    let rec = list.hit(&any_ray(), s(1.0), s(50.0), &probe).unwrap();
    assert_eq!(f(rec.t), 2.0);
    assert_eq!(*seen.borrow(), vec![(1.0, 50.0), (1.0, 5.0), (1.0, 5.0), (1.0, 2.0)]);
}

#[test]
fn of_two_hits_at_one_distance_the_later_object_wins() {
    let list = list_of(&[4.0, 4.0]);
    let order = std::cell::Cell::new(0u32);
    let probe = |at: &f64, r: &Ray, lo: Scalar, hi: Scalar| {
        order.set(order.get() + 1);
        wall(at, r, lo, hi).map(|mut rec| {
            rec.mat_ptr = order.get();
            rec
        })
    };
    let rec = list.hit(&any_ray(), s(0.0), s(10.0), &probe).unwrap();
    assert_eq!(rec.mat_ptr, 2);
}

fn span(w: &f64, t0: Scalar, t1: Scalar) -> Option<AABB> {
    if w.is_nan() {
        return None;
    }
    Some(AABB::new(v(-1.0, -1.0, *w + f(t0)), v(1.0, 1.0, *w + f(t1))))
}

#[test]
fn an_empty_list_has_no_box() {
    assert!(list_of(&[]).bounding_box(s(0.0), s(1.0), &span).is_none());
}

#[test]
fn the_box_of_a_list_is_the_union_of_its_boxes() {
    let list = list_of(&[5.0, 2.0, 9.0]);
    let b = list.bounding_box(s(0.0), s(1.0), &span).unwrap();
    assert_eq!(b, AABB::new(v(-1.0, -1.0, 2.0), v(1.0, 1.0, 10.0)));
    let one = list_of(&[3.0]).bounding_box(s(0.0), s(0.5), &span).unwrap();
    assert_eq!(one, AABB::new(v(-1.0, -1.0, 3.0), v(1.0, 1.0, 3.5)));
}

#[test]
fn a_list_with_an_object_without_box_has_no_box() {
    assert!(list_of(&[5.0, f64::NAN, 9.0]).bounding_box(s(0.0), s(1.0), &span).is_none());
    assert!(list_of(&[f64::NAN]).bounding_box(s(0.0), s(1.0), &span).is_none());
    let calls = std::cell::Cell::new(0);
    let counting = |w: &f64, t0: Scalar, t1: Scalar| {
        calls.set(calls.get() + 1);
        span(w, t0, t1)
    };
    assert!(list_of(&[5.0, f64::NAN, 9.0]).bounding_box(s(0.0), s(1.0), &counting).is_none());
    assert_eq!(calls.get(), 2);
}
