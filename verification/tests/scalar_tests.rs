use raytracer::scalar::{Scalar, INFINITY_BITS, ONE_BITS, SIGN_BIT};
use raytracer::utilities::{clamp, place_in_bounds, random_int_with_bounds};
use raytracer::vec3::{Vec3, NEAR_ZERO_BITS};

fn s(x: f64) -> Scalar {
    Scalar::from_bits(x.to_bits())
}

fn f(x: Scalar) -> f64 {
    f64::from_bits(x.to_bits())
}

const SAMPLES: [f64; 15] = [
    f64::NEG_INFINITY,
    f64::MIN,
    -1.0e10,
    -2.5,
    -1.0,
    -1.0e-300,
    -5.0e-324,
    -0.0,
    0.0,
    5.0e-324,
    1.0e-8,
    1.0,
    3.75,
    f64::MAX,
    f64::INFINITY,
];

#[test]
fn comparisons_follow_the_numbers() {
    for &a in SAMPLES.iter() {
        for &b in SAMPLES.iter() {
            assert_eq!(s(a).lt(s(b)), a < b, "{} < {}", a, b);
            assert_eq!(s(a).le(s(b)), a <= b, "{} <= {}", a, b);
            assert_eq!(s(a).gt(s(b)), a > b, "{} > {}", a, b);
            assert_eq!(s(a).ge(s(b)), a >= b, "{} >= {}", a, b);
            assert_eq!(s(a).equals(s(b)), a == b, "{} == {}", a, b);
        }
    }
}

#[test]
fn a_pattern_that_is_no_number_compares_false() {
    let nan = s(f64::NAN);
    assert!(nan.is_nan());
    assert!(s(-f64::NAN).is_nan());
    assert!(!s(f64::INFINITY).is_nan());
    assert!(!s(f64::NEG_INFINITY).is_nan());
    for &a in SAMPLES.iter() {
        assert!(!s(a).is_nan());
        assert!(!nan.lt(s(a)) && !nan.le(s(a)) && !nan.gt(s(a)) && !nan.ge(s(a)));
        assert!(!s(a).lt(nan) && !s(a).le(nan) && !s(a).gt(nan) && !s(a).ge(nan));
        assert!(!nan.equals(s(a)));
    }
    assert!(!nan.equals(nan));
}

#[test]
fn the_two_zeros_are_equal_numbers_but_different_patterns() {
    assert!(s(0.0).equals(s(-0.0)));
    assert!(!s(0.0).lt(s(-0.0)));
    assert!(!s(-0.0).lt(s(0.0)));
    assert_ne!(s(0.0), s(-0.0));
    assert_eq!(s(0.0).ordinal(), 0);
    assert_eq!(s(-0.0).ordinal(), 0);
    assert_eq!(s(0.0).total_ordinal(), 0);
    assert_eq!(s(-0.0).total_ordinal(), -1);
}

#[test]
fn ordinals_grow_with_the_number() {
    for w in SAMPLES.windows(2) {
        assert!(s(w[0]).total_ordinal() < s(w[1]).total_ordinal());
        assert!(s(w[0]).ordinal() <= s(w[1]).ordinal());
        assert!(s(w[0]).sort_ordinal() <= s(w[1]).sort_ordinal());
    }
    assert_eq!(s(f64::NAN).sort_ordinal(), i64::MAX);
    assert_eq!(s(1.0).sort_ordinal(), ONE_BITS as i64);
    assert_eq!(s(-1.0).ordinal(), -(ONE_BITS as i64));
}

#[test]
fn min_and_max_pick_by_number_and_skip_what_is_none() {
    for &a in SAMPLES.iter() {
        for &b in SAMPLES.iter() {
            assert_eq!(f(s(a).min(s(b))), a.min(b));
            assert_eq!(f(s(a).max(s(b))), a.max(b));
        }
        assert_eq!(s(f64::NAN).min(s(a)), s(a));
        assert_eq!(s(a).min(s(f64::NAN)), s(a));
        assert_eq!(s(f64::NAN).max(s(a)), s(a));
        assert_eq!(s(a).max(s(f64::NAN)), s(a));
    }
    assert_eq!(s(0.0).min(s(-0.0)), s(-0.0));
    assert_eq!(s(-0.0).min(s(0.0)), s(-0.0));
    assert_eq!(s(0.0).max(s(-0.0)), s(0.0));
    assert_eq!(s(-0.0).max(s(0.0)), s(0.0));
}

#[test]
fn neg_flips_the_sign_and_abs_clears_it() {
    for &a in SAMPLES.iter() {
        assert_eq!(s(a).neg(), s(-a));
        assert_eq!(s(a).abs(), s(a.abs()));
        assert_eq!(s(a).neg().neg(), s(a));
    }
    assert_eq!(s(0.0).neg().to_bits(), SIGN_BIT);
}

#[test]
fn named_scalars_have_the_patterns_of_their_numbers() {
    assert_eq!(Scalar::zero().to_bits(), 0.0f64.to_bits());
    assert_eq!(Scalar::one().to_bits(), 1.0f64.to_bits());
    assert_eq!(Scalar::infinity().to_bits(), f64::INFINITY.to_bits());
    assert_eq!(Scalar::neg_infinity().to_bits(), f64::NEG_INFINITY.to_bits());
    assert_eq!(INFINITY_BITS, f64::INFINITY.to_bits());
    assert_eq!(ONE_BITS, 1.0f64.to_bits());
    assert_eq!(SIGN_BIT, (-0.0f64).to_bits());
    assert_eq!(NEAR_ZERO_BITS, 1e-8f64.to_bits());
    assert_eq!(Scalar::from_bits(17).to_bits(), 17);
}

#[test]
fn vec3_keeps_its_components() {
    let v = Vec3::new(s(1.0), s(2.0), s(3.0));
    assert_eq!(f(v.x()), 1.0);
    assert_eq!(f(v.y()), 2.0);
    assert_eq!(f(v.z()), 3.0);
    assert_eq!(f(v.get(0)), 1.0);
    assert_eq!(f(v.get(1)), 2.0);
    assert_eq!(f(v.get(2)), 3.0);
    assert_eq!(v.neg(), Vec3::new(s(-1.0), s(-2.0), s(-3.0)));
    assert_eq!(Vec3::splat(s(4.0)), Vec3::new(s(4.0), s(4.0), s(4.0)));
    let w = Vec3::new(s(0.5), s(5.0), s(3.0));
    assert_eq!(v.min(w), Vec3::new(s(0.5), s(2.0), s(3.0)));
    assert_eq!(v.max(w), Vec3::new(s(1.0), s(5.0), s(3.0)));
}

#[test]
fn near_zero_needs_every_component_under_the_bound() {
    assert!(Vec3::new(s(0.0), s(0.0), s(0.0)).near_zero());
    assert!(Vec3::new(s(9.9e-9), s(-9.9e-9), s(-0.0)).near_zero());
    assert!(!Vec3::new(s(1e-8), s(0.0), s(0.0)).near_zero());
    assert!(!Vec3::new(s(0.0), s(-1e-8), s(0.0)).near_zero());
    assert!(!Vec3::new(s(0.0), s(0.0), s(1.0)).near_zero());
    assert!(!Vec3::new(s(f64::NAN), s(0.0), s(0.0)).near_zero());
}

#[test]
fn clamp_holds_a_value_to_the_interval() {
    assert_eq!(f(clamp(s(-0.5), s(0.0), s(0.999))), 0.0);
    assert_eq!(f(clamp(s(0.25), s(0.0), s(0.999))), 0.25);
    assert_eq!(f(clamp(s(7.0), s(0.0), s(0.999))), 0.999);
    assert_eq!(f(clamp(s(0.0), s(0.0), s(1.0))), 0.0);
    assert_eq!(f(clamp(s(1.0), s(0.0), s(1.0))), 1.0);
    assert!(clamp(s(f64::NAN), s(0.0), s(1.0)).is_nan());
}

#[test]
fn place_in_bounds_is_the_remainder_above_the_lower_bound() {
    assert_eq!(place_in_bounds(0, 0, 3), 0);
    assert_eq!(place_in_bounds(7, 0, 3), 1);
    assert_eq!(place_in_bounds(8, 0, 3), 2);
    assert_eq!(place_in_bounds(10, -5, 5), -5);
    assert_eq!(place_in_bounds(19, -5, 5), 4);
    assert_eq!(place_in_bounds(12345, 100, 101), 100);
    assert_eq!(place_in_bounds(usize::MAX, 0, 256), 255);
}

#[test]
fn random_integers_stay_in_their_bounds() {
    let mut seen = [false; 3];
    for _ in 0..300 {
        let n = random_int_with_bounds(0, 3);
        assert!((0..3).contains(&n));
        seen[n as usize] = true;
    }
    assert!(seen.iter().filter(|&&b| b).count() >= 2);
    for _ in 0..50 {
        let n = random_int_with_bounds(-7, -4);
        assert!((-7..-4).contains(&n));
        assert_eq!(random_int_with_bounds(9, 10), 9);
    }
}

#[test]
fn comparisons_agree_with_the_machine_on_many_patterns() {
    let mut state: u64 = 0x9E37_79B9_7F4A_7C15;
    let mut next = move || {
        state ^= state << 13;
        state ^= state >> 7;
        state ^= state << 17;
        state
    };
    for round in 0..200_000 {
        let (mut a, mut b) = (next(), next());
        if round % 4 == 1 {
            b = a ^ (next() & 0xFF);
        }
        if round % 16 == 2 {
            a |= 0x7FF0_0000_0000_0000;
        }
        if round % 32 == 3 {
            b = a ^ SIGN_BIT;
        }
        let (x, y) = (f64::from_bits(a), f64::from_bits(b));
        let (p, q) = (Scalar::from_bits(a), Scalar::from_bits(b));
        assert_eq!(p.is_nan(), x.is_nan());
        assert_eq!(p.lt(q), x < y);
        assert_eq!(p.le(q), x <= y);
        assert_eq!(p.gt(q), x > y);
        assert_eq!(p.ge(q), x >= y);
        assert_eq!(p.equals(q), x == y);
        assert_eq!(p.neg().to_bits(), (-x).to_bits());
        assert_eq!(p.abs().to_bits(), x.abs().to_bits());
        if !x.is_nan() || !y.is_nan() {
            assert!(f(p.min(q)) == x.min(y));
            assert!(f(p.max(q)) == x.max(y));
        }
        assert_eq!(f(clamp(p, s(-1.0), s(1.0))).to_bits(), {
            let mut c = x;
            if c < -1.0 {
                c = -1.0;
            } else if c > 1.0 {
                c = 1.0;
            }
            c.to_bits()
        });
    }
}
