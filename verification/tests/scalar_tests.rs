use raytracer::scalar::Scalar;
use raytracer::vec2::Vec2;
use raytracer::vec3::Vec3;

fn s(x: f64) -> Scalar {
    Scalar::from_bits(x.to_bits())
}

fn f(x: Scalar) -> f64 {
    f64::from_bits(x.to_bits())
}

fn samples() -> Vec<f64> {
    vec![
        f64::NEG_INFINITY,
        -1.0e300,
        -2.5,
        -1.0,
        -1.0e-300,
        -0.0,
        0.0,
        5.0e-324,
        1.0e-8,
        0.001,
        0.5,
        1.0,
        255.999,
        1.0e300,
        f64::INFINITY,
    ]
}

#[test]
fn bits_round_trip() {
    for x in samples() {
        assert_eq!(f(s(x)).to_bits(), x.to_bits());
    }
    assert!(f(s(f64::NAN)).is_nan());
    assert_eq!(s(1.0).to_bits(), 0x3FF0_0000_0000_0000);
    assert_eq!(Scalar::from_bits(0x8000_0000_0000_0000).key, -1);
    assert_eq!(Scalar::from_bits(u64::MAX).key, i64::MIN);
    assert_eq!(Scalar::from_bits(0).key, 0);
}

#[test]
fn keys_follow_the_total_order() {
    let all = samples();
    for i in 0..all.len() {
        for j in 0..all.len() {
            assert_eq!(s(all[i]).precedes(&s(all[j])), i < j, "{} {}", all[i], all[j]);
            assert_eq!(
                s(all[i]).precedes(&s(all[j])),
                all[i].total_cmp(&all[j]) == std::cmp::Ordering::Less
            );
        }
    }
}

#[test]
fn comparisons_are_those_of_doubles() {
    let mut all = samples();
    all.push(f64::NAN);
    all.push(-f64::NAN);
    for &a in &all {
        for &b in &all {
            assert_eq!(s(a).lt(&s(b)), a < b, "{} < {}", a, b);
            assert_eq!(s(a).le(&s(b)), a <= b, "{} <= {}", a, b);
            assert_eq!(s(a).same(&s(b)), a == b, "{} == {}", a, b);
        }
        assert_eq!(s(a).is_nan(), a.is_nan());
        assert_eq!(s(a).is_zero(), a == 0.0);
        assert_eq!(s(a).is_sign_negative(), a.is_sign_negative());
    }
}

#[test]
fn smaller_and_larger_pass_over_nan() {
    let nan = f64::NAN;
    assert_eq!(f(s(1.0).min(&s(2.0))), 1.0);
    assert_eq!(f(s(1.0).max(&s(2.0))), 2.0);
    assert_eq!(f(s(-3.0).min(&s(2.0))), -3.0);
    assert_eq!(f(s(-3.0).max(&s(-4.0))), -3.0);
    assert_eq!(f(s(nan).min(&s(2.0))), 2.0);
    assert_eq!(f(s(2.0).min(&s(nan))), 2.0);
    assert_eq!(f(s(nan).max(&s(2.0))), 2.0);
    assert_eq!(f(s(-nan).min(&s(2.0))), 2.0);
    assert!(f(s(nan).max(&s(nan))).is_nan());
    assert!(f(s(-0.0).min(&s(0.0))).is_sign_negative());
    assert!(f(s(0.0).max(&s(-0.0))).is_sign_positive());
    for a in samples() {
        for b in samples() {
            if a != b {
                assert_eq!(f(s(a).min(&s(b))), a.min(b));
                assert_eq!(f(s(a).max(&s(b))), a.max(b));
            }
        }
    }
}

#[test]
fn negation_and_magnitude() {
    for x in samples() {
        assert_eq!(f(s(x).neg()).to_bits(), (-x).to_bits());
        assert_eq!(f(s(x).abs()).to_bits(), x.abs().to_bits());
        assert_eq!(s(x).neg().neg(), s(x));
    }
    assert_eq!(s(1.0), Scalar::one());
    assert_eq!(s(-1.0), Scalar::neg_one());
    assert_eq!(s(0.0), Scalar::zero());
    assert_eq!(s(f64::INFINITY), Scalar::infinity());
    assert_eq!(s(0.001).key, raytracer::scalar::SHADOW_EPSILON_KEY);
    assert_eq!(s(1e-8).key, raytracer::scalar::NEAR_ZERO_KEY);
    assert_eq!(s(f64::NEG_INFINITY).key, raytracer::scalar::NEG_INFINITY_KEY);
}

#[test]
fn bytes_are_cut_as_a_cast_cuts_them() {
    assert_eq!(s(0.0).truncate_to_byte(), 0);
    assert_eq!(s(0.999).truncate_to_byte(), 0);
    assert_eq!(s(1.0).truncate_to_byte(), 1);
    assert_eq!(s(1.999).truncate_to_byte(), 1);
    assert_eq!(s(127.9995).truncate_to_byte(), 127);
    assert_eq!(s(0.5 * 255.999).truncate_to_byte(), 127);
    assert_eq!(s(255.0).truncate_to_byte(), 255);
    assert_eq!(s(255.999).truncate_to_byte(), 255);
    assert_eq!(s(256.0).truncate_to_byte(), 255);
    assert_eq!(s(1.0e30).truncate_to_byte(), 255);
    assert_eq!(s(f64::INFINITY).truncate_to_byte(), 255);
    assert_eq!(s(-0.0).truncate_to_byte(), 0);
    assert_eq!(s(-0.5).truncate_to_byte(), 0);
    assert_eq!(s(-300.0).truncate_to_byte(), 0);
    assert_eq!(s(f64::NEG_INFINITY).truncate_to_byte(), 0);
    assert_eq!(s(f64::NAN).truncate_to_byte(), 0);
    assert_eq!(s(-f64::NAN).truncate_to_byte(), 0);
    let mut x = 0.0;
    while x < 300.0 {
        assert_eq!(s(x).truncate_to_byte(), x as u8, "{}", x);
        x += 0.37;
    }
}

#[test]
fn vec3_carries_its_components() {
    let v = Vec3::new(s(1.0), s(-2.0), s(3.5));
    assert_eq!(f(v.x()), 1.0);
    assert_eq!(f(v.y()), -2.0);
    assert_eq!(f(v.z()), 3.5);
    assert_eq!(f(v.axis(0)), 1.0);
    assert_eq!(f(v.axis(1)), -2.0);
    assert_eq!(f(v.axis(2)), 3.5);
    assert_eq!(Vec3::default(), Vec3::new(s(0.0), s(0.0), s(0.0)));
}

#[test]
fn vec3_neg_flips_every_sign() {
    let c = Vec3::new(s(1.0), s(1.0), s(1.0));
    let n = c.neg();
    assert_eq!([-1.0, -1.0, -1.0], [f(n.x()), f(n.y()), f(n.z())]);
    let mixed = Vec3::new(s(0.0), s(-4.5), s(f64::INFINITY)).neg();
    assert!(f(mixed.x()).is_sign_negative());
    assert_eq!(f(mixed.y()), 4.5);
    assert_eq!(f(mixed.z()), f64::NEG_INFINITY);
}

#[test]
fn vec3_smaller_and_larger_are_componentwise() {
    let a = Vec3::new(s(1.0), s(5.0), s(-3.0));
    let b = Vec3::new(s(2.0), s(4.0), s(-3.5));
    assert_eq!(a.min(&b), Vec3::new(s(1.0), s(4.0), s(-3.5)));
    assert_eq!(a.max(&b), Vec3::new(s(2.0), s(5.0), s(-3.0)));
}

#[test]
fn near_zero_is_judged_by_every_component() {
    assert!(Vec3::new(s(0.0), s(0.0), s(0.0)).near_zero());
    assert!(Vec3::new(s(9.9e-9), s(-9.9e-9), s(-0.0)).near_zero());
    assert!(!Vec3::new(s(1.0e-8), s(0.0), s(0.0)).near_zero());
    assert!(!Vec3::new(s(0.0), s(-1.0e-8), s(0.0)).near_zero());
    assert!(!Vec3::new(s(0.0), s(0.0), s(1.0)).near_zero());
    assert!(!Vec3::new(s(f64::NAN), s(0.0), s(0.0)).near_zero());
}

#[test]
fn vec2_carries_its_components() {
    let v = Vec2::new(s(1.0), s(-2.0));
    assert_eq!(f(v.x()), 1.0);
    assert_eq!(f(v.y()), -2.0);
    assert_eq!(Vec2::default(), Vec2::new(s(0.0), s(0.0)));
}
