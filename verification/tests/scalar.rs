use rayt::onb::{NINE_TENTHS, ONB};
use rayt::ray::{Ray, INIT_TIME};
use rayt::scalar::{clamp, fmax, fmin, from_bits, to_bits, HALF, INFINITY, NEG_INFINITY, ONE, ZERO};
use rayt::vec3::Vec3;

fn key(x: f64) -> i64 {
    let bits = x.to_bits() as i64;
    if bits < 0 {
        !(bits & i64::MAX)
    } else {
        bits
    }
}

#[test]
fn the_named_keys_are_the_keys_of_their_numbers() {
    assert_eq!(ZERO, key(0.0));
    assert_eq!(ONE, key(1.0));
    assert_eq!(HALF, key(0.5));
    assert_eq!(INFINITY, key(f64::INFINITY));
    assert_eq!(NEG_INFINITY, key(f64::NEG_INFINITY));
    assert_eq!(INIT_TIME, key(0.001));
    assert_eq!(NINE_TENTHS, key(0.9));
}

#[test]
fn keys_compare_as_their_numbers() {
    let numbers = [f64::NEG_INFINITY, -1.0e300, -2.5, -1.0, -1.0e-300, 0.0, 1.0e-300, 0.001, 0.5, 0.9, 1.0, 3.75, 1.0e300, f64::INFINITY];
    for i in 0..numbers.len() {
        for j in 0..numbers.len() {
            assert_eq!(key(numbers[i]) < key(numbers[j]), numbers[i] < numbers[j]);
            assert_eq!(fmin(key(numbers[i]), key(numbers[j])), key(numbers[i].min(numbers[j])));
            assert_eq!(fmax(key(numbers[i]), key(numbers[j])), key(numbers[i].max(numbers[j])));
        }
    }
}

#[test]
fn clamp_holds_a_number_to_the_unit_range() {
    assert_eq!(clamp(key(-0.25), ZERO, ONE), ZERO);
    assert_eq!(clamp(key(0.25), ZERO, ONE), key(0.25));
    assert_eq!(clamp(key(7.0), ZERO, ONE), ONE);
    assert_eq!(clamp(key(7.0), ZERO, key(0.999)), key(0.999));
}

#[test]
fn a_fresh_ray_starts_at_the_origin_at_one_thousandth() {
    let r = Ray::init();
    assert_eq!(r.origin(), Vec3::zero());
    assert_eq!(r.direction(), Vec3::zero());
    assert_eq!(r.time(), key(0.001));
    let s = Ray::new(Vec3::new(1, 2, 3), Vec3::new(4, 5, 6), 7);
    assert_eq!(s.origin(), Vec3::new(1, 2, 3));
    assert_eq!(s.direction(), Vec3::new(4, 5, 6));
    assert_eq!(s.time(), 7);
}

#[test]
fn the_helper_axis_avoids_the_normal() {
    assert_eq!(ONB::helper_axis(key(0.95)), Vec3::new(ZERO, ONE, ZERO));
    assert_eq!(ONB::helper_axis(key(0.9)), Vec3::new(ONE, ZERO, ZERO));
    assert_eq!(ONB::helper_axis(key(0.1)), Vec3::new(ONE, ZERO, ZERO));
}

#[test]
fn a_pattern_has_the_key_of_its_number() {
    let numbers = [f64::NEG_INFINITY, -1.0e300, -2.5, -1.0, -5.0e-324, 0.0, 5.0e-324, 0.001, 0.5, 1.0, 3.75, f64::MAX, f64::INFINITY];
    for x in numbers {
        assert_eq!(from_bits(x.to_bits()), Some(key(x)));
        assert_eq!(f64::from_bits(to_bits(key(x))), x);
    }
    for w in numbers.windows(2) {
        assert!(from_bits(w[0].to_bits()).unwrap() < from_bits(w[1].to_bits()).unwrap());
    }
}

#[test]
fn zero_has_one_key_whatever_its_sign() {
    assert_eq!(from_bits((-0.0f64).to_bits()), Some(ZERO));
    assert_eq!(from_bits(0.0f64.to_bits()), Some(ZERO));
    assert_eq!(to_bits(ZERO), 0);
    assert_eq!(from_bits((-5.0e-324f64).to_bits()), Some(-2));
}

#[test]
fn what_is_not_a_number_has_no_key() {
    assert_eq!(from_bits(f64::NAN.to_bits()), None);
    assert_eq!(from_bits(0x7FF0_0000_0000_0001), None);
    assert_eq!(from_bits(0xFFF8_0000_0000_0000), None);
    assert_eq!(from_bits(0xFFFF_FFFF_FFFF_FFFF), None);
    assert_eq!(from_bits(0x7FF0_0000_0000_0000), Some(INFINITY));
    assert_eq!(from_bits(0xFFF0_0000_0000_0000), Some(NEG_INFINITY));
}
