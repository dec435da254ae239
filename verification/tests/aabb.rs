use rayt::aabb::{longest_axis, surrounding_box, Aabb};
use rayt::scalar::{clamp, fmax, fmin, HALF, ONE, ZERO};
use rayt::vec3::Vec3;

#[test]
fn surrounding_box_takes_extremes() {
    let a = Aabb::new(Vec3::new(-5, 0, 3), Vec3::new(1, 2, 9));
    let b = Aabb::new(Vec3::new(-2, -7, 4), Vec3::new(6, 1, 8));
    let u = surrounding_box(&a, &b);
    assert_eq!(u.min(), Vec3::new(-5, -7, 3));
    assert_eq!(u.max(), Vec3::new(6, 2, 9));
}

#[test]
fn surrounding_box_of_a_box_and_itself() {
    let a = Aabb::new(Vec3::new(-5, 0, 3), Vec3::new(1, 2, 9));
    assert_eq!(surrounding_box(&a, &a), a);
}

#[test]
fn default_box_is_the_origin() {
    let b = Aabb::default();
    assert_eq!(b.min(), Vec3::zero());
    assert_eq!(b.max(), Vec3::zero());
}

#[test]
fn modify_replaces_both_corners() {
    let mut b = Aabb::default();
    b.modify(Vec3::new(1, 2, 3), Vec3::new(4, 5, 6));
    assert_eq!(b, Aabb::new(Vec3::new(1, 2, 3), Vec3::new(4, 5, 6)));
}

#[test]
fn longest_axis_prefers_later_axes_on_ties() {
    assert_eq!(longest_axis(9, 2, 3), 0);
    assert_eq!(longest_axis(2, 9, 3), 1);
    assert_eq!(longest_axis(2, 3, 9), 2);
    assert_eq!(longest_axis(5, 5, 1), 1);
    assert_eq!(longest_axis(5, 5, 5), 2);
    assert_eq!(longest_axis(5, 1, 5), 2);
}

#[test]
fn scalar_order_helpers() {
    assert_eq!(fmin(ZERO, ONE), ZERO);
    assert_eq!(fmax(HALF, ONE), ONE);
    assert_eq!(clamp(-4, ZERO, ONE), ZERO);
    assert_eq!(clamp(HALF, ZERO, ONE), HALF);
    assert_eq!(clamp(ONE + 1, ZERO, ONE), ONE);
}

#[test]
fn vec3_index_reads_the_first_axis_out_of_range() {
    let v = Vec3::new(7, 8, 9);
    assert_eq!(v.index(0), 7);
    assert_eq!(v.index(1), 8);
    assert_eq!(v.index(2), 9);
    assert_eq!(v.index(3), 7);
    assert_eq!(Vec3::ones(), Vec3::from_array([ONE, ONE, ONE]));
}
