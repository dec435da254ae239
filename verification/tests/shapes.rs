use rayt::aabb::{hit_slabs, Aabb, Slab};
use rayt::cylinder::{hit_distance, select_surface, Surface};
use rayt::hittable::{Primitive, Shape};
use rayt::scalar::{INFINITY, NEG_INFINITY, ONE, ZERO};
use rayt::sphere::{crosses, select_root};
use rayt::triangle::accepts;
use rayt::vec3::Vec3;

fn key(x: f64) -> i64 {
    rayt::scalar::from_bits(x.to_bits()).expect("a number")
}

fn slabs_of(low: [f64; 3], high: [f64; 3], origin: [f64; 3], direction: [f64; 3]) -> [Slab; 3] {
    let s = |a: usize| Slab {
        a: key((low[a] - origin[a]) / direction[a]),
        b: key((high[a] - origin[a]) / direction[a]),
    };
    [s(0), s(1), s(2)]
}

#[test]
fn a_ray_through_a_box_hits_it() {
    let s = slabs_of([-1.0; 3], [1.0; 3], [-5.0, 0.1, 0.2], [1.0, 0.01, 0.02]);
    assert!(hit_slabs(&s, NEG_INFINITY, INFINITY));
    assert!(hit_slabs(&s, key(0.001), INFINITY));
    assert!(!hit_slabs(&s, key(0.001), key(3.9)));
    assert!(!hit_slabs(&s, key(6.1), INFINITY));
}

#[test]
fn a_ray_past_a_box_misses_it() {
    let s = slabs_of([-1.0; 3], [1.0; 3], [-5.0, 3.0, 0.0], [1.0, 0.01, 0.02]);
    assert!(!hit_slabs(&s, NEG_INFINITY, INFINITY));
    let t = slabs_of([-1.0; 3], [1.0; 3], [-5.0, -5.0, 0.0], [1.0, 0.0, 0.0]);
    assert!(!hit_slabs(&t, NEG_INFINITY, INFINITY));
}

#[test]
fn a_line_crosses_slabs_that_do_not_meet_at_once() {
    let s = [Slab { a: 1, b: 2 }, Slab { a: 3, b: 4 }, Slab { a: 0, b: 10 }];
    assert!(!hit_slabs(&s, -100, 100));
}

#[test]
fn the_slab_test_does_not_depend_on_the_order_of_the_axes() {
    let cases = [
        slabs_of([-1.0; 3], [1.0; 3], [-5.0, 0.1, 0.2], [1.0, 0.01, 0.02]),
        slabs_of([-1.0; 3], [1.0; 3], [-5.0, 3.0, 0.0], [1.0, 0.01, 0.02]),
        slabs_of([0.0, 2.0, -3.0], [1.0, 4.0, 5.0], [0.5, 0.0, 0.0], [0.1, 1.0, 0.3]),
        [Slab { a: 1, b: 2 }, Slab { a: 3, b: 4 }, Slab { a: 0, b: 10 }],
    ];
    let orders = [[0, 1, 2], [0, 2, 1], [1, 0, 2], [1, 2, 0], [2, 0, 1], [2, 1, 0]];
    for s in cases.iter() {
        let expected = hit_slabs(s, key(0.001), INFINITY);
        for o in orders.iter() {
            let permuted = [s[o[0]], s[o[1]], s[o[2]]];
            assert_eq!(hit_slabs(&permuted, key(0.001), INFINITY), expected);
            let turned = [Slab { a: s[o[0]].b, b: s[o[0]].a }, s[o[1]], s[o[2]]];
            assert_eq!(hit_slabs(&turned, key(0.001), INFINITY), expected);
        }
    }
}

#[test]
fn a_sphere_is_hit_at_its_nearer_crossing_in_range() {
    assert!(crosses(key(0.25)));
    assert!(crosses(ZERO));
    assert!(!crosses(key(-0.25)));
    assert_eq!(select_root(key(2.0), key(4.0), key(0.001), INFINITY), Some(key(2.0)));
    assert_eq!(select_root(key(-2.0), key(4.0), key(0.001), INFINITY), Some(key(4.0)));
    assert_eq!(select_root(key(-4.0), key(-2.0), key(0.001), INFINITY), None);
    assert_eq!(select_root(key(2.0), key(4.0), key(0.001), key(1.0)), None);
    assert_eq!(select_root(key(2.0), key(4.0), key(2.0), key(2.0)), Some(key(2.0)));
    assert_eq!(select_root(key(2.0), key(4.0), key(3.0), key(4.0)), Some(key(4.0)));
}

#[test]
fn a_triangle_is_hit_within_its_corners() {
    let lo = key(0.001);
    assert!(accepts(key(2.0), key(0.2), key(0.3), key(0.5), lo, INFINITY));
    assert!(accepts(key(2.0), ZERO, ZERO, ZERO, lo, INFINITY));
    assert!(accepts(key(2.0), key(0.5), key(0.5), ONE, lo, INFINITY));
    assert!(!accepts(key(2.0), key(-0.1), key(0.3), key(0.2), lo, INFINITY));
    assert!(!accepts(key(2.0), key(0.3), key(-0.1), key(0.2), lo, INFINITY));
    assert!(!accepts(key(2.0), key(0.6), key(0.5), key(1.1), lo, INFINITY));
    assert!(!accepts(key(0.0005), key(0.2), key(0.3), key(0.5), lo, INFINITY));
    assert!(!accepts(key(2.0), key(0.2), key(0.3), key(0.5), lo, key(1.5)));
}

#[test]
fn a_cylinder_prefers_its_wall() {
    let d = key(2.0);
    assert_eq!(select_surface(key(1.0), key(1.5), d), Some(Surface::Side));
    assert_eq!(select_surface(key(1.0), key(3.0), d), Some(Surface::Side));
    assert_eq!(select_surface(key(3.0), key(1.0), d), Some(Surface::Cap));
    assert_eq!(select_surface(key(-1.0), key(1.0), d), Some(Surface::Cap));
    assert_eq!(select_surface(ZERO, d, d), None);
    assert_eq!(select_surface(key(-1.0), key(3.0), d), None);
    assert_eq!(hit_distance(key(1.0), key(0.001), INFINITY), Some(key(1.0)));
    assert_eq!(hit_distance(key(-1.0), key(0.001), INFINITY), None);
    assert_eq!(hit_distance(key(5.0), key(0.001), key(4.0)), None);
}

#[test]
fn only_primitives_are_sampled_as_lights() {
    let ball = Shape::new_primitive(3, Aabb::default());
    let value_of = |p: Primitive| 100 + p.id as i64;
    let draw = |p: Primitive| Vec3::new(p.id as i64, 0, 0);
    assert_eq!(ball.pdf_value(&value_of), 103);
    assert_eq!(ball.random(&draw), Vec3::new(3, 0, 0));
    let mut list = Shape::new_hittable_list();
    list.add(ball);
    assert_eq!(list.pdf_value(&value_of), ZERO);
    assert_eq!(list.random(&draw), Vec3::ones());
}
