use vstd::prelude::*;
use crate::scalar::{fmax, fmin, max_of, min_of, Scalar};
use crate::vec3::{Point3, Vec3};

verus! {

/// An axis-aligned box, given by its two extreme corners.
#[derive(Clone, Copy, Debug, PartialEq, Eq, Structural)]
pub struct Aabb {
    pub minimum: Point3,
    pub maximum: Point3,
}

/// The componentwise smaller of two points.
pub open spec fn lower_corner(p: Point3, q: Point3) -> Point3 {
    Vec3 { x: min_of(p.x, q.x), y: min_of(p.y, q.y), z: min_of(p.z, q.z) }
}

/// The componentwise larger of two points.
pub open spec fn upper_corner(p: Point3, q: Point3) -> Point3 {
    Vec3 { x: max_of(p.x, q.x), y: max_of(p.y, q.y), z: max_of(p.z, q.z) }
}

/// The smallest box that holds both `a` and `b`.
pub open spec fn union_of(a: Aabb, b: Aabb) -> Aabb {
    Aabb {
        minimum: lower_corner(a.minimum, b.minimum),
        maximum: upper_corner(a.maximum, b.maximum),
    }
}

impl Aabb {
    /// On every axis the lower corner is not above the upper one.
    pub open spec fn ordered(self) -> bool {
        &&& self.minimum.x <= self.maximum.x
        &&& self.minimum.y <= self.maximum.y
        &&& self.minimum.z <= self.maximum.z
    }

    /// `inner` lies within `self` on every axis.
    pub open spec fn contains(self, inner: Aabb) -> bool {
        &&& self.minimum.x <= inner.minimum.x
        &&& self.minimum.y <= inner.minimum.y
        &&& self.minimum.z <= inner.minimum.z
        &&& inner.maximum.x <= self.maximum.x
        &&& inner.maximum.y <= self.maximum.y
        &&& inner.maximum.z <= self.maximum.z
    }

    pub fn new(minimum: Point3, maximum: Point3) -> (b: Self)
        ensures
            b == (Aabb { minimum, maximum }),
    {
        Self { minimum, maximum }
    }

    /// The box that holds the origin alone.
    pub fn default() -> (b: Self)
        ensures
            b == (Aabb { minimum: Vec3 { x: 0, y: 0, z: 0 }, maximum: Vec3 { x: 0, y: 0, z: 0 } }),
    {
        Self { minimum: Point3::zero(), maximum: Point3::zero() }
    }

    pub fn modify(&mut self, minimum: Point3, maximum: Point3)
        ensures
            *final(self) == (Aabb { minimum, maximum }),
    {
        self.minimum = minimum;
        self.maximum = maximum;
    }

    pub fn max(&self) -> (p: Point3)
        ensures
            p == self.maximum,
    {
        self.maximum
    }

    pub fn min(&self) -> (p: Point3)
        ensures
            p == self.minimum,
    {
        self.minimum
    }
}

/// The smallest box that holds both boxes: the componentwise smaller of
/// the lower corners and the componentwise larger of the upper ones.
pub fn surrounding_box(box0: &Aabb, box1: &Aabb) -> (b: Aabb)
    ensures
        b == union_of(*box0, *box1),
{
    let small = Point3::from_array(
        [
            fmin(box0.min().x, box1.min().x),
            fmin(box0.min().y, box1.min().y),
            fmin(box0.min().z, box1.min().z),
        ],
    );
    let big = Point3::from_array(
        [
            fmax(box0.max().x, box1.max().x),
            fmax(box0.max().y, box1.max().y),
            fmax(box0.max().z, box1.max().z),
        ],
    );
    Aabb::new(small, big)
}

/// The box around a box and itself is that box.
pub proof fn lemma_surrounding_box_idempotent(b: Aabb)
    ensures
        union_of(b, b) == b,
{
}

/// The box around two boxes holds each of them, and is ordered where
/// one of them is.
pub proof fn lemma_surrounding_box_contains(a: Aabb, b: Aabb)
    ensures
        union_of(a, b).contains(a),
        union_of(a, b).contains(b),
        a.ordered() || b.ordered() ==> union_of(a, b).ordered(),
{
}

/// No smaller box holds both: every box that holds `a` and `b` holds the
/// box around them.
pub proof fn lemma_surrounding_box_least(a: Aabb, b: Aabb, outer: Aabb)
    requires
        outer.contains(a),
        outer.contains(b),
    ensures
        outer.contains(union_of(a, b)),
{
}

/// The box around boxes does not depend on their order or grouping.
pub proof fn lemma_surrounding_box_order(a: Aabb, b: Aabb, c: Aabb)
    ensures
        union_of(a, b) == union_of(b, a),
        union_of(union_of(a, b), c) == union_of(a, union_of(b, c)),
{
}

/// The longest of three extents: the first axis where its extent is above
/// both others, else the second where its extent is above the third's,
/// else the third.
pub open spec fn longest_of(a: Scalar, b: Scalar, c: Scalar) -> u32 {
    if a > b && a > c {
        0
    } else if b > c {
        1
    } else {
        2
    }
}

/// Picks the axis of the longest extent, given the box's three extents.
pub fn longest_axis(a: Scalar, b: Scalar, c: Scalar) -> (axis: u32)
    ensures
        axis == longest_of(a, b, c),
        axis < 3,
{
    if a > b && a > c {
        0
    } else if b > c {
        1
    } else {
        2
    }
}

/// Where a ray crosses the two planes that bound a box on one axis, as
/// parameters along the ray, in either order. The caller finds them as
/// the plane's coordinate less the origin's, over the direction's.
#[derive(Clone, Copy, Debug, PartialEq, Eq, Structural)]
pub struct Slab {
    pub a: Scalar,
    pub b: Scalar,
}

impl Slab {
    /// The parameter at which the ray enters the slab.
    pub open spec fn entry(self) -> Scalar {
        min_of(self.a, self.b)
    }

    /// The parameter at which the ray leaves the slab.
    pub open spec fn exit(self) -> Scalar {
        max_of(self.a, self.b)
    }
}

/// The latest entry among `t_min` and the first `n` slabs.
pub open spec fn entry_after(slabs: Seq<Slab>, t_min: Scalar, n: int) -> Scalar
    decreases n,
{
    if n <= 0 {
        t_min
    } else {
        max_of(entry_after(slabs, t_min, n - 1), slabs[n - 1].entry())
    }
}

/// The earliest exit among `t_max` and the first `n` slabs.
pub open spec fn exit_after(slabs: Seq<Slab>, t_max: Scalar, n: int) -> Scalar
    decreases n,
{
    if n <= 0 {
        t_max
    } else {
        min_of(exit_after(slabs, t_max, n - 1), slabs[n - 1].exit())
    }
}

/// The ray is inside all three slabs at once somewhere strictly between
/// `t_min` and `t_max`: its latest entry comes before its earliest exit.
pub open spec fn slabs_overlap(slabs: Seq<Slab>, t_min: Scalar, t_max: Scalar) -> bool {
    entry_after(slabs, t_min, 3) < exit_after(slabs, t_max, 3)
}

/// Every entry, `t_min` among them, comes before every exit, `t_max`
/// among them.
pub open spec fn entries_before_exits(slabs: Seq<Slab>, t_min: Scalar, t_max: Scalar) -> bool {
    &&& t_min < t_max
    &&& forall|i: int| 0 <= i < 3 ==> t_min < (#[trigger] slabs[i]).exit()
    &&& forall|i: int| 0 <= i < 3 ==> (#[trigger] slabs[i]).entry() < t_max
    &&& forall|i: int, j: int|
        0 <= i < 3 && 0 <= j < 3 ==> (#[trigger] slabs[i]).entry() < (#[trigger] slabs[j]).exit()
}

/// The slab test of a box: narrows the interval from `t_min` to `t_max`
/// by each axis in turn and rejects as soon as nothing is left of it.
pub fn hit_slabs(slabs: &[Slab; 3], t_min: Scalar, t_max: Scalar) -> (hit: bool)
    ensures
        hit == slabs_overlap(slabs@, t_min, t_max),
{
    let mut t0 = t_min;
    let mut t1 = t_max;
    let mut a: usize = 0;
    while a < 3
        invariant
            a <= 3,
            t0 == entry_after(slabs@, t_min, a as int),
            t1 == exit_after(slabs@, t_max, a as int),
            a > 0 ==> t0 < t1,
        decreases 3 - a,
    {
        t0 = fmax(t0, fmin(slabs[a].a, slabs[a].b));
        t1 = fmin(t1, fmax(slabs[a].a, slabs[a].b));
        if t1 <= t0 {
            proof {
                lemma_window_shrinks(slabs@, t_min, t_max, a as int + 1, 3);
            }
            return false;
        }
        a += 1;
    }
    true
}

/// Each further axis can only move the entry later and the exit earlier.
pub proof fn lemma_window_shrinks(slabs: Seq<Slab>, t_min: Scalar, t_max: Scalar, m: int, n: int)
    requires
        0 <= m <= n,
    ensures
        entry_after(slabs, t_min, m) <= entry_after(slabs, t_min, n),
        exit_after(slabs, t_max, n) <= exit_after(slabs, t_max, m),
    decreases n - m,
{
    if m < n {
        lemma_window_shrinks(slabs, t_min, t_max, m, n - 1);
    }
}

/// The slab test holds exactly where every entry is before every exit.
pub proof fn lemma_slabs_overlap_pairwise(slabs: Seq<Slab>, t_min: Scalar, t_max: Scalar)
    requires
        slabs.len() == 3,
    ensures
        slabs_overlap(slabs, t_min, t_max) == entries_before_exits(slabs, t_min, t_max),
{
    reveal_with_fuel(entry_after, 4);
    reveal_with_fuel(exit_after, 4);
    if entries_before_exits(slabs, t_min, t_max) {
        assert(slabs[0].entry() < slabs[0].exit());
        assert(slabs[1].entry() < slabs[2].exit());
        assert(slabs[2].entry() < slabs[1].exit());
    }
}

/// The slab test does not depend on the order in which the axes are
/// taken: exchanging any two slabs leaves its answer as it was.
pub proof fn lemma_slabs_overlap_any_axis_order(
    slabs: Seq<Slab>,
    i: int,
    j: int,
    t_min: Scalar,
    t_max: Scalar,
)
    requires
        slabs.len() == 3,
        0 <= i < 3,
        0 <= j < 3,
    ensures
        slabs_overlap(slabs.update(i, slabs[j]).update(j, slabs[i]), t_min, t_max)
            == slabs_overlap(slabs, t_min, t_max),
{
    reveal_with_fuel(entry_after, 4);
    reveal_with_fuel(exit_after, 4);
}

/// The slab test does not depend on the side from which the ray meets an
/// axis: exchanging the two crossings of a slab leaves its answer as it was.
pub proof fn lemma_slabs_overlap_any_side(slabs: Seq<Slab>, i: int, t_min: Scalar, t_max: Scalar)
    requires
        slabs.len() == 3,
        0 <= i < 3,
    ensures
        slabs_overlap(slabs.update(i, Slab { a: slabs[i].b, b: slabs[i].a }), t_min, t_max)
            == slabs_overlap(slabs, t_min, t_max),
{
    reveal_with_fuel(entry_after, 4);
    reveal_with_fuel(exit_after, 4);
}

/// At the parameter `t` the ray is within the range and within each of
/// the three slabs, their bounds included.
pub open spec fn inside_at(slabs: Seq<Slab>, t_min: Scalar, t_max: Scalar, t: Scalar) -> bool {
    &&& t_min <= t <= t_max
    &&& forall|i: int| 0 <= i < 3 ==> (#[trigger] slabs[i]).entry() <= t <= slabs[i].exit()
}

/// At the parameter `t` the ray is within the range and within each of
/// the three slabs, and on no bound of them.
pub open spec fn strictly_inside_at(slabs: Seq<Slab>, t_min: Scalar, t_max: Scalar, t: Scalar) -> bool {
    &&& t_min < t < t_max
    &&& forall|i: int| 0 <= i < 3 ==> (#[trigger] slabs[i]).entry() < t < slabs[i].exit()
}

/// The slab test holds only where the ray passes through the box within
/// the range, and it holds wherever the ray does so off the faces of the
/// box and off the ends of the range.
pub proof fn lemma_slabs_overlap_passes_through(slabs: Seq<Slab>, t_min: Scalar, t_max: Scalar)
    requires
        slabs.len() == 3,
    ensures
        slabs_overlap(slabs, t_min, t_max) ==> exists|t: Scalar|
            inside_at(slabs, t_min, t_max, t),
        forall|t: Scalar| #[trigger]
            strictly_inside_at(slabs, t_min, t_max, t) ==> slabs_overlap(slabs, t_min, t_max),
{
    reveal_with_fuel(entry_after, 4);
    reveal_with_fuel(exit_after, 4);
    if slabs_overlap(slabs, t_min, t_max) {
        assert(inside_at(slabs, t_min, t_max, entry_after(slabs, t_min, 3)));
    }
    assert forall|t: Scalar| #[trigger]
        strictly_inside_at(slabs, t_min, t_max, t) implies slabs_overlap(slabs, t_min, t_max) by {
        assert(slabs[0].entry() < t < slabs[0].exit());
        assert(slabs[1].entry() < t < slabs[1].exit());
        assert(slabs[2].entry() < t < slabs[2].exit());
    }
}

} // verus!
