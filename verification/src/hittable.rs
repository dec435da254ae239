use vstd::prelude::*;
use crate::aabb::{slabs_overlap, union_of, Aabb, Slab};
use crate::bvh::BvhNode;
use crate::hittable_list::HittableList;
use crate::material::Material;
use crate::scalar::Scalar;
use crate::vec3::{Point3, Vec3};

verus! {

/// A shape that meets rays by a formula of its own (a sphere, a triangle,
/// a cylinder), known here by its place in the scene and by its bounds.
#[derive(Clone, Copy, Debug, PartialEq, Eq, Structural)]
pub struct Primitive {
    pub id: usize,
    pub bbox: Aabb,
}

/// Anything that a ray can be tested against.
#[derive(Debug)]
pub enum Shape {
    Primitive(Primitive),
    BvhNode(Box<BvhNode>),
    HittableList(Box<HittableList>),
}

/// What a shape is: the shape with each list in it read as a sequence.
pub ghost enum ShapeView {
    Primitive(Primitive),
    BvhNode { left: Box<ShapeView>, right: Box<ShapeView>, bbox: Aabb },
    HittableList(Seq<ShapeView>),
}

/// The box around the first `n` of `objects`, where there is at least one
/// and each of them has bounds.
pub open spec fn list_bounds(objects: Seq<ShapeView>, n: nat) -> Option<Aabb>
    decreases objects, n,
{
    if n == 0 || n > objects.len() {
        None
    } else if n == 1 {
        objects[0].bounds()
    } else {
        match (list_bounds(objects, (n - 1) as nat), objects[n - 1].bounds()) {
            (Some(a), Some(b)) => Some(union_of(a, b)),
            _ => None,
        }
    }
}

impl ShapeView {
    /// The bounds of the shape, if it has any: those a primitive was
    /// given, the box of a node, the box around all shapes of a list.
    pub open spec fn bounds(self) -> Option<Aabb>
        decreases self,
    {
        match self {
            ShapeView::Primitive(p) => Some(p.bbox),
            ShapeView::BvhNode { bbox, .. } => Some(bbox),
            ShapeView::HittableList(objects) => list_bounds(objects, objects.len()),
        }
    }
}

/// What a shape is.
pub open spec fn shape_view(shape: Shape) -> ShapeView
    decreases shape,
{
    match shape {
        Shape::Primitive(p) => ShapeView::Primitive(p),
        Shape::BvhNode(n) => ShapeView::BvhNode {
            left: Box::new(shape_view(*n.left)),
            right: Box::new(shape_view(*n.right)),
            bbox: n.bbox,
        },
        Shape::HittableList(l) => ShapeView::HittableList(views(l.objects@)),
    }
}

/// What each of `objects` is, in the same order.
pub open spec fn views(objects: Seq<Shape>) -> Seq<ShapeView>
    decreases objects,
{
    Seq::new(
        objects.len(),
        |i: int|
            if 0 <= i < objects.len() {
                shape_view(objects[i])
            } else {
                ShapeView::HittableList(Seq::empty())
            },
    )
}

impl View for Shape {
    type V = ShapeView;

    open spec fn view(&self) -> ShapeView {
        shape_view(*self)
    }
}

/// Where and how a ray met a surface.
#[derive(Clone, Debug)]
pub struct HitRecord {
    pub p: Point3,
    pub normal: Vec3,
    pub material: Material,
    pub t: Scalar,
    pub u: Scalar,
    pub v: Scalar,
    pub front_face: bool,
}

impl HitRecord {
    /// The record of no hit yet, of a surface of the given material.
    pub fn new(material: Material) -> (rec: Self)
        ensures
            rec == (HitRecord {
                p: Vec3 { x: 0, y: 0, z: 0 },
                normal: Vec3 { x: 0, y: 0, z: 0 },
                material,
                t: 0,
                u: 0,
                v: 0,
                front_face: false,
            }),
    {
        Self {
            p: Point3::zero(),
            normal: Point3::zero(),
            material,
            t: crate::scalar::ZERO,
            u: crate::scalar::ZERO,
            v: crate::scalar::ZERO,
            front_face: false,
        }
    }

    /// Turns the normal against the ray. `facing` is the dot product of
    /// the ray's direction with the outward normal: below zero the ray
    /// meets the front, and the normal is the outward one; else it is
    /// the reversed one.
    pub fn set_face_normal(&mut self, facing: Scalar, outward_normal: &Vec3, reversed_normal: &Vec3)
        ensures
            *final(self) == (HitRecord {
                front_face: facing < 0,
                normal: if facing < 0 {
                    *outward_normal
                } else {
                    *reversed_normal
                },
                ..*old(self)
            }),
    {
        self.front_face = facing < crate::scalar::ZERO;
        self.normal = if self.front_face {
            *outward_normal
        } else {
            *reversed_normal
        };
    }
}

/// The distance of a hit, if there is one.
pub open spec fn distance(hit: Option<HitRecord>) -> Option<Scalar> {
    match hit {
        Some(rec) => Some(rec.t),
        None => None,
    }
}

/// The far end of the range that is left to search once `hit` was found:
/// the distance of the hit, or `t_max` where there is none.
pub open spec fn closest_so_far(hit: Option<HitRecord>, t_max: Scalar) -> Scalar {
    match hit {
        Some(rec) => rec.t,
        None => t_max,
    }
}

/// The later of two findings along one search: `later`, if it is a hit,
/// else `sooner`.
pub open spec fn nearer(sooner: Option<HitRecord>, later: Option<HitRecord>) -> Option<HitRecord> {
    match later {
        Some(_) => later,
        None => sooner,
    }
}

/// `slabs_of` can be asked about every box and gives one answer for each.
pub open spec fn slabs_answered<B: Fn(Aabb) -> [Slab; 3]>(slabs_of: B) -> bool {
    &&& forall|b: Aabb| call_requires(slabs_of, (b,))
    &&& forall|b: Aabb, s1: [Slab; 3], s2: [Slab; 3]|
        call_ensures(slabs_of, (b,), s1) && call_ensures(slabs_of, (b,), s2) ==> s1 == s2
}

/// `leaf` can be asked about every primitive and range and gives one
/// answer for each.
pub open spec fn hits_answered<L: Fn(Primitive, Scalar, Scalar) -> Option<HitRecord>>(
    leaf: L,
) -> bool {
    &&& forall|p: Primitive, lo: Scalar, hi: Scalar| call_requires(leaf, (p, lo, hi))
    &&& forall|p: Primitive, lo: Scalar, hi: Scalar, r1: Option<HitRecord>, r2: Option<HitRecord>|
        call_ensures(leaf, (p, lo, hi), r1) && call_ensures(leaf, (p, lo, hi), r2) ==> r1 == r2
}

/// The slabs that `slabs_of` finds for a box.
pub open spec fn slab_answer<B: Fn(Aabb) -> [Slab; 3]>(slabs_of: B, b: Aabb) -> Seq<Slab> {
    (choose|s: [Slab; 3]| call_ensures(slabs_of, (b,), s))@
}

/// The hit that `leaf` finds on a primitive within a range.
pub open spec fn leaf_answer<L: Fn(Primitive, Scalar, Scalar) -> Option<HitRecord>>(
    leaf: L,
    p: Primitive,
    lo: Scalar,
    hi: Scalar,
) -> Option<HitRecord> {
    choose|r: Option<HitRecord>| call_ensures(leaf, (p, lo, hi), r)
}

/// What a search of the first `n` of `objects` finds between `t_min` and
/// `t_max`: each shape is searched up to the nearest hit found before it,
/// and the last hit found is the answer.
pub open spec fn list_hit<B: Fn(Aabb) -> [Slab; 3], L: Fn(Primitive, Scalar, Scalar) -> Option<HitRecord>>(
    objects: Seq<ShapeView>,
    n: nat,
    slabs_of: B,
    leaf: L,
    t_min: Scalar,
    t_max: Scalar,
) -> Option<HitRecord>
    decreases objects, n,
{
    if n == 0 || n > objects.len() {
        None
    } else {
        let before = list_hit(objects, (n - 1) as nat, slabs_of, leaf, t_min, t_max);
        nearer(
            before,
            shape_hit(objects[n - 1], slabs_of, leaf, t_min, closest_so_far(before, t_max)),
        )
    }
}

/// What a search of `shape` finds between `t_min` and `t_max`. A
/// primitive answers for itself. A node is passed by where the ray
/// misses its box; else its left child is searched, then its right
/// child up to the hit found on the left.
pub open spec fn shape_hit<B: Fn(Aabb) -> [Slab; 3], L: Fn(Primitive, Scalar, Scalar) -> Option<HitRecord>>(
    shape: ShapeView,
    slabs_of: B,
    leaf: L,
    t_min: Scalar,
    t_max: Scalar,
) -> Option<HitRecord>
    decreases shape,
{
    match shape {
        ShapeView::Primitive(p) => leaf_answer(leaf, p, t_min, t_max),
        ShapeView::BvhNode { left, right, bbox } => {
            if !slabs_overlap(slab_answer(slabs_of, bbox), t_min, t_max) {
                None
            } else {
                let hit_left = shape_hit(*left, slabs_of, leaf, t_min, t_max);
                nearer(
                    hit_left,
                    shape_hit(*right, slabs_of, leaf, t_min, closest_so_far(hit_left, t_max)),
                )
            }
        },
        ShapeView::HittableList(objects) => list_hit(
            objects,
            objects.len(),
            slabs_of,
            leaf,
            t_min,
            t_max,
        ),
    }
}

impl Shape {
    pub fn new_primitive(id: usize, bbox: Aabb) -> (s: Self)
        ensures
            s@ == ShapeView::Primitive(Primitive { id, bbox }),
    {
        Shape::Primitive(Primitive { id, bbox })
    }

    pub fn new_hittable_list() -> (s: Self)
        ensures
            s@ == ShapeView::HittableList(Seq::empty()),
    {
        Shape::HittableList(Box::new(HittableList::default()))
    }

    /// The bounds of the shape: those a primitive was given, the box of a
    /// node, the box around all shapes of a list. `None` for an empty
    /// list and for one that holds a shape without bounds.
    pub fn bounding_box(&self) -> (b: Option<Aabb>)
        ensures
            b == self@.bounds(),
        decreases *self,
    {
        match self {
            Shape::Primitive(p) => Some(p.bbox),
            Shape::BvhNode(n) => n.bounding_box(),
            Shape::HittableList(l) => l.bounding_box(),
        }
    }

    /// Searches the shape for the nearest hit between `t_min` and
    /// `t_max`. `slabs_of` finds where the ray crosses the planes of a
    /// box, `leaf` the hit on a primitive within a range.
    pub fn hit<B: Fn(Aabb) -> [Slab; 3], L: Fn(Primitive, Scalar, Scalar) -> Option<HitRecord>>(
        &self,
        slabs_of: &B,
        leaf: &L,
        t_min: Scalar,
        t_max: Scalar,
    ) -> (rec: Option<HitRecord>)
        requires
            slabs_answered(*slabs_of),
            hits_answered(*leaf),
        ensures
            rec == shape_hit(self@, *slabs_of, *leaf, t_min, t_max),
        decreases *self,
    {
        match self {
            Shape::Primitive(p) => leaf(*p, t_min, t_max),
            Shape::BvhNode(n) => n.hit(slabs_of, leaf, t_min, t_max),
            Shape::HittableList(l) => l.hit(slabs_of, leaf, t_min, t_max),
        }
    }

    /// The density with which a direction towards the shape is drawn:
    /// what `value_of` finds for a primitive, and zero for any other
    /// shape.
    pub fn pdf_value<F: Fn(Primitive) -> Scalar>(&self, value_of: &F) -> (density: Scalar)
        requires
            forall|p: Primitive| call_requires(*value_of, (p,)),
        ensures
            match *self {
                Shape::Primitive(p) => call_ensures(*value_of, (p,), density),
                _ => density == 0,
            },
    {
        match self {
            Shape::Primitive(p) => value_of(*p),
            _ => crate::scalar::ZERO,
        }
    }

    /// A direction towards the shape: what `draw` finds for a primitive,
    /// and the diagonal of the axes for any other shape.
    pub fn random<F: Fn(Primitive) -> Vec3>(&self, draw: &F) -> (direction: Vec3)
        requires
            forall|p: Primitive| call_requires(*draw, (p,)),
        ensures
            match *self {
                Shape::Primitive(p) => call_ensures(*draw, (p,), direction),
                _ => direction == (Vec3 {
                    x: crate::scalar::ONE,
                    y: crate::scalar::ONE,
                    z: crate::scalar::ONE,
                }),
            },
    {
        match self {
            Shape::Primitive(p) => draw(*p),
            _ => Vec3::ones(),
        }
    }

    /// Appends `obj` where the shape is a list; any other shape stays as
    /// it is.
    pub fn add(&mut self, obj: Shape)
        ensures
            final(self)@ == match old(self)@ {
                ShapeView::HittableList(objects) => ShapeView::HittableList(objects.push(obj@)),
                other => other,
            },
    {
        match self {
            Shape::HittableList(m) => m.add(obj),
            _ => {},
        }
    }
}

impl Clone for Shape {
    /// A copy that owns all it holds.
    fn clone(&self) -> (s: Self)
        ensures
            s@ == self@,
        decreases *self,
    {
        match self {
            Shape::Primitive(p) => Shape::Primitive(*p),
            Shape::BvhNode(n) => Shape::BvhNode(Box::new(n.duplicate())),
            Shape::HittableList(l) => Shape::HittableList(Box::new(l.duplicate())),
        }
    }
}

} // verus!
