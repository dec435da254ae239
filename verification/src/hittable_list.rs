use vstd::prelude::*;
use crate::aabb::{surrounding_box, Aabb, Slab};
use crate::hittable::{
    hits_answered, list_bounds, list_hit, slabs_answered, views, HitRecord, Primitive, Shape,
    ShapeView,
};
use crate::scalar::Scalar;

verus! {

/// Shapes in the order in which they were added.
#[derive(Debug)]
pub struct HittableList {
    pub objects: Vec<Shape>,
}

impl View for HittableList {
    type V = Seq<ShapeView>;

    open spec fn view(&self) -> Seq<ShapeView> {
        views(self.objects@)
    }
}

impl HittableList {
    /// The list without any shape.
    pub fn default() -> (l: Self)
        ensures
            l@ == Seq::<ShapeView>::empty(),
    {
        let l = HittableList { objects: Vec::new() };
        assert(l@ =~= Seq::<ShapeView>::empty());
        l
    }

    /// Appends `object`; what was in the list stays in its place.
    pub fn add(&mut self, object: Shape)
        ensures
            final(self)@ == old(self)@.push(object@),
    {
        self.objects.push(object);
        proof {
            lemma_views_push(old(self).objects@, object);
        }
    }

    /// The box around all shapes of the list; `None` where the list is
    /// empty or holds a shape without bounds.
    pub fn bounding_box(&self) -> (b: Option<Aabb>)
        ensures
            b == list_bounds(self@, self@.len()),
        decreases *self, 1nat,
    {
        if self.objects.is_empty() {
            return None;
        }
        let mut output_box = match self.objects[0].bounding_box() {
            Some(b) => b,
            None => {
                proof {
                    lemma_list_bounds_none(self@, 1, self@.len());
                }
                return None;
            },
        };
        let mut i: usize = 1;
        while i < self.objects.len()
            invariant
                1 <= i <= self.objects.len(),
                list_bounds(self@, i as nat) == Some(output_box),
            decreases self.objects.len() - i,
        {
            match self.objects[i].bounding_box() {
                Some(temp_box) => {
                    output_box = surrounding_box(&output_box, &temp_box);
                },
                None => {
                    proof {
                        lemma_list_bounds_none(self@, (i + 1) as nat, self@.len());
                    }
                    return None;
                },
            }
            i += 1;
        }
        Some(output_box)
    }

    /// Searches all shapes of the list for the nearest hit between
    /// `t_min` and `t_max`: each shape is searched up to the nearest hit
    /// found before it.
    pub fn hit<B: Fn(Aabb) -> [Slab; 3], L: Fn(Primitive, Scalar, Scalar) -> Option<HitRecord>>(
        &self,
        slabs_of: &B,
        leaf: &L,
        t_min: Scalar,
        t_max: Scalar,
    ) -> (rec: Option<HitRecord>)
        requires
            slabs_answered(*slabs_of),
            hits_answered(*leaf),
        ensures
            rec == list_hit(self@, self@.len(), *slabs_of, *leaf, t_min, t_max),
        decreases *self, 1nat,
    {
        let mut best: Option<HitRecord> = None;
        let mut closest = t_max;
        let mut i: usize = 0;
        while i < self.objects.len()
            invariant
                i <= self.objects.len(),
                slabs_answered(*slabs_of),
                hits_answered(*leaf),
                best == list_hit(self@, i as nat, *slabs_of, *leaf, t_min, t_max),
                closest == crate::hittable::closest_so_far(best, t_max),
            decreases self.objects.len() - i,
        {
            match self.objects[i].hit(slabs_of, leaf, t_min, closest) {
                Some(rec) => {
                    closest = rec.t;
                    best = Some(rec);
                },
                None => {},
            }
            i += 1;
        }
        best
    }

    /// A copy that owns copies of all shapes of the list.
    pub fn duplicate(&self) -> (l: Self)
        ensures
            l@ == self@,
        decreases *self, 1nat,
    {
        let mut objects: Vec<Shape> = Vec::new();
        let mut i: usize = 0;
        while i < self.objects.len()
            invariant
                i <= self.objects.len(),
                views(objects@) == self@.take(i as int),
            decreases self.objects.len() - i,
        {
            let ghost before = objects@;
            let copy = self.objects[i].clone();
            objects.push(copy);
            proof {
                lemma_views_push(before, copy);
                assert(self@.take(i + 1) =~= self@.take(i as int).push(self@[i as int]));
            }
            i += 1;
        }
        assert(views(objects@) =~= self@);
        HittableList { objects }
    }
}

/// What a sequence with one more shape is: what it was, with what the
/// shape is at its end.
pub proof fn lemma_views_push(objects: Seq<Shape>, object: Shape)
    ensures
        views(objects.push(object)) == views(objects).push(object@),
{
    assert(views(objects.push(object)) =~= views(objects).push(object@));
}

/// Once a beginning of the list is without bounds, so is every longer one.
pub proof fn lemma_list_bounds_none(objects: Seq<ShapeView>, m: nat, n: nat)
    requires
        1 <= m <= n <= objects.len(),
        list_bounds(objects, m) is None,
    ensures
        list_bounds(objects, n) is None,
    decreases n,
{
    if m < n {
        lemma_list_bounds_none(objects, m, (n - 1) as nat);
    }
}

} // verus!
