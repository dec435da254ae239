use vstd::arithmetic::power2::{lemma_pow2_unfold, pow2};
use vstd::prelude::*;
use crate::aabb::{hit_slabs, surrounding_box, union_of, Aabb, Slab};
use crate::hittable::{
    hits_answered, shape_hit, shape_view, slabs_answered, HitRecord, Primitive, Shape, ShapeView,
};
use crate::order::{
    bounds_or_default, box_key, box_key_of, lemma_rearranged_member, lemma_rearranged_twice,
    lemma_rearranged_widen, ordered_on_axis, rearranged, sort_range,
};
use crate::random::random_below;
use crate::scalar::Scalar;

verus! {

/// An inner node of a bounding volume hierarchy: two shapes and the box
/// around them.
#[derive(Debug)]
pub struct BvhNode {
    pub left: Box<Shape>,
    pub right: Box<Shape>,
    pub bbox: Aabb,
}

impl View for BvhNode {
    type V = ShapeView;

    open spec fn view(&self) -> ShapeView {
        ShapeView::BvhNode {
            left: Box::new(shape_view(*self.left)),
            right: Box::new(shape_view(*self.right)),
            bbox: self.bbox,
        }
    }
}

/// The node over two shapes: its box is the box around their bounds.
pub open spec fn joined(left: ShapeView, right: ShapeView) -> ShapeView {
    ShapeView::BvhNode {
        left: Box::new(left),
        right: Box::new(right),
        bbox: union_of(bounds_or_default(left), bounds_or_default(right)),
    }
}

/// The shapes at the leaves of a hierarchy over `span` shapes, from left
/// to right. Over one or two shapes the node's children are the leaves;
/// over more, the left child is a hierarchy over the lower half of them
/// and the right child one over the rest.
pub open spec fn leaves(tree: ShapeView, span: nat) -> Seq<ShapeView>
    decreases span,
{
    match tree {
        ShapeView::BvhNode { left, right, .. } => if span <= 2 {
            seq![*left, *right]
        } else {
            leaves(*left, span / 2) + leaves(*right, (span - span / 2) as nat)
        },
        _ => Seq::empty(),
    }
}

/// On `axis`, no shape of `low` has a larger key than a shape of `high`.
pub open spec fn split_on_axis(low: Seq<ShapeView>, high: Seq<ShapeView>, axis: int) -> bool {
    forall|i: int, j: int|
        0 <= i < low.len() && 0 <= j < high.len() ==> box_key(#[trigger] low[i], axis) <= box_key(
            #[trigger] high[j],
            axis,
        )
}

/// `tree` is a hierarchy over `span` shapes: a node whose box is the box
/// around its children's; over one shape, both children are that shape;
/// over two, the children are the two shapes, split on some axis; over
/// more, the children are hierarchies over the two halves, and on some
/// axis the leaves of the left are split from those of the right.
pub open spec fn is_hierarchy(tree: ShapeView, span: nat) -> bool
    decreases span,
{
    match tree {
        ShapeView::BvhNode { left, right, bbox } => {
            &&& span >= 1
            &&& bbox == union_of(bounds_or_default(*left), bounds_or_default(*right))
            &&& span == 1 ==> *left == *right
            &&& span == 2 ==> exists|axis: int|
                0 <= axis < 3 && #[trigger] split_on_axis(seq![*left], seq![*right], axis)
            &&& span > 2 ==> {
                &&& is_hierarchy(*left, span / 2)
                &&& is_hierarchy(*right, (span - span / 2) as nat)
                &&& exists|axis: int|
                    0 <= axis < 3 && #[trigger] split_on_axis(
                        leaves(*left, span / 2),
                        leaves(*right, (span - span / 2) as nat),
                        axis,
                    )
            }
        },
        _ => false,
    }
}

/// One of `objects` is `shape`.
pub open spec fn holds(objects: Seq<Shape>, shape: ShapeView) -> bool {
    exists|i: int| 0 <= i < objects.len() && #[trigger] objects[i]@ == shape
}

/// The leaves of `tree` are the shapes of `objects`: each of the shapes
/// is a leaf, and each leaf is one of the shapes.
pub open spec fn covers(tree: ShapeView, objects: Seq<Shape>) -> bool {
    let found = leaves(tree, objects.len());
    &&& forall|i: int| 0 <= i < objects.len() ==> found.contains(#[trigger] objects[i]@)
    &&& forall|k: int| 0 <= k < found.len() ==> holds(objects, #[trigger] found[k])
}

/// Ordering a range and then rearranging each of its halves is
/// rearranging the range; the second half's turn leaves the first alone.
pub proof fn lemma_halves_rearranged(
    before: Seq<Shape>,
    sorted: Seq<Shape>,
    halfway: Seq<Shape>,
    done: Seq<Shape>,
    start: int,
    mid: int,
    end: int,
)
    requires
        0 <= start <= mid <= end <= before.len(),
        rearranged(before, sorted, start, end),
        rearranged(sorted, halfway, start, mid),
        rearranged(halfway, done, mid, end),
    ensures
        rearranged(before, done, start, end),
        done.subrange(start, mid) == halfway.subrange(start, mid),
{
    lemma_rearranged_widen(sorted, halfway, start, start, mid, end);
    lemma_rearranged_widen(halfway, done, start, mid, end, end);
    lemma_rearranged_twice(before, sorted, halfway, start, end);
    lemma_rearranged_twice(before, halfway, done, start, end);
    assert(done.subrange(start, mid) =~= halfway.subrange(start, mid));
}

/// Hierarchies over the two halves of an ordered range have their leaves
/// split on the axis of the order, however each half was rearranged.
pub proof fn lemma_halves_split(
    sorted: Seq<Shape>,
    halfway: Seq<Shape>,
    done: Seq<Shape>,
    start: int,
    mid: int,
    end: int,
    axis: int,
    left: ShapeView,
    right: ShapeView,
)
    requires
        0 <= start < mid < end <= sorted.len(),
        ordered_on_axis(sorted, start, end, axis),
        rearranged(sorted, halfway, start, mid),
        rearranged(halfway, done, mid, end),
        covers(left, halfway.subrange(start, mid)),
        covers(right, done.subrange(mid, end)),
    ensures
        split_on_axis(leaves(left, (mid - start) as nat), leaves(right, (end - mid) as nat), axis),
{
    let low = leaves(left, (mid - start) as nat);
    let high = leaves(right, (end - mid) as nat);
    let sub_low = halfway.subrange(start, mid);
    let sub_high = done.subrange(mid, end);
    assert forall|i: int, j: int| 0 <= i < low.len() && 0 <= j < high.len() implies box_key(
        #[trigger] low[i],
        axis,
    ) <= box_key(#[trigger] high[j], axis) by {
        assert(holds(sub_low, low[i]));
        assert(holds(sub_high, high[j]));
        let p = choose|p: int| 0 <= p < sub_low.len() && #[trigger] sub_low[p]@ == low[i];
        let q = choose|q: int| 0 <= q < sub_high.len() && #[trigger] sub_high[q]@ == high[j];
        lemma_rearranged_member(sorted, halfway, start, mid, start + p);
        lemma_rearranged_member(halfway, done, mid, end, mid + q);
        let p0 = choose|p0: int| start <= p0 < mid && sorted[p0] == halfway[start + p];
        let q0 = choose|q0: int| mid <= q0 < end && halfway[q0] == done[mid + q];
        assert(halfway[q0] == sorted[q0]);
        assert(sub_low[p] == halfway[start + p]);
        assert(sub_high[q] == done[mid + q]);
        assert(box_key(sorted[p0]@, axis) <= box_key(sorted[q0]@, axis));
    }
}

/// A node over hierarchies that cover the two halves of a range covers
/// the range.
pub proof fn lemma_halves_cover(
    done: Seq<Shape>,
    start: int,
    mid: int,
    end: int,
    left: ShapeView,
    right: ShapeView,
    node: ShapeView,
)
    requires
        0 <= start < mid < end <= done.len(),
        end - start > 2,
        mid - start == (end - start) / 2,
        covers(left, done.subrange(start, mid)),
        covers(right, done.subrange(mid, end)),
        node matches ShapeView::BvhNode { left: l, right: r, .. } && *l == left && *r == right,
    ensures
        covers(node, done.subrange(start, end)),
{
    let span = (end - start) as nat;
    let low = leaves(left, (mid - start) as nat);
    let high = leaves(right, (end - mid) as nat);
    let sub = done.subrange(start, end);
    let sub_low = done.subrange(start, mid);
    let sub_high = done.subrange(mid, end);
    let found = leaves(node, sub.len());
    assert(sub.len() == span);
    assert(span / 2 == mid - start);
    assert(found == low + high);
    assert forall|i: int| 0 <= i < sub.len() implies found.contains(#[trigger] sub[i]@) by {
        if i < mid - start {
            assert(sub[i] == sub_low[i]);
            assert(low.contains(sub_low[i]@));
            let k = choose|k: int| 0 <= k < low.len() && low[k] == sub_low[i]@;
            assert(found[k] == low[k]);
        } else {
            assert(sub[i] == sub_high[i - (mid - start)]);
            assert(high.contains(sub_high[i - (mid - start)]@));
            let k = choose|k: int| 0 <= k < high.len() && high[k] == sub_high[i - (mid - start)]@;
            assert(found[low.len() + k] == high[k]);
        }
    }
    assert forall|k: int| 0 <= k < found.len() implies holds(sub, #[trigger] found[k]) by {
        if k < low.len() {
            assert(found[k] == low[k]);
            assert(holds(sub_low, low[k]));
            let i = choose|i: int| 0 <= i < sub_low.len() && #[trigger] sub_low[i]@ == low[k];
            assert(sub[i] == sub_low[i]);
            assert(sub[i]@ == found[k]);
        } else {
            assert(found[k] == high[k - low.len()]);
            assert(holds(sub_high, high[k - low.len()]));
            let i = choose|i: int|
                0 <= i < sub_high.len() && #[trigger] sub_high[i]@ == high[k - low.len()];
            assert(sub[i + (mid - start)] == sub_high[i]);
            assert(sub[i + (mid - start)]@ == found[k]);
        }
    }
}

impl BvhNode {
    /// The box that the node was built with.
    pub fn bounding_box(&self) -> (b: Option<Aabb>)
        ensures
            b == self@.bounds(),
            b == Some(self.bbox),
    {
        Some(self.bbox)
    }

    /// Searches the node for the nearest hit between `t_min` and `t_max`:
    /// nothing where the ray misses the node's box; else the left child,
    /// then the right child up to the hit found on the left.
    pub fn hit<B: Fn(Aabb) -> [Slab; 3], L: Fn(Primitive, Scalar, Scalar) -> Option<HitRecord>>(
        &self,
        slabs_of: &B,
        leaf: &L,
        t_min: Scalar,
        t_max: Scalar,
    ) -> (rec: Option<HitRecord>)
        requires
            slabs_answered(*slabs_of),
            hits_answered(*leaf),
        ensures
            rec == shape_hit(self@, *slabs_of, *leaf, t_min, t_max),
        decreases *self, 1nat,
    {
        let slabs = slabs_of(self.bbox);
        if !hit_slabs(&slabs, t_min, t_max) {
            return None;
        }
        let hit_left = self.left.hit(slabs_of, leaf, t_min, t_max);
        let closest = match &hit_left {
            Some(rec) => rec.t,
            None => t_max,
        };
        let hit_right = self.right.hit(slabs_of, leaf, t_min, closest);
        match hit_right {
            Some(rec) => Some(rec),
            None => hit_left,
        }
    }

    /// A copy that owns copies of both children.
    pub fn duplicate(&self) -> (n: Self)
        ensures
            n@ == self@,
        decreases *self, 1nat,
    {
        BvhNode {
            left: Box::new((*self.left).clone()),
            right: Box::new((*self.right).clone()),
            bbox: self.bbox,
        }
    }

    /// Joins two shapes under the box around their bounds.
    pub fn join(left: Shape, right: Shape) -> (node: BvhNode)
        ensures
            node@ == joined(left@, right@),
    {
        let box_left = match left.bounding_box() {
            Some(b) => b,
            None => Aabb::default(),
        };
        let box_right = match right.bounding_box() {
            Some(b) => b,
            None => Aabb::default(),
        };
        let bbox = surrounding_box(&box_left, &box_right);
        BvhNode { left: Box::new(left), right: Box::new(right), bbox }
    }

    /// Builds a hierarchy over the shapes from `start` up to `end`, with
    /// an axis drawn at random for each node.
    ///
    /// One shape becomes both children of its node. Of two shapes the
    /// one with the smaller key on the axis goes left. More are ordered
    /// by their keys on the axis and halved, and each half is built in
    /// the same way. The shapes are copied into the hierarchy; `objects`
    /// keeps them, reordered within the range.
    pub fn new(objects: &mut Vec<Shape>, start: usize, end: usize) -> (node: Shape)
        requires
            start < end <= old(objects).len(),
        ensures
            rearranged(old(objects)@, final(objects)@, start as int, end as int),
            is_hierarchy(node@, (end - start) as nat),
            covers(node@, final(objects)@.subrange(start as int, end as int)),
        decreases end - start, 1nat,
    {
        let axis = random_below(3);
        BvhNode::new_on_axis(objects, start, end, axis)
    }

    /// Builds a hierarchy over the shapes from `start` up to `end` whose
    /// topmost node divides them on `axis`; the nodes below draw their
    /// axes at random.
    pub fn new_on_axis(objects: &mut Vec<Shape>, start: usize, end: usize, axis: usize) -> (node:
        Shape)
        requires
            start < end <= old(objects).len(),
            axis < 3,
        ensures
            rearranged(old(objects)@, final(objects)@, start as int, end as int),
            is_hierarchy(node@, (end - start) as nat),
            covers(node@, final(objects)@.subrange(start as int, end as int)),
            end - start <= 2 ==> final(objects)@ == old(objects)@,
            end - start == 1 ==> node@ == joined(
                old(objects)@[start as int]@,
                old(objects)@[start as int]@,
            ),
            end - start == 2 ==> node@ == if box_key(old(objects)@[start as int]@, axis as int)
                < box_key(old(objects)@[start + 1]@, axis as int) {
                joined(old(objects)@[start as int]@, old(objects)@[start + 1]@)
            } else {
                joined(old(objects)@[start + 1]@, old(objects)@[start as int]@)
            },
            end - start > 2 ==> (node@ matches ShapeView::BvhNode { left, right, .. } && split_on_axis(
                leaves(*left, ((end - start) / 2) as nat),
                leaves(*right, ((end - start) - (end - start) / 2) as nat),
                axis as int,
            )),
        decreases end - start, 0nat,
    {
        let object_span = end - start;
        if object_span == 1 {
            let left = objects[start].clone();
            let right = objects[start].clone();
            let node = Shape::BvhNode(Box::new(BvhNode::join(left, right)));
            proof {
                let found = leaves(node@, 1);
                assert(found[0] == objects@[start as int]@);
                assert(objects@.subrange(start as int, end as int)[0] == objects@[start as int]);
            }
            node
        } else if object_span == 2 {
            let first_left = box_key_of(&objects[start], axis) < box_key_of(&objects[start + 1], axis);
            let (left, right) = if first_left {
                (objects[start].clone(), objects[start + 1].clone())
            } else {
                (objects[start + 1].clone(), objects[start].clone())
            };
            let node = Shape::BvhNode(Box::new(BvhNode::join(left, right)));
            proof {
                let found = leaves(node@, 2);
                let sub = objects@.subrange(start as int, end as int);
                assert(sub[0] == objects@[start as int]);
                assert(sub[1] == objects@[start + 1]);
                assert(found[0] == left@ && found[1] == right@);
                assert(split_on_axis(seq![left@], seq![right@], axis as int));
            }
            node
        } else {
            sort_range(objects, start, end, axis);
            let ghost sorted = objects@;
            let mid = start + (end - start) / 2;
            let left = BvhNode::new(objects, start, mid);
            let ghost halfway = objects@;
            let right = BvhNode::new(objects, mid, end);
            let node = Shape::BvhNode(Box::new(BvhNode::join(left, right)));
            proof {
                lemma_halves_rearranged(
                    old(objects)@,
                    sorted,
                    halfway,
                    objects@,
                    start as int,
                    mid as int,
                    end as int,
                );
                lemma_halves_split(
                    sorted,
                    halfway,
                    objects@,
                    start as int,
                    mid as int,
                    end as int,
                    axis as int,
                    left@,
                    right@,
                );
                lemma_halves_cover(objects@, start as int, mid as int, end as int, left@, right@, node@);
                let span = (end - start) as nat;
                assert(span / 2 == mid - start && span - span / 2 == end - mid);
                assert(split_on_axis(
                    leaves(left@, span / 2),
                    leaves(right@, (span - span / 2) as nat),
                    axis as int,
                ));
                assert(is_hierarchy(left@, span / 2));
                assert(is_hierarchy(right@, (span - span / 2) as nat));
                assert(node@ == joined(left@, right@));
                assert(is_hierarchy(node@, span));
            }
            node
        }
    }
}

/// The box of a hierarchy holds the bounds of each of its leaves.
pub proof fn lemma_hierarchy_bounds(tree: ShapeView, span: nat, k: int)
    requires
        is_hierarchy(tree, span),
        0 <= k < leaves(tree, span).len(),
    ensures
        bounds_or_default(tree).contains(bounds_or_default(leaves(tree, span)[k])),
    decreases span,
{
    match tree {
        ShapeView::BvhNode { left, right, bbox } => {
            if span > 2 {
                let low = leaves(*left, span / 2);
                let high = leaves(*right, (span - span / 2) as nat);
                if k < low.len() {
                    lemma_hierarchy_bounds(*left, span / 2, k);
                } else {
                    lemma_hierarchy_bounds(*right, (span - span / 2) as nat, k - low.len());
                }
            }
        },
        _ => {},
    }
}

/// The number of nodes on the longest way from the top of a hierarchy
/// over `span` shapes down to a leaf.
pub open spec fn height(tree: ShapeView, span: nat) -> nat
    decreases span,
{
    match tree {
        ShapeView::BvhNode { left, right, .. } => if span <= 2 {
            1
        } else {
            let below_left = height(*left, span / 2);
            let below_right = height(*right, (span - span / 2) as nat);
            if below_left > below_right {
                1 + below_left
            } else {
                1 + below_right
            }
        },
        _ => 0,
    }
}

/// The number of times that `span` shapes are halved, the larger half
/// taken each time, until at most two are left, and one more.
pub open spec fn levels(span: nat) -> nat
    decreases span,
{
    if span <= 2 {
        1
    } else {
        1 + levels((span - span / 2) as nat)
    }
}

/// More shapes take no fewer levels.
pub proof fn lemma_levels_grow(fewer: nat, more: nat)
    requires
        fewer <= more,
    ensures
        levels(fewer) <= levels(more),
    decreases more,
{
    if more > 2 && fewer > 2 {
        lemma_levels_grow((fewer - fewer / 2) as nat, (more - more / 2) as nat);
    }
}

/// The levels are the logarithm of the number of shapes, rounded up.
pub proof fn lemma_levels_logarithmic(span: nat)
    requires
        span >= 2,
    ensures
        pow2((levels(span) - 1) as nat) < span <= pow2(levels(span)),
    decreases span,
{
    lemma_pow2_unfold(1);
    vstd::arithmetic::power2::lemma2_to64();
    if span > 2 {
        let larger = (span - span / 2) as nat;
        lemma_levels_logarithmic(larger);
        lemma_pow2_unfold(levels(span));
        lemma_pow2_unfold(levels(larger));
    }
}

/// A hierarchy is as high as its number of shapes has levels: its
/// height grows with the logarithm of their number.
pub proof fn lemma_hierarchy_height(tree: ShapeView, span: nat)
    requires
        is_hierarchy(tree, span),
    ensures
        height(tree, span) == levels(span),
    decreases span,
{
    match tree {
        ShapeView::BvhNode { left, right, bbox } => {
            if span > 2 {
                lemma_hierarchy_height(*left, span / 2);
                lemma_hierarchy_height(*right, (span - span / 2) as nat);
                lemma_levels_grow(span / 2, (span - span / 2) as nat);
            }
        },
        _ => {},
    }
}

} // verus!
