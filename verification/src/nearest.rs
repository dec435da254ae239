use vstd::prelude::*;
use crate::aabb::{slabs_overlap, Aabb, Slab};
use crate::bvh::{covers, holds, is_hierarchy, leaves};
use crate::hittable::{
    closest_so_far, distance, list_hit, nearer, shape_hit, slab_answer, views, HitRecord, Primitive,
    Shape, ShapeView,
};
use crate::scalar::Scalar;

verus! {

/// The distance `near`, where there is one and it is not beyond `hi`.
pub open spec fn within(near: Option<Scalar>, hi: Scalar) -> Option<Scalar> {
    match near {
        Some(x) => if x <= hi {
            Some(x)
        } else {
            None
        },
        None => None,
    }
}

/// `found` is the least of the distances that `near` gives to `shapes`,
/// those beyond `hi` left aside: nothing where there is none, else a
/// distance of one of the shapes that none of the others is below.
pub open spec fn is_least(
    shapes: Seq<ShapeView>,
    near: spec_fn(ShapeView) -> Option<Scalar>,
    hi: Scalar,
    found: Option<Scalar>,
) -> bool {
    match found {
        None => forall|k: int|
            0 <= k < shapes.len() ==> within(near(#[trigger] shapes[k]), hi) is None,
        Some(m) => {
            &&& m <= hi
            &&& exists|k: int| 0 <= k < shapes.len() && near(#[trigger] shapes[k]) == Some(m)
            &&& forall|k: int|
                0 <= k < shapes.len() ==> (within(near(#[trigger] shapes[k]), hi) matches Some(x)
                    ==> m <= x)
        },
    }
}

/// A search of `shape` from `t_min` finds its hit at the distance `near`
/// wherever the range reaches that far, and nothing where it does not.
pub open spec fn follows<B: Fn(Aabb) -> [Slab; 3], L: Fn(Primitive, Scalar, Scalar) -> Option<HitRecord>>(
    shape: ShapeView,
    near: Option<Scalar>,
    slabs_of: B,
    leaf: L,
    t_min: Scalar,
) -> bool {
    forall|hi: Scalar|
        distance(#[trigger] shape_hit(shape, slabs_of, leaf, t_min, hi)) == within(near, hi)
}

/// The ray crosses the box of each node of the hierarchy within every
/// range in which it hits a leaf below that node.
pub open spec fn boxes_admit<B: Fn(Aabb) -> [Slab; 3]>(
    tree: ShapeView,
    span: nat,
    near: spec_fn(ShapeView) -> Option<Scalar>,
    slabs_of: B,
    t_min: Scalar,
) -> bool
    decreases span,
{
    match tree {
        ShapeView::BvhNode { left, right, bbox } => {
            &&& forall|k: int, hi: Scalar|
                0 <= k < leaves(tree, span).len() && within(
                    near(#[trigger] leaves(tree, span)[k]),
                    hi,
                ) is Some ==> #[trigger] slabs_overlap(slab_answer(slabs_of, bbox), t_min, hi)
            &&& span > 2 ==> boxes_admit(*left, span / 2, near, slabs_of, t_min) && boxes_admit(
                *right,
                (span - span / 2) as nat,
                near,
                slabs_of,
                t_min,
            )
        },
        _ => true,
    }
}

/// The least distance of one shape is its own, where it is in range.
pub proof fn lemma_least_single(
    shape: ShapeView,
    near: spec_fn(ShapeView) -> Option<Scalar>,
    hi: Scalar,
)
    ensures
        is_least(seq![shape], near, hi, within(near(shape), hi)),
{
    assert(seq![shape][0] == shape);
}

/// Searching some shapes, and then others up to what was found, finds
/// the least distance of them all.
pub proof fn lemma_least_join(
    first: Seq<ShapeView>,
    second: Seq<ShapeView>,
    near: spec_fn(ShapeView) -> Option<Scalar>,
    hi: Scalar,
    a: Option<Scalar>,
    b: Option<Scalar>,
)
    requires
        is_least(first, near, hi, a),
        is_least(
            second,
            near,
            match a {
                Some(x) => x,
                None => hi,
            },
            b,
        ),
    ensures
        is_least(
            first + second,
            near,
            hi,
            match b {
                Some(_) => b,
                None => a,
            },
        ),
{
    let all = first + second;
    let cut = match a {
        Some(x) => x,
        None => hi,
    };
    let found = match b {
        Some(_) => b,
        None => a,
    };
    assert forall|k: int| 0 <= k < all.len() implies (within(near(#[trigger] all[k]), hi) matches Some(
        x,
    ) ==> (found matches Some(m) && m <= x)) by {
        if k < first.len() {
            assert(all[k] == first[k]);
        } else {
            assert(all[k] == second[k - first.len()]);
        }
    }
    match found {
        Some(m) => {
            match b {
                Some(_) => {
                    let k = choose|k: int|
                        0 <= k < second.len() && near(#[trigger] second[k]) == Some(m);
                    assert(all[first.len() + k] == second[k]);
                },
                None => {
                    let k = choose|k: int| 0 <= k < first.len() && near(#[trigger] first[k]) == Some(m);
                    assert(all[k] == first[k]);
                },
            }
        },
        None => {},
    }
}

/// The least distance depends on which shapes there are, not on their
/// order or number.
pub proof fn lemma_least_same(
    first: Seq<ShapeView>,
    second: Seq<ShapeView>,
    near: spec_fn(ShapeView) -> Option<Scalar>,
    hi: Scalar,
    a: Option<Scalar>,
    b: Option<Scalar>,
)
    requires
        is_least(first, near, hi, a),
        is_least(second, near, hi, b),
        forall|i: int| 0 <= i < first.len() ==> second.contains(#[trigger] first[i]),
        forall|j: int| 0 <= j < second.len() ==> first.contains(#[trigger] second[j]),
    ensures
        a == b,
{
    match a {
        Some(m) => {
            let k = choose|k: int| 0 <= k < first.len() && near(#[trigger] first[k]) == Some(m);
            assert(second.contains(first[k]));
            let j = choose|j: int| 0 <= j < second.len() && second[j] == first[k];
            assert(within(near(second[j]), hi) == Some(m));
        },
        None => {},
    }
    match b {
        Some(m) => {
            let k = choose|k: int| 0 <= k < second.len() && near(#[trigger] second[k]) == Some(m);
            assert(first.contains(second[k]));
            let j = choose|j: int| 0 <= j < first.len() && first[j] == second[k];
            assert(within(near(first[j]), hi) == Some(m));
        },
        None => {},
    }
}

/// A scan of the first `n` shapes finds the least of their distances.
pub proof fn lemma_scan_least<B: Fn(Aabb) -> [Slab; 3], L: Fn(Primitive, Scalar, Scalar) -> Option<HitRecord>>(
    objects: Seq<ShapeView>,
    n: nat,
    near: spec_fn(ShapeView) -> Option<Scalar>,
    slabs_of: B,
    leaf: L,
    t_min: Scalar,
    hi: Scalar,
)
    requires
        n <= objects.len(),
        forall|i: int|
            0 <= i < n ==> follows(#[trigger] objects[i], near(objects[i]), slabs_of, leaf, t_min),
    ensures
        is_least(
            objects.take(n as int),
            near,
            hi,
            distance(list_hit(objects, n, slabs_of, leaf, t_min, hi)),
        ),
    decreases n,
{
    if n > 0 {
        let before = list_hit(objects, (n - 1) as nat, slabs_of, leaf, t_min, hi);
        let last = objects[n - 1];
        let up_to = closest_so_far(before, hi);
        let then = shape_hit(last, slabs_of, leaf, t_min, up_to);
        lemma_scan_least(objects, (n - 1) as nat, near, slabs_of, leaf, t_min, hi);
        lemma_least_single(last, near, up_to);
        assert(follows(last, near(last), slabs_of, leaf, t_min));
        assert(distance(then) == within(near(last), up_to));
        lemma_least_join(
            objects.take(n - 1),
            seq![last],
            near,
            hi,
            distance(before),
            distance(then),
        );
        assert(objects.take(n as int) =~= objects.take(n - 1) + seq![last]);
    }
}

/// A search of a hierarchy finds the least of the distances of its
/// leaves.
pub proof fn lemma_hierarchy_least<B: Fn(Aabb) -> [Slab; 3], L: Fn(Primitive, Scalar, Scalar) -> Option<HitRecord>>(
    tree: ShapeView,
    span: nat,
    near: spec_fn(ShapeView) -> Option<Scalar>,
    slabs_of: B,
    leaf: L,
    t_min: Scalar,
    hi: Scalar,
)
    requires
        is_hierarchy(tree, span),
        boxes_admit(tree, span, near, slabs_of, t_min),
        forall|k: int|
            0 <= k < leaves(tree, span).len() ==> follows(
                #[trigger] leaves(tree, span)[k],
                near(leaves(tree, span)[k]),
                slabs_of,
                leaf,
                t_min,
            ),
    ensures
        is_least(
            leaves(tree, span),
            near,
            hi,
            distance(shape_hit(tree, slabs_of, leaf, t_min, hi)),
        ),
    decreases span,
{
    match tree {
        ShapeView::BvhNode { left, right, bbox } => {
            let all = leaves(tree, span);
            if !slabs_overlap(slab_answer(slabs_of, bbox), t_min, hi) {
                assert forall|k: int| 0 <= k < all.len() implies within(
                    near(#[trigger] all[k]),
                    hi,
                ) is None by {}
            } else {
                let hit_left = shape_hit(*left, slabs_of, leaf, t_min, hi);
                let up_to = closest_so_far(hit_left, hi);
                let hit_right = shape_hit(*right, slabs_of, leaf, t_min, up_to);
                if span <= 2 {
                    assert(all[0] == *left && all[1] == *right);
                    assert(follows(all[0], near(all[0]), slabs_of, leaf, t_min));
                    assert(follows(all[1], near(all[1]), slabs_of, leaf, t_min));
                    lemma_least_single(*left, near, hi);
                    lemma_least_single(*right, near, up_to);
                    lemma_least_join(
                        seq![*left],
                        seq![*right],
                        near,
                        hi,
                        distance(hit_left),
                        distance(hit_right),
                    );
                    assert(all =~= seq![*left] + seq![*right]);
                } else {
                    let low = leaves(*left, span / 2);
                    let high = leaves(*right, (span - span / 2) as nat);
                    assert forall|k: int| 0 <= k < low.len() implies follows(
                        #[trigger] low[k],
                        near(low[k]),
                        slabs_of,
                        leaf,
                        t_min,
                    ) by {
                        assert(all[k] == low[k]);
                    }
                    assert forall|k: int| 0 <= k < high.len() implies follows(
                        #[trigger] high[k],
                        near(high[k]),
                        slabs_of,
                        leaf,
                        t_min,
                    ) by {
                        assert(all[low.len() + k] == high[k]);
                    }
                    lemma_hierarchy_least(*left, span / 2, near, slabs_of, leaf, t_min, hi);
                    lemma_hierarchy_least(
                        *right,
                        (span - span / 2) as nat,
                        near,
                        slabs_of,
                        leaf,
                        t_min,
                        up_to,
                    );
                    lemma_least_join(low, high, near, hi, distance(hit_left), distance(hit_right));
                }
            }
        },
        _ => {},
    }
}

/// A search of a hierarchy over some shapes and a scan of the shapes
/// find their hit at the same distance, where each shape answers with
/// one distance of its own wherever the range reaches it, and the ray
/// crosses the box of a node wherever it hits a shape below it.
pub proof fn lemma_hierarchy_agrees_with_scan<B: Fn(Aabb) -> [Slab; 3], L: Fn(Primitive, Scalar, Scalar) -> Option<HitRecord>>(
    tree: ShapeView,
    objects: Seq<Shape>,
    near: spec_fn(ShapeView) -> Option<Scalar>,
    slabs_of: B,
    leaf: L,
    t_min: Scalar,
    t_max: Scalar,
)
    requires
        is_hierarchy(tree, objects.len()),
        covers(tree, objects),
        boxes_admit(tree, objects.len(), near, slabs_of, t_min),
        forall|i: int|
            0 <= i < objects.len() ==> follows(
                #[trigger] objects[i]@,
                near(objects[i]@),
                slabs_of,
                leaf,
                t_min,
            ),
    ensures
        distance(shape_hit(tree, slabs_of, leaf, t_min, t_max)) == distance(
            list_hit(views(objects), objects.len(), slabs_of, leaf, t_min, t_max),
        ),
{
    let found = leaves(tree, objects.len());
    let scanned = views(objects);
    assert forall|k: int| 0 <= k < found.len() implies follows(
        #[trigger] found[k],
        near(found[k]),
        slabs_of,
        leaf,
        t_min,
    ) by {
        assert(holds(objects, found[k]));
        let i = choose|i: int| 0 <= i < objects.len() && #[trigger] objects[i]@ == found[k];
        assert(follows(objects[i]@, near(objects[i]@), slabs_of, leaf, t_min));
    }
    assert forall|i: int| 0 <= i < scanned.len() implies follows(
        #[trigger] scanned[i],
        near(scanned[i]),
        slabs_of,
        leaf,
        t_min,
    ) by {
        assert(scanned[i] == objects[i]@);
    }
    lemma_hierarchy_least(tree, objects.len(), near, slabs_of, leaf, t_min, t_max);
    lemma_scan_least(scanned, scanned.len(), near, slabs_of, leaf, t_min, t_max);
    assert(scanned.take(scanned.len() as int) =~= scanned);
    assert forall|k: int| 0 <= k < found.len() implies scanned.contains(#[trigger] found[k]) by {
        assert(holds(objects, found[k]));
        let i = choose|i: int| 0 <= i < objects.len() && #[trigger] objects[i]@ == found[k];
        assert(scanned[i] == found[k]);
    }
    assert forall|i: int| 0 <= i < scanned.len() implies found.contains(#[trigger] scanned[i]) by {
        assert(scanned[i] == objects[i]@);
    }
    lemma_least_same(
        found,
        scanned,
        near,
        t_max,
        distance(shape_hit(tree, slabs_of, leaf, t_min, t_max)),
        distance(list_hit(scanned, objects.len(), slabs_of, leaf, t_min, t_max)),
    );
}

} // verus!
