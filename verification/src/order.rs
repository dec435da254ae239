use vstd::prelude::*;
use vstd::seq_lib::{lemma_multiset_commutative, to_multiset_insert, to_multiset_remove};
use crate::aabb::Aabb;
use crate::hittable::{Shape, ShapeView};
use crate::scalar::Scalar;

verus! {

/// The bounds of a shape, or the box at the origin for a shape without
/// bounds.
pub open spec fn bounds_or_default(shape: ShapeView) -> Aabb {
    match shape.bounds() {
        Some(b) => b,
        None => Aabb {
            minimum: crate::vec3::Vec3 { x: 0, y: 0, z: 0 },
            maximum: crate::vec3::Vec3 { x: 0, y: 0, z: 0 },
        },
    }
}

/// The number by which shapes are ordered on `axis`: the lower corner of
/// their bounds on that axis.
pub open spec fn box_key(shape: ShapeView, axis: int) -> Scalar {
    bounds_or_default(shape).minimum.axis(axis)
}

/// From `start` up to `end`, no shape comes before one with a smaller
/// key on `axis`.
pub open spec fn ordered_on_axis(objects: Seq<Shape>, start: int, end: int, axis: int) -> bool {
    forall|i: int, j: int|
        start <= i <= j < end ==> box_key(#[trigger] objects[i]@, axis) <= box_key(
            #[trigger] objects[j]@,
            axis,
        )
}

/// `after` holds the shapes of `before`: outside of `start..end` each in
/// its place, inside of it in some order.
pub open spec fn rearranged(before: Seq<Shape>, after: Seq<Shape>, start: int, end: int) -> bool {
    &&& after.len() == before.len()
    &&& forall|i: int| 0 <= i < start ==> after[i] == before[i]
    &&& forall|i: int| end <= i < before.len() ==> after[i] == before[i]
    &&& after.subrange(start, end).to_multiset() == before.subrange(start, end).to_multiset()
}

/// `from` tells for each place of the range where its shape stood
/// before. Up to `done` the shapes were put in order: they all stood
/// before `done`, and shapes with equal keys on `axis` stand as they
/// stood; from `done` on each shape is where it was.
pub open spec fn stable_upto(
    before: Seq<Shape>,
    after: Seq<Shape>,
    start: int,
    end: int,
    axis: int,
    from: Seq<int>,
    done: int,
) -> bool {
    &&& from.len() == end - start
    &&& forall|k: int|
        0 <= k < from.len() ==> start <= #[trigger] from[k] < end && after[start + k]
            == before[from[k]]
    &&& forall|a: int, b: int| 0 <= a < b < from.len() ==> #[trigger] from[a] != #[trigger] from[b]
    &&& forall|k: int| done - start <= k < from.len() ==> #[trigger] from[k] == start + k
    &&& forall|k: int| 0 <= k < done - start ==> #[trigger] from[k] < done
    &&& forall|a: int, b: int|
        0 <= a < b < done - start && box_key(after[start + a]@, axis) == box_key(
            after[start + b]@,
            axis,
        ) ==> #[trigger] from[a] < #[trigger] from[b]
}

/// The shapes of the range stand in `after` in the order of their keys
/// on `axis`, and those with equal keys in the order in which they stood
/// in `before`.
pub open spec fn stably_ordered(
    before: Seq<Shape>,
    after: Seq<Shape>,
    start: int,
    end: int,
    axis: int,
) -> bool {
    &&& ordered_on_axis(after, start, end, axis)
    &&& exists|from: Seq<int>| stable_upto(before, after, start, end, axis, from, end)
}

/// Reads the key of `shape` on `axis`.
pub fn box_key_of(shape: &Shape, axis: usize) -> (key: Scalar)
    ensures
        key == box_key(shape@, axis as int),
{
    let bounds = match shape.bounding_box() {
        Some(b) => b,
        None => Aabb::default(),
    };
    bounds.min().index(axis)
}

/// Taking the shape at `i` out and putting it back at `k`, not later
/// than it was, keeps the shapes of every range that holds both places.
pub proof fn lemma_move_earlier(s: Seq<Shape>, start: int, end: int, k: int, i: int)
    requires
        0 <= start <= k <= i < end <= s.len(),
    ensures
        rearranged(s, s.remove(i).insert(k, s[i]), start, end),
{
    let t = s.remove(i).insert(k, s[i]);
    let sub = s.subrange(start, end);
    assert(t.subrange(start, end) =~= sub.remove(i - start).insert(k - start, s[i]));
    to_multiset_remove(sub, i - start);
    to_multiset_insert(sub.remove(i - start), k - start, s[i]);
    assert(sub.to_multiset().count(s[i]) > 0) by {
        sub.to_multiset_ensures();
        assert(sub[i - start] == s[i]);
        assert(sub.contains(s[i]));
    }
    assert(sub.to_multiset().remove(s[i]).insert(s[i]) =~= sub.to_multiset());
}

/// Putting the next shape behind the last one that has no larger key
/// keeps the record of where each shape stood.
pub proof fn lemma_stable_step(
    before: Seq<Shape>,
    cur: Seq<Shape>,
    start: int,
    end: int,
    axis: int,
    from: Seq<int>,
    k: int,
    i: int,
)
    requires
        0 <= start <= k <= i < end <= cur.len(),
        cur.len() == before.len(),
        stable_upto(before, cur, start, end, axis, from, i),
        forall|j: int| k <= j < i ==> box_key(#[trigger] cur[j]@, axis) > box_key(cur[i]@, axis),
    ensures
        stable_upto(
            before,
            cur.remove(i).insert(k, cur[i]),
            start,
            end,
            axis,
            from.remove(i - start).insert(k - start, i),
            i + 1,
        ),
{
    let after = cur.remove(i).insert(k, cur[i]);
    let to = from.remove(i - start).insert(k - start, i);
    assert(from[i - start] == i);
    assert forall|x: int| 0 <= x < to.len() implies to[x] == (if x < k - start {
        from[x]
    } else if x == k - start {
        i
    } else if x <= i - start {
        from[x - 1]
    } else {
        from[x]
    }) && after[start + x] == (if x < k - start {
        cur[start + x]
    } else if x == k - start {
        cur[i]
    } else if x <= i - start {
        cur[start + x - 1]
    } else {
        cur[start + x]
    }) by {}
    assert forall|x: int| 0 <= x < to.len() implies start <= #[trigger] to[x] < end && after[start
        + x] == before[to[x]] by {
        if x < k - start {
            assert(from[x] == to[x]);
        } else if x == k - start {
        } else if x <= i - start {
            assert(from[x - 1] == to[x]);
        } else {
            assert(from[x] == to[x]);
        }
    }
    assert forall|a: int, b: int| 0 <= a < b < to.len() implies #[trigger] to[a] != #[trigger] to[b] by {
        let fa = if a < k - start {
            a
        } else if a == k - start {
            i - start
        } else if a <= i - start {
            a - 1
        } else {
            a
        };
        let fb = if b < k - start {
            b
        } else if b == k - start {
            i - start
        } else if b <= i - start {
            b - 1
        } else {
            b
        };
        assert(to[a] == from[fa]);
        assert(to[b] == from[fb]);
        assert(fa != fb);
        if fa < fb {
            assert(from[fa] != from[fb]);
        } else {
            assert(from[fb] != from[fa]);
        }
    }
    assert forall|x: int| i + 1 - start <= x < to.len() implies #[trigger] to[x] == start + x by {
        assert(to[x] == from[x]);
    }
    assert forall|x: int| 0 <= x < i + 1 - start implies #[trigger] to[x] < i + 1 by {
        if x < k - start {
            assert(to[x] == from[x]);
        } else if x == k - start {
        } else {
            assert(to[x] == from[x - 1]);
        }
    }
    assert forall|a: int, b: int|
        0 <= a < b < i + 1 - start && box_key(after[start + a]@, axis) == box_key(
            after[start + b]@,
            axis,
        ) implies #[trigger] to[a] < #[trigger] to[b] by {
        if b == k - start {
            assert(to[a] == from[a]);
            assert(from[a] < i);
        } else if a == k - start {
            assert(after[start + b] == cur[start + b - 1]);
            assert(box_key(cur[start + b - 1]@, axis) > box_key(cur[i]@, axis));
        } else {
            let fa = if a < k - start {
                a
            } else {
                a - 1
            };
            let fb = if b < k - start {
                b
            } else {
                b - 1
            };
            assert(to[a] == from[fa]);
            assert(to[b] == from[fb]);
            assert(after[start + a] == cur[start + fa]);
            assert(after[start + b] == cur[start + fb]);
            assert(from[fa] < from[fb]);
        }
    }
}

/// Orders the shapes from `start` up to `end` by their keys on `axis`,
/// smallest first; shapes with equal keys keep their order.
pub fn sort_range(objects: &mut Vec<Shape>, start: usize, end: usize, axis: usize)
    requires
        start <= end <= old(objects).len(),
    ensures
        rearranged(old(objects)@, final(objects)@, start as int, end as int),
        stably_ordered(old(objects)@, final(objects)@, start as int, end as int, axis as int),
{
    let ghost mut from: Seq<int> = Seq::new((end - start) as nat, |k: int| start + k);
    if start == end {
        assert(stable_upto(old(objects)@, objects@, start as int, end as int, axis as int, from, end as int));
        return;
    }
    let mut i: usize = start + 1;
    while i < end
        invariant
            start < i <= end <= objects.len(),
            objects@.len() == old(objects)@.len(),
            rearranged(old(objects)@, objects@, start as int, end as int),
            ordered_on_axis(objects@, start as int, i as int, axis as int),
            stable_upto(old(objects)@, objects@, start as int, end as int, axis as int, from, i as int),
        decreases end - i,
    {
        let key = box_key_of(&objects[i], axis);
        let mut k: usize = i;
        while k > start && box_key_of(&objects[k - 1], axis) > key
            invariant
                start <= k <= i < objects.len(),
                key == box_key(objects@[i as int]@, axis as int),
                forall|j: int| k <= j < i ==> box_key(#[trigger] objects@[j]@, axis as int) > key,
            decreases k,
        {
            k -= 1;
        }
        proof {
            lemma_stable_step(
                old(objects)@,
                objects@,
                start as int,
                end as int,
                axis as int,
                from,
                k as int,
                i as int,
            );
            from = from.remove(i - start).insert(k - start, i as int);
            if k == i {
                assert(objects@.remove(i as int).insert(k as int, objects@[i as int]) =~= objects@);
            }
        }
        if k < i {
            let ghost before = objects@;
            let moved = objects.remove(i);
            objects.insert(k, moved);
            proof {
                lemma_move_earlier(before, start as int, end as int, k as int, i as int);
                let after = objects@;
                assert(after == before.remove(i as int).insert(k as int, before[i as int]));
                lemma_rearranged_twice(old(objects)@, before, after, start as int, end as int);
                assert forall|a: int, b: int| start <= a <= b < i + 1 implies box_key(
                    #[trigger] after[a]@,
                    axis as int,
                ) <= box_key(#[trigger] after[b]@, axis as int) by {
                    let from_a = if a < k { a } else if a == k { i as int } else { a - 1 };
                    let from_b = if b < k { b } else if b == k { i as int } else { b - 1 };
                    assert(after[a] == before[from_a]);
                    assert(after[b] == before[from_b]);
                    if k > start {
                        assert(box_key(before[k - 1]@, axis as int) <= key);
                    }
                }
            }
        }
        i += 1;
    }
}

/// Rearranging twice within one range is rearranging within it.
pub proof fn lemma_rearranged_twice(a: Seq<Shape>, b: Seq<Shape>, c: Seq<Shape>, start: int, end: int)
    requires
        rearranged(a, b, start, end),
        rearranged(b, c, start, end),
    ensures
        rearranged(a, c, start, end),
{
}

/// Rearranging within a part of a range is rearranging within the range.
pub proof fn lemma_rearranged_widen(
    a: Seq<Shape>,
    b: Seq<Shape>,
    start: int,
    from: int,
    to: int,
    end: int,
)
    requires
        0 <= start <= from <= to <= end <= a.len(),
        rearranged(a, b, from, to),
    ensures
        rearranged(a, b, start, end),
{
    assert(a.subrange(start, end) =~= a.subrange(start, from) + a.subrange(from, to) + a.subrange(
        to,
        end,
    ));
    assert(b.subrange(start, end) =~= b.subrange(start, from) + b.subrange(from, to) + b.subrange(
        to,
        end,
    ));
    assert(a.subrange(start, from) =~= b.subrange(start, from));
    assert(a.subrange(to, end) =~= b.subrange(to, end));
    lemma_multiset_commutative(a.subrange(start, from), a.subrange(from, to));
    lemma_multiset_commutative(a.subrange(start, from) + a.subrange(from, to), a.subrange(to, end));
    lemma_multiset_commutative(b.subrange(start, from), b.subrange(from, to));
    lemma_multiset_commutative(b.subrange(start, from) + b.subrange(from, to), b.subrange(to, end));
}

/// Each shape of a rearranged range was a shape of the range before.
pub proof fn lemma_rearranged_member(a: Seq<Shape>, b: Seq<Shape>, start: int, end: int, i: int)
    requires
        0 <= start <= i < end <= a.len(),
        rearranged(a, b, start, end),
    ensures
        exists|j: int| start <= j < end && a[j] == b[i],
{
    let sa = a.subrange(start, end);
    let sb = b.subrange(start, end);
    sa.to_multiset_ensures();
    sb.to_multiset_ensures();
    assert(sb[i - start] == b[i]);
    assert(sb.contains(b[i]));
    assert(sb.to_multiset().count(b[i]) > 0);
    assert(sa.to_multiset().count(b[i]) > 0);
    assert(sa.contains(b[i]));
    let k = choose|k: int| 0 <= k < sa.len() && sa[k] == b[i];
    assert(a[start + k] == b[i]);
}

} // verus!
