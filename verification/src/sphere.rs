use vstd::prelude::*;
use crate::scalar::{Scalar, ZERO};

verus! {

/// `t` lies in the closed range from `t_min` to `t_max`.
pub open spec fn in_range(t: Scalar, t_min: Scalar, t_max: Scalar) -> bool {
    t_min <= t <= t_max
}

/// The distance at which a ray hits a sphere whose surface it crosses at
/// `near` and at `far`: the nearer crossing where it lies in the range,
/// else the farther one where that does, else none.
pub open spec fn root_in_range(near: Scalar, far: Scalar, t_min: Scalar, t_max: Scalar) -> Option<
    Scalar,
> {
    if in_range(near, t_min, t_max) {
        Some(near)
    } else if in_range(far, t_min, t_max) {
        Some(far)
    } else {
        None
    }
}

/// The first crossing that is not before `t_min`.
pub open spec fn first_from(near: Scalar, far: Scalar, t_min: Scalar) -> Option<Scalar> {
    if t_min <= near {
        Some(near)
    } else if t_min <= far {
        Some(far)
    } else {
        None
    }
}

/// A ray crosses the surface of a sphere where the discriminant of their
/// quadratic is not negative.
pub fn crosses(discriminant: Scalar) -> (crossing: bool)
    ensures
        crossing == (discriminant >= 0),
{
    !(discriminant < ZERO)
}

/// Picks the crossing at which the sphere is hit within the range.
pub fn select_root(near: Scalar, far: Scalar, t_min: Scalar, t_max: Scalar) -> (t: Option<Scalar>)
    ensures
        t == root_in_range(near, far, t_min, t_max),
{
    let mut temp = near;
    if temp > t_max || temp < t_min {
        temp = far;
        if temp > t_max || temp < t_min {
            return None;
        }
    }
    Some(temp)
}

/// With the crossings in order, the hit within a range is the first
/// crossing from `t_min` on, wherever the range reaches it: a sphere
/// answers with one distance of its own.
pub proof fn lemma_root_is_first_in_range(near: Scalar, far: Scalar, t_min: Scalar, t_max: Scalar)
    requires
        near <= far,
    ensures
        root_in_range(near, far, t_min, t_max) == crate::nearest::within(
            first_from(near, far, t_min),
            t_max,
        ),
{
}

} // verus!
