use vstd::prelude::*;
use crate::scalar::{Scalar, ONE, ZERO};

verus! {

/// A ray that crosses the plane of a triangle at distance `t`, at the
/// place with the weights `beta` and `gamma` of the second and third
/// corner, hits the triangle: no weight is negative, their sum is not
/// above one, and the distance lies in the range.
pub open spec fn inside(
    t: Scalar,
    beta: Scalar,
    gamma: Scalar,
    sum: Scalar,
    t_min: Scalar,
    t_max: Scalar,
) -> bool {
    !(beta < 0 || gamma < 0 || sum > ONE || t < t_min || t > t_max)
}

/// Decides whether the crossing of the plane is a hit; `sum` is the sum
/// of the two weights.
pub fn accepts(t: Scalar, beta: Scalar, gamma: Scalar, sum: Scalar, t_min: Scalar, t_max: Scalar) -> (hit:
    bool)
    ensures
        hit == inside(t, beta, gamma, sum, t_min, t_max),
{
    !(beta < ZERO || gamma < ZERO || sum > ONE || t < t_min || t > t_max)
}

} // verus!
