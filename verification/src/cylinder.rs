use vstd::prelude::*;
use crate::scalar::{Scalar, ZERO};

verus! {

/// The part of a cylinder that a ray hits.
#[derive(Clone, Copy, Debug, PartialEq, Eq, Structural)]
pub enum Surface {
    /// The wall, at the nearer crossing of the ray with it.
    Side,
    /// The cap on top.
    Cap,
}

/// `height` lies strictly between the base and the top at `d`.
pub open spec fn between(height: Scalar, d: Scalar) -> bool {
    0 < height < d
}

/// The part that is hit by a ray that crosses the endless wall at the
/// heights `near` and `far`: the wall where the nearer crossing lies
/// between base and top, else the cap where the farther one does.
pub open spec fn surface_hit(near: Scalar, far: Scalar, d: Scalar) -> Option<Surface> {
    if between(near, d) {
        Some(Surface::Side)
    } else if between(far, d) {
        Some(Surface::Cap)
    } else {
        None
    }
}

/// Decides which part of a cylinder of height `d` the ray hits, if any.
pub fn select_surface(near: Scalar, far: Scalar, d: Scalar) -> (part: Option<Surface>)
    ensures
        part == surface_hit(near, far, d),
{
    let near_valid = ZERO < near && near < d;
    let far_valid = ZERO < far && far < d;
    if !(near_valid || far_valid) {
        return None;
    }
    if near_valid {
        Some(Surface::Side)
    } else {
        Some(Surface::Cap)
    }
}

/// The distance of the hit on the chosen part, where it lies in the
/// range.
pub fn hit_distance(t: Scalar, t_min: Scalar, t_max: Scalar) -> (hit: Option<Scalar>)
    ensures
        hit == if t_min <= t <= t_max {
            Some(t)
        } else {
            None
        },
{
    if t < t_min || t > t_max {
        None
    } else {
        Some(t)
    }
}

} // verus!
