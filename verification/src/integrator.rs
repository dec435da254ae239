use vstd::prelude::*;
use crate::material::MaterialType;
use crate::scalar::{Scalar, ZERO};

verus! {

/// What became of a ray at the end of its way.
#[derive(Clone, Copy, Debug, PartialEq, Eq, Structural)]
pub enum Event {
    /// The ray left the scene.
    Miss,
    /// The ray met a surface that sends nothing on.
    Absorbed,
    /// The ray met a surface that sends it on one way.
    Specular,
    /// The ray met a matte surface; a direction was drawn from the
    /// mixture of the light's and the surface's distributions, which has
    /// the given density there.
    Diffuse { density: Scalar },
}

/// What the estimate of the light along a ray is made of.
#[derive(Clone, Copy, Debug, PartialEq, Eq, Structural)]
pub enum Step {
    /// No further ray may be followed: black.
    Exhausted,
    /// The light of the background.
    Background,
    /// What the surface gives off, and nothing more.
    Emitted,
    /// The light along the ray that the surface sends on, weakened by
    /// the colour of the surface.
    FollowSpecular,
    /// What the surface gives off, and the light along the drawn ray,
    /// weakened by the colour of the surface and weighed by the
    /// surface's own density over the density of the draw.
    FollowSample,
}

impl Step {
    /// The estimate needs the light along a further ray.
    pub open spec fn follows_on(self) -> bool {
        self is FollowSpecular || self is FollowSample
    }
}

/// What is done for a ray with an allowance of `depth` rays. A draw of
/// density zero cannot be weighed and adds nothing: such a surface counts
/// for what it gives off alone.
pub open spec fn decide(depth: usize, event: Event) -> Step {
    if depth == 0 {
        Step::Exhausted
    } else {
        match event {
            Event::Miss => Step::Background,
            Event::Absorbed => Step::Emitted,
            Event::Specular => Step::FollowSpecular,
            Event::Diffuse { density } => if density == 0 {
                Step::Emitted
            } else {
                Step::FollowSample
            },
        }
    }
}

/// The allowance that is left after a step: one ray less where a further
/// ray is followed.
pub open spec fn allowance_after(depth: usize, step: Step) -> usize {
    if step.follows_on() {
        (depth - 1) as usize
    } else {
        depth
    }
}

/// The number of rays that are followed on for a chain of events, from
/// an allowance of `depth`: the chain ends with the first step that
/// follows no further ray.
pub open spec fn rays_followed(depth: usize, events: Seq<Event>) -> nat
    decreases events.len(),
{
    if events.len() == 0 || !decide(depth, events[0]).follows_on() {
        0
    } else {
        1 + rays_followed((depth - 1) as usize, events.skip(1))
    }
}

/// The event at a surface: absorbed where the material declined to send
/// the ray on, else by the regime in which it did.
pub fn event_at_surface(scattered: Option<MaterialType>, density: Scalar) -> (event: Event)
    ensures
        event == match scattered {
            None => Event::Absorbed,
            Some(MaterialType::Specular) => Event::Specular,
            Some(MaterialType::Diffuse) => Event::Diffuse { density },
        },
{
    match scattered {
        None => Event::Absorbed,
        Some(MaterialType::Specular) => Event::Specular,
        Some(MaterialType::Diffuse) => Event::Diffuse { density },
    }
}

/// Decides what the estimate for a ray is made of, and what allowance of
/// rays is left for the ray that is followed on.
pub fn ray_color(depth: usize, event: Event) -> (next: (Step, usize))
    ensures
        next.0 == decide(depth, event),
        next.1 == allowance_after(depth, next.0),
        next.0.follows_on() ==> next.1 < depth,
{
    if depth == 0 {
        return (Step::Exhausted, depth);
    }
    match event {
        Event::Miss => (Step::Background, depth),
        Event::Absorbed => (Step::Emitted, depth),
        Event::Specular => (Step::FollowSpecular, depth - 1),
        Event::Diffuse { density } => {
            if density == ZERO {
                (Step::Emitted, depth)
            } else {
                (Step::FollowSample, depth - 1)
            }
        },
    }
}

/// Whatever happens to the rays, no more of them are followed on than
/// the allowance.
pub proof fn lemma_rays_followed_bounded(depth: usize, events: Seq<Event>)
    ensures
        rays_followed(depth, events) <= depth,
    decreases events.len(),
{
    if events.len() > 0 && decide(depth, events[0]).follows_on() {
        lemma_rays_followed_bounded((depth - 1) as usize, events.skip(1));
    }
}

/// With no allowance the estimate is black, whatever the ray meets.
pub proof fn lemma_no_allowance_is_black(event: Event)
    ensures
        decide(0, event) == Step::Exhausted,
{
}

} // verus!
