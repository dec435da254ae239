use vstd::prelude::*;
use crate::hittable::Shape;
use crate::onb::ONB;
use crate::scalar::{Scalar, HALF, ONE, ZERO};
use crate::vec3::Vec3;

verus! {

/// Directions around a surface normal, more of them near the normal.
#[derive(Clone, Copy, Debug, PartialEq, Eq, Structural)]
pub struct CosinePDF {
    pub uvw: ONB,
}

/// Directions from a point towards a shape.
#[derive(Clone, Copy, Debug)]
pub struct HitablePDF<'a> {
    pub origin: Vec3,
    pub hitable: &'a Shape,
}

/// Directions from either of two distributions, each as often.
#[derive(Debug)]
pub struct MixturePDF<'a> {
    pub pdf1: Box<PDF<'a>>,
    pub pdf2: Box<PDF<'a>>,
}

/// No distribution: what a surface has that sends each ray one way.
#[derive(Clone, Copy, Debug, PartialEq, Eq, Structural)]
pub struct ZeroPDF {}

/// A distribution of directions.
#[derive(Debug)]
pub enum PDF<'a> {
    CosinePDF(CosinePDF),
    HitablePDF(HitablePDF<'a>),
    MixturePDF(MixturePDF<'a>),
    ZeroPDF(ZeroPDF),
}

/// The density of the cosine distribution where the cosine to the normal
/// is `cosine` and that cosine over pi is `cosine_over_pi`: nothing at or
/// below the horizon.
pub open spec fn cosine_density(cosine: Scalar, cosine_over_pi: Scalar) -> Scalar {
    if cosine <= 0 {
        0
    } else {
        cosine_over_pi
    }
}

impl CosinePDF {
    pub fn new(uvw: ONB) -> (p: PDF<'static>)
        ensures
            p == PDF::CosinePDF(CosinePDF { uvw }),
    {
        PDF::CosinePDF(CosinePDF { uvw })
    }

    /// The density in a direction whose cosine to the normal is `cosine`.
    pub fn value(&self, cosine: Scalar, cosine_over_pi: Scalar) -> (density: Scalar)
        ensures
            density == cosine_density(cosine, cosine_over_pi),
    {
        if cosine <= ZERO {
            ZERO
        } else {
            cosine_over_pi
        }
    }
}

impl<'a> HitablePDF<'a> {
    pub fn new(hitable: &'a Shape, origin: Vec3) -> (p: PDF<'a>)
        ensures
            p == PDF::HitablePDF(HitablePDF { origin, hitable }),
    {
        PDF::HitablePDF(HitablePDF { origin, hitable })
    }
}

impl<'a> MixturePDF<'a> {
    pub fn new(pdf1: PDF<'a>, pdf2: PDF<'a>) -> (p: PDF<'a>)
        ensures
            p == PDF::MixturePDF(MixturePDF { pdf1: Box::new(pdf1), pdf2: Box::new(pdf2) }),
    {
        PDF::MixturePDF(MixturePDF { pdf1: Box::new(pdf1), pdf2: Box::new(pdf2) })
    }

    /// The distribution that a draw from the unit interval samples: the
    /// first below one half, the second from there on.
    pub fn generate(&self, draw: Scalar) -> (chosen: &PDF<'a>)
        ensures
            *chosen == if draw < HALF {
                *self.pdf1
            } else {
                *self.pdf2
            },
    {
        if draw < HALF {
            &*self.pdf1
        } else {
            &*self.pdf2
        }
    }
}

impl ZeroPDF {
    pub fn new() -> (p: PDF<'static>)
        ensures
            p == PDF::ZeroPDF(ZeroPDF {  }),
    {
        PDF::ZeroPDF(ZeroPDF {  })
    }

    /// The density, which is zero in every direction.
    pub fn value(&self) -> (density: Scalar)
        ensures
            density == 0,
    {
        ZERO
    }

    /// The one direction that stands for a sample: along the first axis.
    pub fn generate(&self) -> (direction: Vec3)
        ensures
            direction == (Vec3 { x: ONE, y: 0, z: 0 }),
    {
        Vec3::new(ONE, ZERO, ZERO)
    }
}

impl<'a> PDF<'a> {
    /// The distribution that a sample is at last drawn from: a mixture
    /// hands each draw in turn to the child it picks, anything else is
    /// sampled itself. `None` where the draws run out within mixtures.
    pub open spec fn sampled(self, draws: Seq<Scalar>) -> Option<PDF<'a>>
        decreases self,
    {
        match self {
            PDF::MixturePDF(m) => if draws.len() == 0 {
                None
            } else if draws[0] < HALF {
                m.pdf1.sampled(draws.skip(1))
            } else {
                m.pdf2.sampled(draws.skip(1))
            },
            other => Some(other),
        }
    }

    /// Follows the draws through the mixtures to the distribution that
    /// the sample comes from.
    pub fn generate(&self, draws: &Vec<Scalar>) -> (chosen: Option<&PDF<'a>>)
        ensures
            match self.sampled(draws@) {
                Some(p) => chosen matches Some(c) && *c == p,
                None => chosen is None,
            },
    {
        let mut current = self;
        let mut used: usize = 0;
        assert(draws@.skip(0) =~= draws@);
        loop
            invariant
                used <= draws@.len(),
                current.sampled(draws@.skip(used as int)) == self.sampled(draws@),
            decreases *current,
        {
            match current {
                PDF::MixturePDF(m) => {
                    if used >= draws.len() {
                        return None;
                    }
                    assert(draws@.skip(used as int).skip(1) =~= draws@.skip(used + 1));
                    current = m.generate(draws[used]);
                    used += 1;
                },
                _ => {
                    return Some(current);
                },
            }
        }
    }
}

} // verus!
