use vstd::prelude::*;
use crate::vec3::Vec3;

verus! {

/// Three directions that span space, the third along a surface normal.
#[derive(Clone, Copy, Debug, PartialEq, Eq, Structural)]
pub struct ONB {
    pub u: Vec3,
    pub v: Vec3,
    pub w: Vec3,
}

impl ONB {
    /// The direction that is tried first as a helper when a basis is
    /// built around `w`: the second axis where `w` leans along the first
    /// by more than nine tenths, the first axis else. `leaning` is the
    /// size of the first component of `w`.
    pub fn helper_axis(leaning: crate::scalar::Scalar) -> (a: Vec3)
        ensures
            a == if leaning > NINE_TENTHS {
                Vec3 { x: 0, y: crate::scalar::ONE, z: 0 }
            } else {
                Vec3 { x: crate::scalar::ONE, y: 0, z: 0 }
            },
    {
        if leaning > NINE_TENTHS {
            Vec3::new(crate::scalar::ZERO, crate::scalar::ONE, crate::scalar::ZERO)
        } else {
            Vec3::new(crate::scalar::ONE, crate::scalar::ZERO, crate::scalar::ZERO)
        }
    }
}

/// The key of nine tenths.
pub const NINE_TENTHS: crate::scalar::Scalar = 0x3FEC_CCCC_CCCC_CCCD;

} // verus!
