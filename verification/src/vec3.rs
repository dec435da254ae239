use vstd::prelude::*;
use crate::scalar::{Scalar, ONE, ZERO};

verus! {

/// Three numbers: a position, a direction or a colour.
#[derive(Clone, Copy, Debug, PartialEq, Eq, Structural)]
pub struct Vec3 {
    pub x: Scalar,
    pub y: Scalar,
    pub z: Scalar,
}

pub type Point3 = Vec3;

pub type Color = Vec3;

impl Vec3 {
    /// The component on axis `i`; an axis beyond the third reads the first.
    pub open spec fn axis(self, i: int) -> Scalar {
        if i == 1 {
            self.y
        } else if i == 2 {
            self.z
        } else {
            self.x
        }
    }

    pub fn new(x: Scalar, y: Scalar, z: Scalar) -> (v: Self)
        ensures
            v == (Vec3 { x, y, z }),
    {
        Self { x, y, z }
    }

    pub fn zero() -> (v: Self)
        ensures
            v == (Vec3 { x: ZERO, y: ZERO, z: ZERO }),
    {
        Self::new(ZERO, ZERO, ZERO)
    }

    pub fn ones() -> (v: Self)
        ensures
            v == (Vec3 { x: ONE, y: ONE, z: ONE }),
    {
        Self::new(ONE, ONE, ONE)
    }

    pub fn from_array(e: [Scalar; 3]) -> (v: Self)
        ensures
            v == (Vec3 { x: e[0], y: e[1], z: e[2] }),
    {
        Self { x: e[0], y: e[1], z: e[2] }
    }

    /// Reads the component on axis `i`.
    pub fn index(&self, i: usize) -> (c: Scalar)
        ensures
            c == self.axis(i as int),
    {
        if i == 1 {
            self.y
        } else if i == 2 {
            self.z
        } else {
            self.x
        }
    }
}

} // verus!
