use vstd::prelude::*;
use crate::scalar::Scalar;
use crate::vec3::{Point3, Vec3};

verus! {

/// The key of one thousandth, the time of a ray that was given none.
pub const INIT_TIME: Scalar = 0x3F50_624D_D2F1_A9FC;

/// A half-line: where it starts, where it heads, and when it was cast.
#[derive(Clone, Copy, Debug, PartialEq, Eq, Structural)]
pub struct Ray {
    pub origin: Point3,
    pub direction: Vec3,
    pub time: Scalar,
}

impl Ray {
    pub fn new(origin: Point3, direction: Vec3, time: Scalar) -> (r: Self)
        ensures
            r == (Ray { origin, direction, time }),
    {
        Self { origin, direction, time }
    }

    /// The ray from the origin to nowhere, cast at one thousandth.
    pub fn init() -> (r: Self)
        ensures
            r == (Ray {
                origin: Vec3 { x: 0, y: 0, z: 0 },
                direction: Vec3 { x: 0, y: 0, z: 0 },
                time: INIT_TIME,
            }),
    {
        Self { origin: Point3::zero(), direction: Vec3::zero(), time: INIT_TIME }
    }

    pub fn origin(&self) -> (p: Point3)
        ensures
            p == self.origin,
    {
        self.origin
    }

    pub fn direction(&self) -> (d: Vec3)
        ensures
            d == self.direction,
    {
        self.direction
    }

    pub fn time(&self) -> (t: Scalar)
        ensures
            t == self.time,
    {
        self.time
    }
}

} // verus!
