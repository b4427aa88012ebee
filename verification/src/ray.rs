//! Rays.

use vstd::prelude::*;
use crate::scalar::Scalar;
use crate::vec::{Point3, Vec3};

verus! {

/// A half-line from `origin` along `direction`, cast at the moment `time` of
/// the frame.
#[derive(Clone, Copy, Debug, PartialEq, Eq, Structural)]
pub struct Ray {
    pub origin: Point3,
    pub direction: Vec3,
    pub time: Scalar,
}

impl Default for Ray {
    fn default() -> (r: Ray)
        ensures
            r == (Ray {
                origin: Vec3::zero_spec(),
                direction: Vec3::zero_spec(),
                time: Scalar { bits: 0 },
            }),
    {
        Ray { origin: Vec3::zero(), direction: Vec3::zero(), time: Scalar::zero() }
    }
}

impl Ray {
    /// The point `origin + time * direction`.
    pub open spec fn at_spec(self, time: Scalar) -> Point3 {
        self.origin.add_spec(self.direction.scale_spec(time))
    }

    pub fn new(origin: Point3, direction: Vec3, time: Scalar) -> (r: Ray)
        ensures
            r == (Ray { origin, direction, time }),
    {
        Ray { origin, direction, time }
    }

    pub fn at(&self, time: Scalar) -> (r: Point3)
        ensures
            r == self.at_spec(time),
    {
        self.origin + time * self.direction
    }
}

} // verus!
