//! Rays: a point of origin and a direction, which need not have length one.

use vstd::prelude::*;
use crate::fixed::Fixed;
use crate::vector3::Vector3;

verus! {

#[derive(Clone, Copy, Debug, PartialEq, Eq, Structural)]
pub struct Ray {
    pub origin: Vector3,
    pub direction: Vector3,
}

impl Ray {
    /// `origin + t * direction`
    pub open spec fn spec_at(self, t: Fixed) -> Vector3 {
        self.origin.spec_plus(self.direction.spec_scaled(t))
    }

    pub fn new(origin: Vector3, direction: Vector3) -> (r: Ray)
        ensures
            r == (Ray { origin, direction }),
    {
        Ray { origin, direction }
    }

    /// The point at parameter `t`, which may be negative.
    pub fn at(&self, t: Fixed) -> (p: Vector3)
        ensures
            p == self.spec_at(t),
    {
        self.origin.plus(&self.direction.scaled(t))
    }
}

} // verus!
