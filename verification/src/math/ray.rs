//! Rays.

use vstd::prelude::*;
use crate::math::vec3::{Point3, Vec3};

verus! {

/// A half-line: where it starts and which way it goes.
#[derive(Debug, Clone, Copy, PartialEq, Eq, Structural)]
pub struct Ray {
    pub origin: Point3,
    pub direction: Vec3,
}

impl Ray {
    pub fn new(origin: Point3, direction: Vec3) -> (ray: Ray)
        ensures
            ray == (Ray { origin, direction }),
    {
        Ray { origin, direction }
    }
}

} // verus!
