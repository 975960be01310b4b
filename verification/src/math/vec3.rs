//! Vectors by the ordinals of their components.
//!
//! Such a vector cannot be added to another or measured, but it can be
//! negated and its components can be compared with a bound, which is all the
//! decisions need.

use vstd::prelude::*;
use core::ops::Neg;
use crate::math::ordinal::{is_ordinal, ONE};

verus! {

/// The ordinal of 1e-8: a component below it in absolute value counts as zero.
pub const NEAR_ZERO: i64 = 0x3E45_798E_E230_8C3A;

/// Three components, each an ordinal.
#[derive(Debug, Clone, Copy, PartialEq, Eq, Structural)]
pub struct Vec3 {
    pub x: i64,
    pub y: i64,
    pub z: i64,
}

/// A colour: red in x, green in y, blue in z.
pub type Color = Vec3;

/// A place in space.
pub type Point3 = Vec3;

/// Whether an ordinal is below `NEAR_ZERO` in absolute value.
pub open spec fn is_tiny(component: i64) -> bool {
    -NEAR_ZERO < component < NEAR_ZERO
}

impl Vec3 {
    /// Whether each component is the ordinal of some double.
    pub open spec fn wf(self) -> bool {
        is_ordinal(self.x) && is_ordinal(self.y) && is_ordinal(self.z)
    }

    /// The vector with each component negated.
    pub open spec fn negated(self) -> Vec3 {
        Vec3 { x: (-self.x) as i64, y: (-self.y) as i64, z: (-self.z) as i64 }
    }

    /// Whether all three components count as zero.
    pub open spec fn is_near_zero(self) -> bool {
        is_tiny(self.x) && is_tiny(self.y) && is_tiny(self.z)
    }

    /// The component at `index`: x at 0, y at 1, z at any other.
    pub open spec fn component(self, index: usize) -> i64 {
        if index == 0 {
            self.x
        } else if index == 1 {
            self.y
        } else {
            self.z
        }
    }

    pub fn new(x: i64, y: i64, z: i64) -> (vector: Self)
        ensures
            vector == (Vec3 { x, y, z }),
    {
        Self { x, y, z }
    }

    /// The vector with its first component turned about: the ordinal of
    /// `-x` in place of that of `x`.
    pub fn new_away_from_camera(x: i64, y: i64, z: i64) -> (vector: Self)
        requires
            is_ordinal(x),
        ensures
            vector == (Vec3 { x: (-x) as i64, y, z }),
    {
        Self { x: 0 - x, y, z }
    }

    /// The vector whose three components are all `val`.
    pub fn from_float(val: i64) -> (vector: Self)
        ensures
            vector == (Vec3 { x: val, y: val, z: val }),
    {
        Vec3::new(val, val, val)
    }

    /// Whether the vector is too short to serve as a direction: every
    /// component is below 1e-8 in absolute value.
    pub fn near_zero(&self) -> (near: bool)
        ensures
            near == self.is_near_zero(),
    {
        (-NEAR_ZERO < self.x && self.x < NEAR_ZERO) && (-NEAR_ZERO < self.y && self.y < NEAR_ZERO)
            && (-NEAR_ZERO < self.z && self.z < NEAR_ZERO)
    }

    /// The component at `index`: x at 0, y at 1, z at any other.
    pub fn index(&self, index: usize) -> (component: i64)
        ensures
            component == self.component(index),
    {
        if index == 0 {
            self.x
        } else if index == 1 {
            self.y
        } else {
            self.z
        }
    }

    /// Rejection sampling of the unit ball, one draw at a time: a point drawn
    /// from the cube around the ball is kept if the square of its length,
    /// given by its ordinal, is below one.
    pub fn random_point_in_unit_sphere(drawn: Vec3, squared_length: i64) -> (kept: Option<Vec3>)
        ensures
            squared_length < ONE ==> kept == Some(drawn),
            squared_length >= ONE ==> kept is None,
    {
        if squared_length >= ONE {
            None
        } else {
            Some(drawn)
        }
    }

    /// Turns a point of the unit ball into the hemisphere around a normal.
    /// `alignment` is the ordinal of the point's dot product with the normal:
    /// where it is positive the point stays, else it is mirrored.
    pub fn random_point_in_hemisphere(in_unit_sphere: Vec3, alignment: i64) -> (point: Vec3)
        requires
            in_unit_sphere.wf(),
        ensures
            alignment > 0 ==> point == in_unit_sphere,
            alignment <= 0 ==> point == in_unit_sphere.negated(),
            point.wf(),
    {
        if alignment > 0 {
            in_unit_sphere
        } else {
            in_unit_sphere.neg()
        }
    }
}

impl Default for Vec3 {
    fn default() -> (vector: Vec3)
        ensures
            vector == (Vec3 { x: 0, y: 0, z: 0 }),
    {
        Vec3 { x: 0, y: 0, z: 0 }
    }
}

impl Neg for Vec3 {
    type Output = Vec3;

    fn neg(self) -> (negated: Vec3) {
        Vec3 { x: 0 - self.x, y: 0 - self.y, z: 0 - self.z }
    }
}

impl vstd::std_specs::ops::NegSpecImpl for Vec3 {
    open spec fn obeys_neg_spec() -> bool {
        true
    }

    open spec fn neg_req(self) -> bool {
        self.wf()
    }

    open spec fn neg_spec(self) -> Vec3 {
        self.negated()
    }
}

/// Negating a vector twice gives it back, and a negated vector is as near to
/// zero as the vector was.
pub proof fn lemma_negation(vector: Vec3)
    requires
        vector.wf(),
    ensures
        vector.negated().wf(),
        vector.negated().negated() == vector,
        vector.negated().is_near_zero() == vector.is_near_zero(),
{
}

} // verus!
