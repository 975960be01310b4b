//! The record of a hit, and the normal that it holds.

use vstd::prelude::*;
use core::ops::Neg;
use crate::math::vec3::{Point3, Vec3};
use crate::rendering::material::UberShader;

verus! {

/// What is known of the place where a ray met a surface.
#[derive(Debug, Clone, Copy, PartialEq, Eq, Structural)]
pub struct HitRecord {
    /// Where the ray met the surface.
    pub point: Point3,
    /// The surface normal there, on the side that the ray came from.
    pub normal: Vec3,
    /// The ray parameter of the hit.
    pub t: i64,
    /// The material of the surface.
    pub material: UberShader,
}

/// Whether a ray meets a surface from outside. `alignment` is the ordinal of
/// the dot product of the ray's direction with the outward normal.
pub open spec fn is_front_face(alignment: i64) -> bool {
    alignment < 0
}

/// The normal that a record holds: the outward one seen from outside, its
/// negation seen from inside.
pub open spec fn face_normal(front_face: bool, outward_normal: Vec3) -> Vec3 {
    if front_face {
        outward_normal
    } else {
        outward_normal.negated()
    }
}

/// The dot product of the ray's direction with the normal that a record
/// holds, by its ordinal: negating a normal negates the product.
pub open spec fn facing_alignment(alignment: i64) -> int {
    if is_front_face(alignment) {
        alignment as int
    } else {
        -alignment
    }
}

impl HitRecord {
    /// Picks the normal on the side that the ray came from.
    pub fn set_face_normal(front_face: bool, outward_normal: Vec3) -> (normal: Vec3)
        requires
            outward_normal.wf(),
        ensures
            normal == face_normal(front_face, outward_normal),
            normal.wf(),
    {
        if front_face {
            outward_normal
        } else {
            outward_normal.neg()
        }
    }

    /// Whether the ray meets the surface from outside: its direction and the
    /// outward normal point against each other. `alignment` is the ordinal of
    /// their dot product.
    pub fn set_front_face(alignment: i64) -> (front_face: bool)
        ensures
            front_face == is_front_face(alignment),
    {
        alignment < 0
    }

    pub fn new(p: Point3, normal: Vec3, t: i64, material: UberShader) -> (record: HitRecord)
        ensures
            record == (HitRecord { point: p, normal, t, material }),
    {
        HitRecord { point: p, normal, t, material }
    }
}

/// The normal of a record never points along the ray. Seen from outside the
/// record holds the outward normal, whose dot product with the ray's
/// direction is negative; seen from inside it holds the negated normal,
/// whose dot product is the negated one. Either way the product is negative
/// or zero.
pub proof fn lemma_normal_opposes_ray(alignment: i64, outward_normal: Vec3)
    ensures
        facing_alignment(alignment) <= 0,
        is_front_face(alignment) ==> face_normal(is_front_face(alignment), outward_normal)
            == outward_normal && facing_alignment(alignment) == alignment,
        !is_front_face(alignment) ==> face_normal(is_front_face(alignment), outward_normal)
            == outward_normal.negated() && facing_alignment(alignment) == -alignment,
{
}

} // verus!
