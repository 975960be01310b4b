//! A sphere in the way of a ray.
//!
//! Putting the ray `origin + t * direction` into the equation of the sphere
//! gives a quadratic in `t`. With `oc` the vector from the centre to the
//! origin, `a` the square of the direction's length and `half_b` the dot
//! product of `oc` with the direction, its discriminant is
//! `half_b * half_b - a * (oc * oc - radius * radius)` and its roots are
//! `(-half_b - sqrt(discriminant)) / a` and `(-half_b + sqrt(discriminant)) / a`.

use vstd::prelude::*;
use crate::hittables::hittable::Hittable;

verus! {

/// A sphere as one ray sees it: the discriminant of their quadratic and its
/// two roots, each by its ordinal. The roots count only where the
/// discriminant is not negative.
#[derive(Debug, Clone, Copy, PartialEq, Eq, Structural)]
pub struct Sphere {
    pub discriminant: i64,
    /// The smaller root: where the ray's line enters the sphere.
    pub near: i64,
    /// The larger root: where the ray's line leaves the sphere.
    pub far: i64,
}

impl Sphere {
    /// Whether the ray's line meets the sphere at all.
    pub open spec fn crossed(self) -> bool {
        self.discriminant >= 0
    }

    pub fn new(discriminant: i64, near: i64, far: i64) -> (sphere: Sphere)
        ensures
            sphere == (Sphere { discriminant, near, far }),
    {
        Sphere { discriminant, near, far }
    }
}

impl Hittable for Sphere {
    /// No hit where the discriminant is negative. Else the smaller root
    /// where it lies within the interval, else the larger root where that
    /// one does, else no hit.
    open spec fn hit_at(&self, t_min: i64, t_max: i64) -> Option<i64> {
        if self.discriminant < 0 {
            None
        } else if t_min <= self.near <= t_max {
            Some(self.near)
        } else if t_min <= self.far <= t_max {
            Some(self.far)
        } else {
            None
        }
    }

    /// The roots are in their order.
    open spec fn wf(&self) -> bool {
        self.crossed() ==> self.near <= self.far
    }

    fn hit(&self, t_min: i64, t_max: i64) -> (t: Option<i64>) {
        if self.discriminant < 0 {
            return None;
        }
        let mut root: i64 = self.near;
        if root < t_min || t_max < root {
            root = self.far;
            if root < t_min || t_max < root {
                return None;
            }
        }
        Some(root)
    }

    proof fn lemma_hit_within(&self, t_min: i64, t_max: i64) {
    }

    proof fn lemma_hit_narrowed(&self, t_min: i64, t_max: i64, narrowed: i64) {
    }
}

/// A ray whose quadratic has a negative discriminant does not hit the
/// sphere, whatever the interval and whatever stands in the roots.
pub proof fn lemma_negative_discriminant_misses(sphere: Sphere, t_min: i64, t_max: i64)
    requires
        sphere.discriminant < 0,
    ensures
        sphere.hit_at(t_min, t_max) is None,
{
}

/// The hit is a root of the quadratic within the interval, and the least
/// such: the ray meets the sphere where it first may.
pub proof fn lemma_hit_is_first_root_within(sphere: Sphere, t_min: i64, t_max: i64)
    requires
        sphere.wf(),
    ensures
        sphere.hit_at(t_min, t_max) matches Some(t) ==> {
            &&& sphere.crossed()
            &&& t == sphere.near || t == sphere.far
            &&& t_min <= t <= t_max
            &&& t_min <= sphere.near <= t_max ==> t <= sphere.near
            &&& t_min <= sphere.far <= t_max ==> t <= sphere.far
        },
        sphere.hit_at(t_min, t_max) is None ==> !sphere.crossed() || (!(t_min <= sphere.near
            <= t_max) && !(t_min <= sphere.far <= t_max)),
{
}

} // verus!
