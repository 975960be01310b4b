//! The protocol between a ray and the things in its way.

use vstd::prelude::*;

verus! {

/// An object as one ray sees it.
///
/// The ray is fixed, and the object answers for an interval of ray
/// parameters, given by the ordinals of its ends: does the ray hit it
/// within the interval, and at which parameter. A narrower interval must not
/// change the answer, only lose it: that is what lets a scene narrow the
/// interval to the closest hit so far and still find the closest of all.
pub trait Hittable {
    /// What `hit` answers.
    spec fn hit_at(&self, t_min: i64, t_max: i64) -> Option<i64>;

    /// Whether the object is one that the laws below hold of.
    spec fn wf(&self) -> bool;

    /// The ordinal of the parameter at which the ray hits the object within
    /// `[t_min, t_max]`, or `None` where it does not.
    fn hit(&self, t_min: i64, t_max: i64) -> (t: Option<i64>)
        ensures
            t == self.hit_at(t_min, t_max),
    ;

    /// A hit lies within the interval that was asked for.
    proof fn lemma_hit_within(&self, t_min: i64, t_max: i64)
        requires
            self.wf(),
        ensures
            self.hit_at(t_min, t_max) matches Some(t) ==> t_min <= t <= t_max,
    ;

    /// With a lower upper end the object answers as before where the hit
    /// still lies within the interval, and with no hit where it does not.
    proof fn lemma_hit_narrowed(&self, t_min: i64, t_max: i64, narrowed: i64)
        requires
            self.wf(),
            narrowed <= t_max,
        ensures
            self.hit_at(t_min, narrowed) == match self.hit_at(t_min, t_max) {
                Some(t) => if t <= narrowed {
                    Some(t)
                } else {
                    None
                },
                None => None,
            },
    ;
}

} // verus!
