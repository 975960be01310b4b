//! A scene: the objects in the way of a ray, and the closest hit among them.

use vstd::prelude::*;
use crate::hittables::hittable::Hittable;

verus! {

/// The closest hit in a scene: which object was hit, by its place in the
/// list, and the ordinal of the ray parameter of the hit.
#[derive(Debug, Clone, Copy, PartialEq, Eq, Structural)]
pub struct Closest {
    pub object: usize,
    pub t: i64,
}

/// The objects of a scene as one ray sees them, in the order of the scene.
#[derive(Debug, Clone)]
pub struct HittableList<Geometry: Hittable> {
    pub objects: Vec<Geometry>,
}

/// The closest hit among the first `count` objects, found as a scan finds
/// it: each object is asked for a hit no farther than the closest one
/// before it, and a hit that it reports takes that one's place.
pub open spec fn closest_among<Geometry: Hittable>(
    objects: Seq<Geometry>,
    count: int,
    t_min: i64,
    t_max: i64,
) -> Option<Closest>
    decreases count,
{
    if count <= 0 || count > objects.len() {
        None
    } else {
        let before = closest_among(objects, count - 1, t_min, t_max);
        let limit = match before {
            Some(closest) => closest.t,
            None => t_max,
        };
        match objects[count - 1].hit_at(t_min, limit) {
            Some(t) => Some(Closest { object: (count - 1) as usize, t }),
            None => before,
        }
    }
}

/// Whether `closest` is the closest hit within `[t_min, t_max]` among the
/// first `count` objects: the object named reports that hit, no object
/// reports a closer one, and none after it reports one as close.
pub open spec fn is_closest<Geometry: Hittable>(
    objects: Seq<Geometry>,
    count: int,
    t_min: i64,
    t_max: i64,
    closest: Closest,
) -> bool {
    &&& closest.object < count
    &&& objects[closest.object as int].hit_at(t_min, t_max) == Some(closest.t)
    &&& forall|i: int|
        0 <= i < count ==> (#[trigger] objects[i].hit_at(t_min, t_max) matches Some(t)
            ==> closest.t <= t)
    &&& forall|i: int|
        closest.object < i < count ==> (#[trigger] objects[i].hit_at(t_min, t_max) matches Some(t)
            ==> closest.t < t)
}

/// Whether none of the first `count` objects reports a hit within
/// `[t_min, t_max]`.
pub open spec fn all_miss<Geometry: Hittable>(
    objects: Seq<Geometry>,
    count: int,
    t_min: i64,
    t_max: i64,
) -> bool {
    forall|i: int| 0 <= i < count ==> #[trigger] objects[i].hit_at(t_min, t_max) is None
}

impl<Geometry: Hittable> HittableList<Geometry> {
    /// Whether every object of the scene is well formed.
    pub open spec fn wf(&self) -> bool {
        forall|i: int| 0 <= i < self.objects@.len() ==> #[trigger] self.objects@[i].wf()
    }

    /// A scene with nothing in it.
    pub fn new() -> (list: Self)
        ensures
            list.objects@ == Seq::<Geometry>::empty(),
    {
        HittableList { objects: Vec::new() }
    }

    /// Puts one more object at the end of the scene.
    pub fn add(&mut self, object: Geometry)
        ensures
            final(self).objects@ == old(self).objects@.push(object),
    {
        self.objects.push(object)
    }

    /// The closest hit of the ray within `[t_min, t_max]`, or `None` where it
    /// hits nothing there. Of two objects hit at the same parameter the one
    /// later in the scene is named.
    pub fn hit(&self, t_min: i64, t_max: i64) -> (closest: Option<Closest>)
        ensures
            closest == closest_among(self.objects@, self.objects@.len() as int, t_min, t_max),
            self.wf() ==> match closest {
                Some(found) => is_closest(
                    self.objects@,
                    self.objects@.len() as int,
                    t_min,
                    t_max,
                    found,
                ),
                None => all_miss(self.objects@, self.objects@.len() as int, t_min, t_max),
            },
    {
        let count: usize = self.objects.len();
        proof {
            if self.wf() {
                lemma_scan_finds_closest(
                    self.objects@,
                    self.objects@.len() as int,
                    t_min,
                    t_max,
                );
            }
        }
        let mut closest_so_far: Option<Closest> = None;
        let mut t_max: i64 = t_max;
        let ghost asked: i64 = t_max;
        let mut index: usize = 0;
        while index < count
            invariant
                count == self.objects@.len(),
                index <= count,
                closest_so_far == closest_among(self.objects@, index as int, t_min, asked),
                t_max == match closest_so_far {
                    Some(closest) => closest.t,
                    None => asked,
                },
            decreases count - index,
        {
            if let Some(t) = self.objects[index].hit(t_min, t_max) {
                t_max = t;
                closest_so_far = Some(Closest { object: index, t });
            }
            index = index + 1;
        }
        closest_so_far
    }
}

/// What the scan finds is the closest hit: where every object is well
/// formed, the scan over the first `count` of them names an object that is
/// hit within `[t_min, t_max]` at the parameter given, no object is hit
/// closer, and none later in the scene as close; and it finds nothing
/// exactly where every object is missed.
pub proof fn lemma_scan_finds_closest<Geometry: Hittable>(
    objects: Seq<Geometry>,
    count: int,
    t_min: i64,
    t_max: i64,
)
    requires
        0 <= count <= objects.len() <= usize::MAX,
        forall|i: int| 0 <= i < objects.len() ==> #[trigger] objects[i].wf(),
    ensures
        match closest_among(objects, count, t_min, t_max) {
            Some(closest) => is_closest(objects, count, t_min, t_max, closest),
            None => all_miss(objects, count, t_min, t_max),
        },
    decreases count,
{
    if count > 0 {
        lemma_scan_finds_closest(objects, count - 1, t_min, t_max);
        let last = objects[count - 1];
        last.lemma_hit_within(t_min, t_max);
        match closest_among(objects, count - 1, t_min, t_max) {
            Some(before) => {
                objects[before.object as int].lemma_hit_within(t_min, t_max);
                last.lemma_hit_narrowed(t_min, t_max, before.t);
                match last.hit_at(t_min, before.t) {
                    Some(t) => {
                        let found = Closest { object: (count - 1) as usize, t };
                        assert forall|i: int| 0 <= i < count implies (
                        #[trigger] objects[i].hit_at(t_min, t_max) matches Some(other) ==> t
                            <= other) by {
                            if i < count - 1 {
                                if let Some(other) = objects[i].hit_at(t_min, t_max) {
                                    assert(before.t <= other);
                                }
                            }
                        }
                        assert(is_closest(objects, count, t_min, t_max, found));
                    },
                    None => {
                        assert(is_closest(objects, count, t_min, t_max, before));
                    },
                }
            },
            None => {
                match last.hit_at(t_min, t_max) {
                    Some(t) => {
                        let found = Closest { object: (count - 1) as usize, t };
                        assert(is_closest(objects, count, t_min, t_max, found));
                    },
                    None => {},
                }
            },
        }
    }
}

/// The closest hit lies within the interval that was asked for.
pub proof fn lemma_closest_within<Geometry: Hittable>(
    objects: Seq<Geometry>,
    t_min: i64,
    t_max: i64,
)
    requires
        objects.len() <= usize::MAX,
        forall|i: int| 0 <= i < objects.len() ==> #[trigger] objects[i].wf(),
    ensures
        closest_among(objects, objects.len() as int, t_min, t_max) matches Some(closest) ==> t_min
            <= closest.t <= t_max && closest.object < objects.len(),
{
    lemma_scan_finds_closest(objects, objects.len() as int, t_min, t_max);
    if let Some(closest) = closest_among(objects, objects.len() as int, t_min, t_max) {
        objects[closest.object as int].lemma_hit_within(t_min, t_max);
    }
}

} // verus!
