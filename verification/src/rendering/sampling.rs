//! The path of one sample, as a state machine.
//!
//! A path starts at the camera with a budget of bounces. Each test of the
//! current ray against the scene ends in one of three events: the ray misses
//! everything, the surface that it hits absorbs it, or the surface scatters
//! it. The colour of the sample is black where the path was absorbed or ran
//! out of budget; where it escaped, it is the colour of the background in the
//! direction of the last ray, multiplied by the attenuation of every bounce
//! before.

use vstd::prelude::*;

verus! {

/// The ordinal of 1e-4, the ray parameter below which a hit is not counted:
/// a scattered ray must not hit the surface that it leaves.
pub const T_MIN: i64 = 0x3F1A_36E2_EB1C_432D;

/// Where a path stands.
#[derive(Debug, Clone, Copy, PartialEq, Eq, Structural)]
pub enum PathState {
    /// The current ray is still to be tested against the scene.
    Bouncing,
    /// A surface absorbed the ray.
    Absorbed,
    /// The ray left the scene.
    Escaped,
    /// The budget of bounces ran out.
    Exhausted,
}

/// What the test of one ray against the scene ended in.
#[derive(Debug, Clone, Copy, PartialEq, Eq, Structural)]
pub enum PathEvent {
    /// The ray hit nothing.
    Missed,
    /// The ray hit a surface that absorbed it.
    Absorbed,
    /// The ray hit a surface that scattered it.
    Scattered,
}

impl PathEvent {
    /// The event of a ray that hit a surface, from the answer of the
    /// surface's material: a scattering where it gave a ray, an absorption
    /// where it gave none.
    pub fn of_hit<Scattering>(scattered: &Option<Scattering>) -> (event: PathEvent)
        ensures
            scattered is Some ==> event == PathEvent::Scattered,
            scattered is None ==> event == PathEvent::Absorbed,
    {
        match scattered {
            Some(_) => PathEvent::Scattered,
            None => PathEvent::Absorbed,
        }
    }
}

/// A path: its state and the bounces that it has left.
#[derive(Debug, Clone, Copy, PartialEq, Eq, Structural)]
pub struct Path {
    pub state: PathState,
    pub depth: i32,
}

impl Path {
    /// The path before its first ray is tested.
    pub open spec fn started(max_depth: i32) -> Path {
        Path {
            state: if max_depth <= 0 {
                PathState::Exhausted
            } else {
                PathState::Bouncing
            },
            depth: max_depth,
        }
    }

    /// The path after one more event. A path that has ended stays as it is.
    pub open spec fn stepped(self, event: PathEvent) -> Path {
        match self.state {
            PathState::Bouncing => match event {
                PathEvent::Missed => Path { state: PathState::Escaped, depth: self.depth },
                PathEvent::Absorbed => Path { state: PathState::Absorbed, depth: self.depth },
                PathEvent::Scattered => Path {
                    state: if self.depth <= 1 {
                        PathState::Exhausted
                    } else {
                        PathState::Bouncing
                    },
                    depth: (self.depth - 1) as i32,
                },
            },
            _ => self,
        }
    }

    /// Whether the path has ended.
    pub open spec fn finished(self) -> bool {
        self.state != PathState::Bouncing
    }

    /// Whether the colour of the path is black, whatever the scene holds.
    pub open spec fn black(self) -> bool {
        self.state == PathState::Absorbed || self.state == PathState::Exhausted
    }

    /// Whether the path is one that `start` and `step` can lead to: while it
    /// bounces it has budget left.
    pub open spec fn wf(self) -> bool {
        self.state == PathState::Bouncing ==> self.depth > 0
    }

    /// Starts a path with a budget of `max_depth` bounces. With no budget
    /// the path has ended before its first ray.
    pub fn start(max_depth: i32) -> (path: Path)
        ensures
            path == Path::started(max_depth),
            path.wf(),
    {
        if max_depth <= 0 {
            Path { state: PathState::Exhausted, depth: max_depth }
        } else {
            Path { state: PathState::Bouncing, depth: max_depth }
        }
    }

    /// Takes one event into the path. A scattering uses up one bounce, and
    /// the path ends where that was the last; a miss or an absorption ends
    /// it at once.
    pub fn step(self, event: PathEvent) -> (path: Path)
        requires
            self.wf(),
        ensures
            path == self.stepped(event),
            path.wf(),
    {
        match self.state {
            PathState::Bouncing => match event {
                PathEvent::Missed => Path { state: PathState::Escaped, depth: self.depth },
                PathEvent::Absorbed => Path { state: PathState::Absorbed, depth: self.depth },
                PathEvent::Scattered => {
                    let depth: i32 = self.depth - 1;
                    if depth <= 0 {
                        Path { state: PathState::Exhausted, depth }
                    } else {
                        Path { state: PathState::Bouncing, depth }
                    }
                },
            },
            _ => self,
        }
    }

    /// Whether the path has ended.
    pub fn is_finished(&self) -> (finished: bool)
        ensures
            finished == self.finished(),
    {
        match self.state {
            PathState::Bouncing => false,
            _ => true,
        }
    }

    /// Whether the colour of the path is black.
    pub fn is_black(&self) -> (black: bool)
        ensures
            black == self.black(),
    {
        match self.state {
            PathState::Absorbed => true,
            PathState::Exhausted => true,
            _ => false,
        }
    }
}

/// The path that a budget of `max_depth` and a run of events lead to.
pub open spec fn path_after(events: Seq<PathEvent>, max_depth: i32) -> Path
    decreases events.len(),
{
    if events.len() == 0 {
        Path::started(max_depth)
    } else {
        path_after(events.drop_last(), max_depth).stepped(events.last())
    }
}

/// Follows a path through the events that its rays met, in their order, and
/// says where it stands after them. Events after the end of the path count
/// for nothing.
pub fn ray_color(events: &Vec<PathEvent>, max_depth: i32) -> (path: Path)
    ensures
        path == path_after(events@, max_depth),
        path.wf(),
{
    let mut path = Path::start(max_depth);
    let mut taken: usize = 0;
    while taken < events.len()
        invariant
            taken <= events.len(),
            path == path_after(events@.take(taken as int), max_depth),
            path.wf(),
        decreases events.len() - taken,
    {
        proof {
            assert(events@.take(taken + 1).drop_last() == events@.take(taken as int));
        }
        path = path.step(events[taken]);
        taken = taken + 1;
    }
    proof {
        assert(events@.take(taken as int) == events@);
    }
    path
}

/// A path with no budget is black, whatever its rays would have met.
pub proof fn lemma_no_budget_is_black(events: Seq<PathEvent>, max_depth: i32)
    requires
        max_depth <= 0,
    ensures
        path_after(events, max_depth).state == PathState::Exhausted,
        path_after(events, max_depth).black(),
    decreases events.len(),
{
    if events.len() > 0 {
        lemma_no_budget_is_black(events.drop_last(), max_depth);
    }
}

/// A path that has ended takes in no further event.
pub proof fn lemma_finished_path_stays(path: Path, event: PathEvent)
    requires
        path.finished(),
    ensures
        path.stepped(event) == path,
{
}

/// While a path bounces, every event so far was a scattering and each took
/// one bounce from the budget.
pub proof fn lemma_bouncing_path(events: Seq<PathEvent>, max_depth: i32)
    requires
        path_after(events, max_depth).state == PathState::Bouncing,
    ensures
        forall|i: int| 0 <= i < events.len() ==> events[i] == PathEvent::Scattered,
        path_after(events, max_depth).depth == max_depth - events.len(),
        events.len() < max_depth,
    decreases events.len(),
{
    if events.len() > 0 {
        let before = path_after(events.drop_last(), max_depth);
        assert(before.state == PathState::Bouncing);
        lemma_bouncing_path(events.drop_last(), max_depth);
        assert forall|i: int| 0 <= i < events.len() implies events[i] == PathEvent::Scattered by {
            if i < events.len() - 1 {
                assert(events.drop_last()[i] == events[i]);
            }
        }
    }
}

/// The budget bounds the path: after as many events as the budget allows
/// bounces, the path has ended.
pub proof fn lemma_budget_ends_path(events: Seq<PathEvent>, max_depth: i32)
    requires
        events.len() >= max_depth,
    ensures
        path_after(events, max_depth).finished(),
{
    if path_after(events, max_depth).state == PathState::Bouncing {
        lemma_bouncing_path(events, max_depth);
    }
}

/// A path escapes only by a miss, and only after scatterings: the event that
/// ended it is the first that was not a scattering.
pub proof fn lemma_escaped_path(events: Seq<PathEvent>, max_depth: i32)
    requires
        path_after(events, max_depth).state == PathState::Escaped,
    ensures
        exists|n: int|
            0 <= n < events.len() && n < max_depth && events[n] == PathEvent::Missed
                && path_after(events, max_depth).depth == max_depth - n
                && forall|i: int| 0 <= i < n ==> events[i] == PathEvent::Scattered,
    decreases events.len(),
{
    let before = path_after(events.drop_last(), max_depth);
    if before.state == PathState::Escaped {
        lemma_escaped_path(events.drop_last(), max_depth);
        let n = choose|n: int|
            0 <= n < events.drop_last().len() && n < max_depth && events.drop_last()[n]
                == PathEvent::Missed && before.depth == max_depth - n && forall|i: int|
                0 <= i < n ==> events.drop_last()[i] == PathEvent::Scattered;
        assert(events[n] == events.drop_last()[n]);
        assert forall|i: int| 0 <= i < n implies events[i] == PathEvent::Scattered by {
            assert(events.drop_last()[i] == events[i]);
        }
    } else {
        assert(before.state == PathState::Bouncing);
        lemma_bouncing_path(events.drop_last(), max_depth);
        let n = events.len() - 1;
        assert forall|i: int| 0 <= i < n implies events[i] == PathEvent::Scattered by {
            assert(events.drop_last()[i] == events[i]);
        }
        assert(events[n] == PathEvent::Missed);
    }
}

} // verus!
