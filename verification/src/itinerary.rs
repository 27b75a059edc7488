//! Read view of a vehicle's externally computed route: the next waypoint,
//! the segment currently traversed, and the terminal point, each possibly
//! absent ("nothing to do, hold position").

use vstd::prelude::*;

verus! {

use crate::v3::Vec3;

/// The kind of path segment being traversed, with the id of the lane or
/// turn in the road map.
#[derive(Clone, Copy, PartialEq, Eq, Structural, Debug)]
pub enum TraverseKind {
    Lane(u64),
    Turn(u64),
}

impl TraverseKind {
    /// Whether this segment is a lane (turns cross intersections).
    pub fn is_lane(&self) -> (r: bool)
        ensures
            r == (*self is Lane),
    {
        match *self {
            TraverseKind::Lane(_) => true,
            TraverseKind::Turn(_) => false,
        }
    }
}

/// A segment of the route.
#[derive(Clone, Copy, PartialEq, Eq, Structural, Debug)]
pub struct Traversable {
    pub kind: TraverseKind,
}

/// The slice of the itinerary the decision engine reads each tick.
#[derive(Clone, Copy, PartialEq, Eq, Structural, Debug)]
pub struct Itinerary {
    /// The next waypoint to steer toward, if any.
    pub point: Option<Vec3>,
    /// The segment currently traversed, if any.
    pub travers: Option<Traversable>,
    /// The final point of the whole route, if already known.
    pub terminal: Option<Vec3>,
}

impl Itinerary {
    /// All points present lie in the world box.
    pub open spec fn wf(self) -> bool {
        &&& (self.point matches Some(p) ==> p.in_world())
    &&& (self.terminal matches Some(p) ==> p.in_world())
    }

    /// An itinerary with nothing to do.
    pub fn none() -> (r: Itinerary)
        ensures
            r.point is None,
            r.travers is None,
            r.terminal is None,
            r.wf(),
    {
        Itinerary { point: None, travers: None, terminal: None }
    }

    /// The next waypoint, if any.
    pub fn get_point(&self) -> (r: Option<Vec3>)
        ensures
            r == self.point,
    {
        self.point
    }

    /// The segment currently traversed, if any.
    pub fn get_travers(&self) -> (r: Option<&Traversable>)
        ensures
            r is Some <==> self.travers is Some,
            r matches Some(t) ==> self.travers == Some(*t),
    {
        self.travers.as_ref()
    }

    /// The terminal point of the route, if known.
    pub fn get_terminal(&self) -> (r: Option<Vec3>)
        ensures
            r == self.terminal,
    {
        self.terminal
    }

    /// Whether the current segment is a lane.
    pub fn on_lane(&self) -> (r: bool)
        ensures
            r == (self.travers matches Some(t) && t.kind is Lane),
    {
        match self.travers {
            Some(t) => t.kind.is_lane(),
            None => false,
        }
    }
}

} // verus!
