//! Read view of the road map: lanes with their traffic control, and the
//! parking registry.  Topology and light timing tables live in an external
//! collaborator; the decision engine only looks lanes and spots up by id.

use vstd::prelude::*;

verus! {

broadcast use vstd::std_specs::hash::group_hash_axioms;

use std::collections::HashMap;
use crate::v3::Vec3;
use crate::physics::Transform;

/// What a traffic control tells an approaching vehicle right now.
#[derive(Clone, Copy, PartialEq, Eq, Structural, Debug)]
pub enum TrafficBehavior {
    RED,
    ORANGE,
    GREEN,
    STOP,
}

/// The control installed at the end of a lane: none, a stop sign, or a
/// periodic light (all durations in milli-seconds).
#[derive(Clone, Copy, PartialEq, Eq, Structural, Debug)]
pub enum TrafficControl {
    /// Free flow: always reports green.
    Always,
    /// A stop sign: always reports stop.
    StopSign,
    /// A light cycling green, then orange, then red.
    Light { green: i64, orange: i64, red: i64, offset: i64 },
}

impl TrafficControl {
    /// Periods are positive and the offset non-negative, so the phase
    /// arithmetic stays exact.
    pub open spec fn wf(self) -> bool {
        match self {
            TrafficControl::Light { green, orange, red, offset } => {
                &&& 0 < green <= 1_000_000_000
            &&& 0 < orange <= 1_000_000_000
            &&& 0 < red <= 1_000_000_000
            &&& 0 <= offset <= 1_000_000_000
            },
            _ => true,
        }
    }

    /// The phase of a light at `seconds`, from the start of its cycle.
    pub open spec fn spec_phase(self, seconds: int) -> int
        recommends
            self is Light,
    {
        match self {
            TrafficControl::Light { green, orange, red, offset } => (seconds + offset) % (
            green + orange + red),
            _ => 0,
        }
    }

    /// What the control reports at `seconds` of simulated time.
    pub open spec fn spec_behavior(self, seconds: int) -> TrafficBehavior {
        match self {
            TrafficControl::Always => TrafficBehavior::GREEN,
            TrafficControl::StopSign => TrafficBehavior::STOP,
            TrafficControl::Light { green, orange, red, offset } => {
                let phase = self.spec_phase(seconds);
                if phase < green {
                    TrafficBehavior::GREEN
                } else if phase < green + orange {
                    TrafficBehavior::ORANGE
                } else {
                    TrafficBehavior::RED
                }
            },
        }
    }

    /// Evaluate the control at `seconds` of simulated time.
    pub fn get_behavior(&self, seconds: i64) -> (r: TrafficBehavior)
        requires
            self.wf(),
            0 <= seconds <= 4_000_000_000_000,
        ensures
            r == self.spec_behavior(seconds as int),
    {
        match *self {
            TrafficControl::Always => TrafficBehavior::GREEN,
            TrafficControl::StopSign => TrafficBehavior::STOP,
            TrafficControl::Light { green, orange, red, offset } => {
                let total = green + orange + red;
                let phase = (seconds + offset) % total;
                if phase < green {
                    TrafficBehavior::GREEN
                } else if phase < green + orange {
                    TrafficBehavior::ORANGE
                } else {
                    TrafficBehavior::RED
                }
            },
        }
    }
}

/// The slice of a lane the decision engine reads.
#[derive(Clone, Copy, PartialEq, Eq, Structural, Debug)]
pub struct Lane {
    /// Speed limit, milli-units per second.
    pub speed_limit: i64,
    /// The point where the lane's control applies (its far end).
    pub control_point: Vec3,
    /// The control installed there.
    pub control: TrafficControl,
}

impl Lane {
    pub open spec fn wf(self) -> bool {
        &&& 0 <= self.speed_limit <= crate::physics::MAX_SPEED
    &&& self.control_point.in_world()
    &&& self.control.wf()
    }

    /// Where the lane's control applies.
    pub fn control_point(&self) -> (r: Vec3)
        ensures
            r == self.control_point,
    {
        self.control_point
    }
}

/// A parking spot: the exact transform a parked vehicle snaps to.
#[derive(Clone, Copy, PartialEq, Eq, Structural, Debug)]
pub struct ParkingSpot {
    pub trans: Transform,
}

/// Lanes and parking spots, keyed by stable integer ids.
pub struct WorldMap {
    pub lanes: HashMap<u64, Lane>,
    pub parking: HashMap<u64, ParkingSpot>,
}

impl WorldMap {
    /// Every lane stored is well-formed.
    pub open spec fn wf(self) -> bool {
        forall|id: u64| self.lanes@.contains_key(id) ==> (#[trigger] self.lanes@[id]).wf()
    }

    /// An empty map.
    pub fn new() -> (r: WorldMap)
        ensures
            r.lanes@ == Map::<u64, Lane>::empty(),
            r.parking@ == Map::<u64, ParkingSpot>::empty(),
            r.wf(),
    {
        WorldMap { lanes: HashMap::new(), parking: HashMap::new() }
    }

    /// Register or replace a lane.
    pub fn add_lane(&mut self, id: u64, lane: Lane)
        requires
            lane.wf(),
        ensures
            final(self).lanes@ == old(self).lanes@.insert(id, lane),
            final(self).parking@ == old(self).parking@,
            old(self).wf() ==> final(self).wf(),
    {
        self.lanes.insert(id, lane);
        proof {
            if old(self).wf() {
                assert forall|k: u64| self.lanes@.contains_key(k) implies (
                #[trigger] self.lanes@[k]).wf() by {
                    if k != id {
                        assert(old(self).lanes@.contains_key(k));
                    }
                }
            }
        }
    }

    /// Register or replace a parking spot.
    pub fn add_spot(&mut self, id: u64, spot: ParkingSpot)
        ensures
            final(self).parking@ == old(self).parking@.insert(id, spot),
            final(self).lanes@ == old(self).lanes@,
            old(self).wf() ==> final(self).wf(),
    {
        self.parking.insert(id, spot);
    }

    /// Remove a parking spot (for instance when the lane it sat on is
    /// rebuilt); a vehicle parked there will be destroyed by the state
    /// machine.
    pub fn remove_spot(&mut self, id: u64)
        ensures
            final(self).parking@ == old(self).parking@.remove(id),
            final(self).lanes@ == old(self).lanes@,
            old(self).wf() ==> final(self).wf(),
    {
        self.parking.remove(&id);
    }

    /// Look a lane up by id.
    pub fn get_lane(&self, id: u64) -> (r: Option<&Lane>)
        ensures
            r is Some <==> self.lanes@.contains_key(id),
            r matches Some(l) ==> *l == self.lanes@[id],
    {
        self.lanes.get(&id)
    }

    /// Look a parking spot up by id.
    pub fn get_spot(&self, id: u64) -> (r: Option<&ParkingSpot>)
        ensures
            r is Some <==> self.parking@.contains_key(id),
            r matches Some(s) ==> *s == self.parking@[id],
    {
        self.parking.get(&id)
    }
}

} // verus!
