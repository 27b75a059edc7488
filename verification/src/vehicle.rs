//! Vehicles: kinematic profiles per kind, the behavioural state machine's
//! state, and the per-vehicle mutable record the decision engine drives.

use vstd::prelude::*;

verus! {

use crate::spline::Spline;

/// How long the scripted road-to-park glide takes, milli-seconds.
pub const TIME_TO_PARK: i64 = 4000;

/// How long a panicking vehicle stays panicked, milli-seconds.
pub const PANIC_TIMEOUT: i64 = 5000;

/// The class of a vehicle, fixing its kinematic constants.
#[derive(Clone, Copy, PartialEq, Eq, Structural, Debug)]
pub enum VehicleKind {
    Car,
    Truck,
    Bus,
}

impl VehicleKind {
    /// Forward acceleration, milli-units per second squared.
    pub fn acceleration(self) -> (r: i64)
        ensures
            r == self.spec_acceleration(),
    {
        match self {
            VehicleKind::Car => 3000,
            VehicleKind::Truck => 2000,
            VehicleKind::Bus => 1500,
        }
    }

    pub open spec fn spec_acceleration(self) -> i64 {
        match self {
            VehicleKind::Car => 3000,
            VehicleKind::Truck => 2000,
            VehicleKind::Bus => 1500,
        }
    }

    /// Braking deceleration, milli-units per second squared.
    pub fn deceleration(self) -> (r: i64)
        ensures
            r == self.spec_deceleration(),
            r > 0,
    {
        match self {
            VehicleKind::Car => 4000,
            VehicleKind::Truck => 3000,
            VehicleKind::Bus => 3000,
        }
    }

    pub open spec fn spec_deceleration(self) -> i64 {
        match self {
            VehicleKind::Car => 4000,
            VehicleKind::Truck => 3000,
            VehicleKind::Bus => 3000,
        }
    }

    /// Body width, milli-units.
    pub fn width(self) -> (r: i64)
        ensures
            r == self.spec_width(),
            r > 0,
    {
        match self {
            VehicleKind::Car => 1800,
            VehicleKind::Truck => 2500,
            VehicleKind::Bus => 2500,
        }
    }

    pub open spec fn spec_width(self) -> i64 {
        match self {
            VehicleKind::Car => 1800,
            VehicleKind::Truck => 2500,
            VehicleKind::Bus => 2500,
        }
    }

    /// Tightest turning radius, milli-units.
    pub fn min_turning_radius(self) -> (r: i64)
        ensures
            r == self.spec_min_turning_radius(),
            r > 0,
    {
        match self {
            VehicleKind::Car => 3000,
            VehicleKind::Truck => 4000,
            VehicleKind::Bus => 5000,
        }
    }

    pub open spec fn spec_min_turning_radius(self) -> i64 {
        match self {
            VehicleKind::Car => 3000,
            VehicleKind::Truck => 4000,
            VehicleKind::Bus => 5000,
        }
    }

    /// Angular acceleration, milli-radians per second squared.
    pub fn ang_acc(self) -> (r: i64)
        ensures
            r == self.spec_ang_acc(),
            r > 0,
    {
        match self {
            VehicleKind::Car => 1000,
            VehicleKind::Truck => 900,
            VehicleKind::Bus => 800,
        }
    }

    pub open spec fn spec_ang_acc(self) -> i64 {
        match self {
            VehicleKind::Car => 1000,
            VehicleKind::Truck => 900,
            VehicleKind::Bus => 800,
        }
    }

    /// Cruise-speed multiplier applied to the lane's limit, in thousandths.
    pub fn speed_factor(self) -> (r: i64)
        ensures
            r == self.spec_speed_factor(),
            0 < r <= 1000,
    {
        match self {
            VehicleKind::Car => 1000,
            VehicleKind::Truck => 800,
            VehicleKind::Bus => 800,
        }
    }

    pub open spec fn spec_speed_factor(self) -> i64 {
        match self {
            VehicleKind::Car => 1000,
            VehicleKind::Truck => 800,
            VehicleKind::Bus => 800,
        }
    }
}

/// Behavioural state of a vehicle.  Transitions are one-directional except
/// the panic timeout, and are the state machine's sole responsibility.
#[derive(Clone, Copy, PartialEq, Eq, Structural, Debug)]
pub enum VehicleState {
    /// Normal driving under the decision engine.
    Driving,
    /// Gridlocked and backing off; holds the instant it was entered,
    /// milli-seconds of simulated time.
    Panicking(i64),
    /// Scripted glide along a spline into a parking spot: the path, the
    /// progress through it in thousandths, and the target spot id.
    RoadToPark(Spline, i64, u64),
    /// Parked in the spot with the given id.
    Parked(u64),
}

/// The per-vehicle record the decision engine and state machine mutate.
#[derive(Clone, Copy, PartialEq, Eq, Structural, Debug)]
pub struct Vehicle {
    /// Class, fixing the kinematic constants.
    pub kind: VehicleKind,
    /// Behavioural state.
    pub state: VehicleState,
    /// Current angular velocity, milli-radians per second.
    pub ang_velocity: i64,
    /// Countdown before the next decision, milli-seconds.
    pub wait_time: i64,
    /// Gridlock-breaking token: the identity of the agent believed to be
    /// blocking this one, `0` when none.
    pub flag: u64,
}

impl Vehicle {
    /// Field bounds every vehicle record obeys.
    pub open spec fn wf(self) -> bool {
        &&& 0 <= self.ang_velocity <= 1_000_000
    &&& 0 <= self.wait_time <= 1_000_000_000
    &&& match self.state {
        VehicleState::Panicking(since) => 0 <= since <= 4_000_000_000_000,
        VehicleState::RoadToPark(spline, t, _) => spline.wf() && 0 <= t <= 1_000_000,
        _ => true,
    }
    }

    /// A fresh vehicle of the given kind, driving.
    pub fn new(kind: VehicleKind) -> (r: Vehicle)
        ensures
            r.kind == kind,
            r.state == VehicleState::Driving,
            r.ang_velocity == 0,
            r.wait_time == 0,
            r.flag == 0,
            r.wf(),
    {
        Vehicle { kind, state: VehicleState::Driving, ang_velocity: 0, wait_time: 0, flag: 0 }
    }
}

} // verus!
