//! Read-only physics snapshots and per-tick synchronisation.
//!
//! The broad-phase collision world is an external collaborator; what the
//! decision engine sees of a neighbour is the [`PhysicsObject`] snapshot
//! below, refreshed once per tick before any decision runs.

use vstd::prelude::*;

verus! {

use crate::v2::Vec2;
use crate::v3::Vec3;
use crate::ray::dir_scale_ok;

/// Largest speed the model admits, in milli-units per second (100 m/s).
pub const MAX_SPEED: i64 = 100_000;

/// Largest bounding radius the model admits, in milli-units (100 m).
pub const MAX_RADIUS: i64 = 100_000;

/// Broad-phase collision group of an object.
#[derive(Clone, Copy, PartialEq, Eq, Structural, Debug)]
pub enum PhysicsGroup {
    Unknown,
    Vehicles,
    Pedestrians,
}

/// Per-neighbour read view handed out by the broad-phase query.
#[derive(Clone, Copy, PartialEq, Eq, Structural, Debug)]
pub struct PhysicsObject {
    /// Heading, a direction vector at unit scale (may transiently be zero).
    pub dir: Vec2,
    /// Scalar speed, milli-units per second.
    pub speed: i64,
    /// Bounding radius, milli-units.
    pub radius: i64,
    /// Height above the ground plane, milli-units.
    pub height: i64,
    /// Collision group.
    pub group: PhysicsGroup,
    /// Gridlock-breaking token of the agent, `0` when none.
    pub flag: u64,
}

impl PhysicsObject {
    /// Field bounds every snapshot obeys.
    pub open spec fn wf(self) -> bool {
        &&& dir_scale_ok(self.dir)
    &&& 0 <= self.speed <= MAX_SPEED
    &&& 0 <= self.radius <= MAX_RADIUS
    &&& -crate::v2::MAX_WORLD <= self.height <= crate::v2::MAX_WORLD
    }
}

/// Position and heading of an agent.
#[derive(Clone, Copy, PartialEq, Eq, Structural, Debug)]
pub struct Transform {
    /// Position, milli-units (the `z` coordinate is the height).
    pub position: Vec3,
    /// Heading, a direction vector at unit scale.
    pub dir: Vec3,
}

impl Transform {
    /// Position inside the world box and heading at unit scale.
    pub open spec fn wf(self) -> bool {
        &&& self.position.in_world()
    &&& -2000 <= self.dir.x <= 2000
    &&& -2000 <= self.dir.y <= 2000
    &&& -2000 <= self.dir.z <= 2000
    }
}

/// Velocity state of an agent.
#[derive(Clone, Copy, PartialEq, Eq, Structural, Debug)]
pub struct Kinematics {
    /// Velocity vector, milli-units per second.
    pub velocity: Vec3,
    /// Scalar speed, milli-units per second.
    pub speed: i64,
}

/// Simulation clock: everything is in milli-seconds of simulated time.
#[derive(Clone, Copy, PartialEq, Eq, Structural, Debug)]
pub struct GameTime {
    /// Time elapsed since the previous tick.
    pub delta: i64,
    /// Time elapsed since the start of the simulation.
    pub seconds: i64,
}

impl GameTime {
    /// Tick deltas are short and the clock does not run backwards.
    pub open spec fn wf(self) -> bool {
        0 <= self.delta <= 10_000 && 0 <= self.seconds <= 4_000_000_000_000
    }

    /// The current instant, used to timestamp state transitions.
    pub fn instant(&self) -> (r: i64)
        ensures
            r == self.seconds,
    {
        self.seconds
    }
}

/// One agent's share of the physics-synchronisation pass: refresh its
/// broad-phase snapshot from its transform, kinematics and gridlock flag.
/// The surrounding loop over the collision world is the scheduler's.
pub fn sync_object(po: &mut PhysicsObject, trans: &Transform, kin: &Kinematics, flag: Option<u64>)
    ensures
        final(po).dir.x == trans.dir.x,
        final(po).dir.y == trans.dir.y,
        final(po).speed == kin.speed,
        final(po).height == trans.position.z,
        final(po).flag == match flag {
            Some(f) => f,
            None => old(po).flag,
        },
        final(po).radius == old(po).radius,
        final(po).group == old(po).group,
{
    po.dir = trans.dir.xy();
    po.speed = kin.speed;
    po.height = trans.position.z;
    if let Some(f) = flag {
        po.flag = f;
    }
}

} // verus!
