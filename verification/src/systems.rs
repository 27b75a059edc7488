//! The per-tick systems: the state machine that moves vehicles between
//! driving, parking and parked, and the orchestration that feeds the
//! decision engine into the motion integrator.
//!
//! Structural changes (detaching a collider, destroying an entity) are
//! not applied in place: they are returned as commands for the scheduler
//! to apply after the parallel phase, preserving the no-concurrent-
//! structural-mutation rule.

use vstd::prelude::*;

verus! {

use crate::num::div_trunc;
use crate::v2::Vec2;
use crate::v3::Vec3;
use crate::physics::{PhysicsObject, Transform, Kinematics, GameTime, MAX_SPEED};
use crate::vehicle::{Vehicle, VehicleState, TIME_TO_PARK};
use crate::itinerary::Itinerary;
use crate::map::WorldMap;
use crate::scanner::{spec_front_scan, scan_env_of};
use crate::decision::{spec_decision, spec_stop_dist, spec_cutoff, calc_decision};
use crate::motion::{spec_motion, physics};

/// A deferred structural command emitted by the state machine.
#[derive(Clone, Copy, PartialEq, Eq, Structural, Debug)]
pub enum VehicleCommand {
    /// Remove the vehicle's collider from the broad phase (it has parked).
    DetachCollider,
    /// Destroy the vehicle entity (its parking spot disappeared).
    Destroy,
}

/// The progress a road-to-park glide gains in one tick, thousandths.
pub open spec fn spec_park_progress(t: int, delta: int) -> int {
    t + div_trunc(delta * 1000, TIME_TO_PARK as int)
}

/// Decides whether a vehicle should change states: a road-to-park glide
/// that completes parks the vehicle and asks for its collider to be
/// detached; a parked vehicle snaps to its spot, or is destroyed when the
/// spot no longer exists.
pub fn vehicle_state_update(
    vehicle: &mut Vehicle,
    trans: &mut Transform,
    kin: &mut Kinematics,
    time: &GameTime,
    map: &WorldMap,
) -> (cmd: Option<VehicleCommand>)
    requires
        old(vehicle).wf(),
        time.wf(),
    ensures
        final(vehicle).kind == old(vehicle).kind,
        final(vehicle).flag == old(vehicle).flag,
        final(vehicle).wait_time == old(vehicle).wait_time,
        final(vehicle).ang_velocity == old(vehicle).ang_velocity,
        final(vehicle).wf(),
        old(vehicle).state matches VehicleState::RoadToPark(spline, t, spot) ==> {
            let t2 = spec_park_progress(t as int, time.delta as int);
            if t2 >= 1000 {
                &&& cmd == Some(VehicleCommand::DetachCollider)
                &&& final(vehicle).state == VehicleState::Parked(spot)
                &&& final(kin).velocity == (Vec3 { x: 0i64, y: 0i64, z: 0i64 })
                &&& final(kin).speed == 0
                &&& *final(trans) == *old(trans)
            } else {
                &&& cmd is None
                &&& final(vehicle).state == VehicleState::RoadToPark(spline, t2 as i64, spot)
                &&& *final(kin) == *old(kin)
                &&& *final(trans) == *old(trans)
            }
        },
        old(vehicle).state matches VehicleState::Parked(spot) ==> {
            &&& final(vehicle).state == old(vehicle).state
            &&& *final(kin) == *old(kin)
            &&& if map.parking@.contains_key(spot) {
                cmd is None && *final(trans) == map.parking@[spot].trans
            } else {
                cmd == Some(VehicleCommand::Destroy) && *final(trans) == *old(trans)
            }
        },
        !(old(vehicle).state is Parked) && !(old(vehicle).state is RoadToPark) ==> {
            &&& cmd is None
            &&& *final(vehicle) == *old(vehicle)
            &&& *final(kin) == *old(kin)
            &&& *final(trans) == *old(trans)
        },
{
    match vehicle.state {
        VehicleState::RoadToPark(spline, t, spot) => {
            // On rails while parking: advance the glide.
            let t2 = t + crate::num::div_i64(time.delta * 1000, TIME_TO_PARK);
            proof {
                assert(0 <= time.delta * 1000 <= 10_000_000) by (nonlinear_arith)
                    requires
                        0 <= time.delta <= 10_000,
                ;
                assert(0 <= div_trunc(time.delta * 1000, TIME_TO_PARK as int) <= 10_000_000)
                    by (nonlinear_arith)
                    requires
                        0 <= time.delta * 1000 <= 10_000_000,
                        TIME_TO_PARK == 4000,
                ;
            }
            if t2 >= 1000 {
                kin.velocity = Vec3::zero();
                kin.speed = 0;
                vehicle.state = VehicleState::Parked(spot);
                Some(VehicleCommand::DetachCollider)
            } else {
                vehicle.state = VehicleState::RoadToPark(spline, t2, spot);
                None
            }
        },
        VehicleState::Parked(spot) => {
            match map.get_spot(spot) {
                Some(p) => {
                    // Defend against spot movement: snap exactly.
                    *trans = p.trans;
                    None
                },
                None => {
                    // The spot disappeared under the vehicle: a valid
                    // lifecycle event, answered by destruction.
                    Some(VehicleCommand::Destroy)
                },
            }
        },
        _ => None,
    }
}

/// The broad-phase query radius for a vehicle: a 12-unit base plus the
/// braking distance, capped at 100 units.
pub fn danger_query_radius(speed: i64, kind: crate::vehicle::VehicleKind) -> (r: i64)
    requires
        0 <= speed <= MAX_SPEED,
    ensures
        ({
            let danger = spec_stop_dist(speed as int, kind.spec_deceleration() as int);
            r == 12_000 + (if danger <= 100_000 {
                danger
            } else {
                100_000int
            })
        }),
        12_000 <= r <= 112_000,
{
    let decel = kind.deceleration();
    proof {
        assert(0 <= speed * speed <= 10_000_000_000) by (nonlinear_arith)
            requires
                0 <= speed <= MAX_SPEED,
        ;
        assert(decel >= 3000);
        assert(0 <= div_trunc(speed * speed, 2 * decel as int) <= 1_700_000) by (nonlinear_arith)
            requires
                0 <= speed * speed <= 10_000_000_000,
                3000 <= decel <= 4000,
        ;
    }
    let danger = crate::num::div_i64(speed * speed, 2 * decel);
    12_000 + crate::num::imin(danger, 100_000)
}

/// One vehicle's whole tick: if it is driving or panicking, run the
/// decision engine over the neighbourhood the broad phase returned, then
/// integrate the motion.  The caller performs the query itself (with
/// [`danger_query_radius`]) and hands the snapshots in.
pub fn vehicle_decision(
    map: &WorldMap,
    time: &GameTime,
    me: u64,
    it: &Itinerary,
    trans: &mut Transform,
    kin: &mut Kinematics,
    vehicle: &mut Vehicle,
    self_obj: &PhysicsObject,
    neighs: &Vec<(Vec2, PhysicsObject)>,
)
    requires
        old(vehicle).wf(),
        old(trans).wf(),
        self_obj.wf(),
        it.wf(),
        time.wf(),
        map.wf(),
        forall|i: int| 0 <= i < neighs@.len() ==> crate::scanner::nei_wf(#[trigger] neighs@[i]),
    ensures
        final(vehicle).kind == old(vehicle).kind,
        ({
            let driving = old(vehicle).state is Driving || old(vehicle).state is Panicking;
            if driving {
                let stop_dist = spec_stop_dist(
                    self_obj.speed as int,
                    old(vehicle).kind.spec_deceleration() as int,
                );
                let front = spec_front_scan(
                    scan_env_of(
                        *old(vehicle),
                        *old(trans),
                        *self_obj,
                        *it,
                        spec_cutoff(stop_dist) as i64,
                    ),
                    neighs@,
                );
                let (v1, sp, dir) = spec_decision(
                    me,
                    *old(vehicle),
                    map.lanes@,
                    *time,
                    *old(trans),
                    *self_obj,
                    *it,
                    front,
                );
                let (t2, k2, av2) = spec_motion(
                    *old(trans),
                    *old(kin),
                    v1,
                    *time,
                    self_obj.speed as int,
                    sp,
                    dir,
                );
                &&& *final(trans) == t2
                &&& *final(kin) == k2
                &&& *final(vehicle) == (Vehicle { ang_velocity: av2, ..v1 })
            } else {
                // Parked or road-to-park: scripted motion only.
                &&& *final(vehicle) == *old(vehicle)
                &&& (old(vehicle).state matches VehicleState::Parked(spot) ==> {
                    &&& *final(kin) == *old(kin)
                    &&& (map.parking@.contains_key(spot) ==> *final(trans)
                        == map.parking@[spot].trans)
                    &&& (!map.parking@.contains_key(spot) ==> *final(trans) == *old(trans))
                })
                &&& (old(vehicle).state matches VehicleState::RoadToPark(spline, t, _) ==> {
                    let tc = if t <= 1000 {
                        t as int
                    } else {
                        1000int
                    };
                    &&& *final(kin) == *old(kin)
                    &&& final(trans).position == spline.spec_get(tc)
                    &&& {
                        let d = spline.spec_derivative(tc);
                        if d.spec_mag() < 1 {
                            final(trans).dir == old(trans).dir
                        } else {
                            final(trans).dir == d.spec_normalized(d.spec_mag())
                        }
                    }
                })
            }
        }),
{
    let mut desired_speed: i64 = 0;
    let mut desired_dir = Vec3::zero();
    let mut driving = false;
    match vehicle.state {
        VehicleState::Driving => {
            driving = true;
        },
        VehicleState::Panicking(_) => {
            driving = true;
        },
        _ => {},
    }
    if driving {
        let (s, d) = calc_decision(me, vehicle, map, time, trans, self_obj, it, neighs);
        desired_speed = s;
        desired_dir = d;
        proof {
            assert(!(vehicle.state is Parked) && !(vehicle.state is RoadToPark));
        }
    }
    physics(trans, kin, vehicle, time, self_obj, map, desired_speed, desired_dir);
}

} // verus!
