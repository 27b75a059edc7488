//! The per-tick decision algorithm: combine the itinerary, traffic
//! control, front-obstacle distance and the vehicle's kinematic limits
//! into a target (speed, direction) pair, updating the vehicle's wait
//! timer, gridlock flag and panic state on the way.

use vstd::prelude::*;

verus! {

use crate::num::{div_trunc, UNIT};
use crate::v2::Vec2;
use crate::v3::{Vec3, sub_v3};
use crate::physics::{PhysicsObject, Transform, GameTime, MAX_SPEED};
use crate::vehicle::{Vehicle, VehicleState, PANIC_TIMEOUT};
use crate::itinerary::{Itinerary, TraverseKind};
use crate::map::{WorldMap, Lane, TrafficBehavior};
use crate::scanner::{spec_front_scan, scan_env_of, calc_front_dist};

/// How close a waypoint must be to count as reached, milli-units (3 m).
pub const OBJECTIVE_OK_DIST: i64 = 3_000;

/// Cruise speed assumed when no lane information is available,
/// milli-units per second (9 m/s).
pub const DEFAULT_CRUISE: i64 = 9_000;

/// Requested speed while the heading is misaligned with the objective,
/// milli-units per second (6 m/s).
pub const TURN_SPEED: i64 = 6_000;

/// Below this the vehicle counts as stationary for gridlock detection,
/// milli-units per second (0.2 m/s).
pub const STATIONARY_SPEED: i64 = 200;

/// An obstacle within this of a stationary vehicle triggers the gridlock
/// protocol, milli-units (1.5 m).
pub const GRIDLOCK_RANGE: i64 = 1_500;

/// Braking distance from `speed` at constant deceleration `decel`:
/// `speed^2 / (2 decel)`, all in milli-units.
pub open spec fn spec_stop_dist(speed: int, decel: int) -> int {
    div_trunc(speed * speed, 2 * decel)
}

/// The scanner's early-exit threshold: `min(0.8 + stop_dist, 1.5)` units.
pub open spec fn spec_cutoff(stop_dist: int) -> int {
    if 800 + stop_dist <= 1500 {
        800 + stop_dist
    } else {
        1500
    }
}

/// The position-derived pseudo-random back-off wait, milli-seconds in
/// `[0, 500)`: sub-unit digits of the x coordinate, halved, to
/// desynchronize retries across deadlocked agents.
pub open spec fn spec_pseudo_wait(x: int) -> int {
    (if x >= 0 {
        x
    } else {
        -x
    }) % 1000 / 2
}

/// The unit-scale direction from `pos` toward `obj`, unless they coincide
/// to within a milli-unit.
pub open spec fn spec_dir_to(pos: Vec3, obj: Vec3) -> Option<Vec3> {
    let d = sub_v3(obj, pos);
    if d.spec_mag() < 1 {
        None
    } else {
        Some(d.spec_normalized(d.spec_mag()))
    }
}

/// Whether `a` is within `d` of `b` (squared comparison).
pub open spec fn spec_close(a: Vec3, b: Vec3, d: int) -> bool {
    sub_v3(a, b).spec_mag2() <= d * d
}

/// The inflated stopping margin before a red or orange light: the
/// objective slack grown 5%, two units, the braking distance, and any
/// half-width overhang past the slack.
pub open spec fn spec_red_margin(stop_dist: int, width: int) -> int {
    3_150 + 2_000 + stop_dist + (if width / 2 - OBJECTIVE_OK_DIST >= 0 {
        width / 2 - OBJECTIVE_OK_DIST
    } else {
        0int
    })
}

/// The decision and the vehicle record it leaves behind.  The tuple is
/// (updated vehicle, desired speed, desired direction).
pub open spec fn spec_decision(
    me: u64,
    v: Vehicle,
    lanes: Map<u64, Lane>,
    time: GameTime,
    trans: Transform,
    self_obj: PhysicsObject,
    it: Itinerary,
    front: (int, u64),
) -> (Vehicle, int, Vec3) {
    if v.wait_time > 0 {
        // Still backing off: burn the timer, hold the heading.
        let w2 = if v.wait_time - time.delta >= 0 {
            v.wait_time - time.delta
        } else {
            0int
        };
        (Vehicle { wait_time: w2 as i64, ..v }, 0int, trans.dir)
    } else if it.point is None {
        // Nothing to do: hold position.
        (v, 0int, trans.dir)
    } else {
        let objective = it.point->0;
        let speed = self_obj.speed as int;
        let stop_dist = spec_stop_dist(speed, v.kind.spec_deceleration() as int);
        let (front_dist, flag) = front;
        match spec_dir_to(trans.position, objective) {
            None => (v, 0int, trans.dir),
            Some(dir_to_pos) => spec_decision_steps(
                me,
                v,
                lanes,
                time,
                trans,
                it,
                speed,
                stop_dist,
                front_dist,
                flag,
                dir_to_pos,
            ),
        }
    }
}

/// The tail of the decision once the objective direction exists: panic
/// recovery, gridlock detection, obstacle stop, terminal stop, traffic
/// control, alignment, cruise.
pub open spec fn spec_decision_steps(
    me: u64,
    v: Vehicle,
    lanes: Map<u64, Lane>,
    time: GameTime,
    trans: Transform,
    it: Itinerary,
    speed: int,
    stop_dist: int,
    front_dist: int,
    flag: u64,
    dir_to_pos: Vec3,
) -> (Vehicle, int, Vec3) {
    if v.state is Panicking {
        // Panic recovery is timeout-based, never condition-based.
        let since = v.state->Panicking_0;
        let v2 = if time.seconds - since > PANIC_TIMEOUT {
            Vehicle { state: VehicleState::Driving, ..v }
        } else {
            v
        };
        spec_decision_cruise(v2, lanes, time, trans, it, speed, stop_dist, dir_to_pos)
    } else if speed < STATIONARY_SPEED && front_dist < GRIDLOCK_RANGE {
        // Stationary against a close obstacle: the gridlock protocol.
        // Seeing its own token come back means a blocking cycle: panic.
        let st = if flag == me {
            VehicleState::Panicking(time.seconds)
        } else {
            v.state
        };
        let f2 = if v.flag | flag == 0 {
            me
        } else {
            flag
        };
        let w2 = spec_pseudo_wait(trans.position.x as int);
        (Vehicle { state: st, flag: f2, wait_time: w2 as i64, ..v }, 0int, trans.dir)
    } else if front_dist < 800 + stop_dist {
        // Stop 80 cm short of the obstacle ahead.
        (v, 0int, dir_to_pos)
    } else {
        spec_decision_cruise(v, lanes, time, trans, it, speed, stop_dist, dir_to_pos)
    }
}

/// The unobstructed tail: clear the flag, stop short of the terminal or
/// of a controlling light, then steer and cruise.
pub open spec fn spec_decision_cruise(
    v: Vehicle,
    lanes: Map<u64, Lane>,
    time: GameTime,
    trans: Transform,
    it: Itinerary,
    speed: int,
    stop_dist: int,
    dir_to_pos: Vec3,
) -> (Vehicle, int, Vec3) {
    // Progressing normally: the flag is a per-tick signal, not sticky.
    let v2 = Vehicle { flag: 0, ..v };
    if it.terminal matches Some(term) && spec_close(term, trans.position, 1_000 + stop_dist) {
        (v2, 0int, dir_to_pos)
    } else {
        let lane = spec_current_lane(it, lanes);
        let stop_for_light = match lane {
            Some(l) => spec_light_stops(l, time, trans.position, stop_dist, v.kind.spec_width(
            ) as int),
            None => false,
        };
        if stop_for_light {
            (v2, 0int, dir_to_pos)
        } else {
            let lane_speed = match lane {
                Some(l) => l.speed_limit as int,
                None => DEFAULT_CRUISE as int,
            };
            if dir_to_pos.spec_dot(trans.dir) < 800_000 {
                // Not yet facing the objective: slow down to turn harder.
                (v2, TURN_SPEED as int, dir_to_pos)
            } else {
                (v2, div_trunc(v.kind.spec_speed_factor() * lane_speed, UNIT as int), dir_to_pos)
            }
        }
    }
}

/// The lane currently traversed, when the itinerary is on one the map
/// knows.
pub open spec fn spec_current_lane(it: Itinerary, lanes: Map<u64, Lane>) -> Option<Lane> {
    if it.travers matches Some(t) && t.kind matches TraverseKind::Lane(id) && lanes.contains_key(
        id,
    ) {
        Some(lanes[it.travers->0.kind->Lane_0])
    } else {
        None
    }
}

/// Whether the lane's control, read at this instant, demands a stop from
/// this position: red and orange within the inflated margin, a stop sign
/// within a tighter one, green only as a soft waypoint very close up.
pub open spec fn spec_light_stops(
    l: Lane,
    time: GameTime,
    position: Vec3,
    stop_dist: int,
    width: int,
) -> bool {
    let light = l.control_point;
    match l.control.spec_behavior(time.seconds as int) {
        TrafficBehavior::RED | TrafficBehavior::ORANGE => spec_close(
            light,
            position,
            spec_red_margin(stop_dist, width),
        ),
        TrafficBehavior::STOP => spec_close(light, position, 2_850 + stop_dist),
        TrafficBehavior::GREEN => spec_close(light, position, div_trunc(2 * stop_dist, 5)),
    }
}

/// Decide the appropriate velocity and direction to aim for, updating the
/// vehicle's wait timer, gridlock flag and panic state.  `me` is this
/// agent's identity token, compared against incoming gridlock flags.
pub fn calc_decision(
    me: u64,
    vehicle: &mut Vehicle,
    map: &WorldMap,
    time: &GameTime,
    trans: &Transform,
    self_obj: &PhysicsObject,
    it: &Itinerary,
    neighs: &Vec<(Vec2, PhysicsObject)>,
) -> (r: (i64, Vec3))
    requires
        old(vehicle).wf(),
        trans.wf(),
        self_obj.wf(),
        it.wf(),
        time.wf(),
        map.wf(),
        forall|i: int| 0 <= i < neighs@.len() ==> crate::scanner::nei_wf(#[trigger] neighs@[i]),
    ensures
        ({
            let stop_dist = spec_stop_dist(
                self_obj.speed as int,
                old(vehicle).kind.spec_deceleration() as int,
            );
            let cutoff = spec_cutoff(stop_dist);
            let front = spec_front_scan(
                scan_env_of(*old(vehicle), *trans, *self_obj, *it, cutoff as i64),
                neighs@,
            );
            (*final(vehicle), r.0 as int, r.1) == spec_decision(
                me,
                *old(vehicle),
                map.lanes@,
                *time,
                *trans,
                *self_obj,
                *it,
                front,
            )
        }),
        final(vehicle).wf(),
        final(vehicle).kind == old(vehicle).kind,
        final(vehicle).ang_velocity == old(vehicle).ang_velocity,
        0 <= r.0 <= MAX_SPEED,
        -2000 <= r.1.x <= 2000,
        -2000 <= r.1.y <= 2000,
        -2000 <= r.1.z <= 2000,
{
    let default_dir = trans.dir;
    if vehicle.wait_time > 0 {
        if vehicle.wait_time >= time.delta {
            vehicle.wait_time = vehicle.wait_time - time.delta;
        } else {
            vehicle.wait_time = 0;
        }
        return (0, default_dir);
    }
    let objective = match it.get_point() {
        None => {
            return (0, default_dir);
        },
        Some(p) => p,
    };

    let speed = self_obj.speed;
    let decel = vehicle.kind.deceleration();
    proof {
        assert(0 <= speed * speed <= 10_000_000_000) by (nonlinear_arith)
            requires
                0 <= speed <= MAX_SPEED,
        ;
        assert(decel >= 3000);
        assert(0 <= div_trunc(speed * speed, 2 * decel as int) <= 1_700_000) by (nonlinear_arith)
            requires
                0 <= speed * speed <= 10_000_000_000,
                3000 <= decel <= 4000,
        ;
    }
    let stop_dist = crate::num::div_i64(speed * speed, 2 * decel);
    let cutoff = crate::num::imin(800 + stop_dist, 1500);

    let (front_dist, flag) = calc_front_dist(vehicle, trans, self_obj, it, neighs, cutoff);

    let position = trans.position;
    let to_obj = objective.sub(position);
    let dir_to_pos = match to_obj.try_normalize() {
        None => {
            return (0, default_dir);
        },
        Some(d) => {
            proof {
                crate::v3::lemma_normalized_in_unit_box3(to_obj);
            }
            d
        },
    };

    let mut panicking = false;
    if let VehicleState::Panicking(since) = vehicle.state {
        panicking = true;
        if time.seconds - since > crate::vehicle::PANIC_TIMEOUT {
            vehicle.state = VehicleState::Driving;
        }
    }
    if !panicking {
        if speed < STATIONARY_SPEED && front_dist < GRIDLOCK_RANGE {
            // Gridlock protocol: adopt or originate the blocking token and
            // back off for a position-derived pseudo-random while.
            if flag == me {
                vehicle.state = VehicleState::Panicking(time.instant());
            }
            vehicle.flag = if vehicle.flag | flag == 0 {
                me
            } else {
                flag
            };
            vehicle.wait_time = crate::num::iabs(position.x) % 1000 / 2;
            return (0, default_dir);
        }
        if front_dist < 800 + stop_dist {
            return (0, dir_to_pos);
        }
    }

    vehicle.flag = 0;

    if let Some(term_pos) = it.get_terminal() {
        if term_pos.is_close(position, 1_000 + stop_dist) {
            return (0, dir_to_pos);
        }
    }

    let mut lane_speed: i64 = DEFAULT_CRUISE;
    let mut lane_found = false;
    let ghost lane_spec = spec_current_lane(*it, map.lanes@);

    let travers = it.get_travers();
    if let Some(t) = travers {
        if let TraverseKind::Lane(l_id) = t.kind {
            if let Some(l) = map.get_lane(l_id) {
                proof {
                    assert(lane_spec == Some(*l));
                }
                lane_found = true;
                lane_speed = l.speed_limit;
                let light = l.control_point();
                let width = vehicle.kind.width();
                let half_over = crate::num::imax(width / 2 - OBJECTIVE_OK_DIST, 0);
                match l.control.get_behavior(time.seconds) {
                    TrafficBehavior::RED | TrafficBehavior::ORANGE => {
                        if light.is_close(position, 3_150 + 2_000 + stop_dist + half_over) {
                            return (0, dir_to_pos);
                        }
                    },
                    TrafficBehavior::STOP => {
                        if light.is_close(position, 2_850 + stop_dist) {
                            return (0, dir_to_pos);
                        }
                    },
                    TrafficBehavior::GREEN => {
                        if light.is_close(position, crate::num::div_i64(2 * stop_dist, 5)) {
                            return (0, dir_to_pos);
                        }
                    },
                }
            }
        }
    }
    proof {
        if !lane_found {
            assert(lane_spec is None);
        }
    }

    // Not facing the objective: request a turning speed first.
    if dir_to_pos.dot(trans.dir) < 800_000 {
        return (TURN_SPEED, dir_to_pos);
    }

    let factor = vehicle.kind.speed_factor();
    proof {
        assert(factor * lane_speed <= 1000 * (MAX_SPEED as int) && factor * lane_speed >= 0)
            by (nonlinear_arith)
            requires
                0 < factor <= 1000,
                0 <= lane_speed <= MAX_SPEED,
        ;
        assert(div_trunc(factor * lane_speed, 1000) <= MAX_SPEED && div_trunc(
            factor * lane_speed,
            1000,
        ) >= 0) by (nonlinear_arith)
            requires
                0 <= factor * lane_speed <= 1000 * (MAX_SPEED as int),
        ;
    }
    let cruise = crate::num::div_i64(factor * lane_speed, UNIT);
    (cruise, dir_to_pos)
}

} // verus!
