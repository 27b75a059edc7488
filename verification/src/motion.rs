//! Motion integrator: apply the decided (speed, direction) target to the
//! vehicle's transform and kinematics, limited by its acceleration,
//! deceleration and turning-rate constants; parked and road-to-park
//! vehicles follow their scripted motion instead.

use vstd::prelude::*;

verus! {

use crate::num::{div_trunc, div_i64, UNIT};
use crate::v3::{Vec3, sub_v3};
use crate::physics::{PhysicsObject, Transform, Kinematics, GameTime, MAX_SPEED};
use crate::vehicle::{Vehicle, VehicleState};
use crate::map::WorldMap;

/// Hard cap on angular velocity, milli-radians per second (3 rad/s).
pub const MAX_ANG_VEL: i64 = 3_000;

/// A heading is a vector of unit scale: components within twice `UNIT`.
pub open spec fn heading_ok(v: Vec3) -> bool {
    -2000 <= v.x <= 2000 && -2000 <= v.y <= 2000 && -2000 <= v.z <= 2000
}

/// The new scalar speed: move toward `desired`, but by no more than the
/// tick's worth of deceleration downward or acceleration upward.
pub open spec fn spec_new_speed(speed: int, desired: int, delta: int, accel: int, decel: int) -> int {
    let lo = -div_trunc(delta * decel, UNIT as int);
    let hi = div_trunc(delta * accel, UNIT as int);
    let diff = desired - speed;
    let step = if diff < lo {
        lo
    } else if diff > hi {
        hi
    } else {
        diff
    };
    speed + step
}

/// The turn-rate ceiling from the new speed and the turning radius:
/// `|speed| / r`, capped at `MAX_ANG_VEL`.
pub open spec fn spec_max_ang_vel(speed: int, radius: int) -> int {
    let raw = div_trunc((if speed >= 0 {
        speed
    } else {
        -speed
    }) * UNIT, radius);
    if raw > MAX_ANG_VEL {
        MAX_ANG_VEL as int
    } else {
        raw
    }
}

/// The new angular velocity: grown by the tick's angular acceleration,
/// then limited by three times the remaining angular error (preventing
/// overshoot) and by the turn-rate ceiling.
pub open spec fn spec_new_ang_vel(
    ang_vel: int,
    delta: int,
    ang_acc: int,
    approx_angle: int,
    max_ang_vel: int,
) -> int {
    let grown = ang_vel + div_trunc(delta * ang_acc, UNIT as int);
    let a = if grown <= 3 * approx_angle {
        grown
    } else {
        3 * approx_angle
    };
    if a <= max_ang_vel {
        a
    } else {
        max_ang_vel
    }
}

/// The heading after one steering step of length `step` (milli-chord)
/// toward `target`: the target itself once within reach, otherwise the
/// current heading advanced along the chord and re-normalized.
pub open spec fn spec_steer(cur: Vec3, target: Vec3, step: int) -> Vec3 {
    let d = sub_v3(target, cur);
    let dist = d.spec_mag();
    if dist <= step {
        target
    } else {
        let moved = Vec3 {
            x: (cur.x + div_trunc(d.x * step, dist)) as i64,
            y: (cur.y + div_trunc(d.y * step, dist)) as i64,
            z: (cur.z + div_trunc(d.z * step, dist)) as i64,
        };
        if moved.spec_mag() < 1 {
            target
        } else {
            moved.spec_normalized(moved.spec_mag())
        }
    }
}

/// Rotate the heading toward `target` by at most `step` milli-radians
/// (measured as chord length at unit scale).  Reaches `target` exactly
/// once it is within `step`.
pub fn steer_dir(cur: Vec3, target: Vec3, step: i64) -> (r: Vec3)
    requires
        heading_ok(cur),
        heading_ok(target),
        0 <= step <= 100_000,
    ensures
        r == spec_steer(cur, target, step as int),
        heading_ok(r),
        sub_v3(target, cur).spec_mag() <= step ==> r == target,
{
    let d = target.sub(cur);
    let dist = d.magnitude();
    if dist <= step {
        return target;
    }
    proof {
        assert(0 <= d.spec_mag2());
        crate::num::lemma_sqrt_floor(d.spec_mag2());
        assert(-400_000_000 <= d.x * step <= 400_000_000 && -400_000_000 <= d.y * step
            <= 400_000_000 && -400_000_000 <= d.z * step <= 400_000_000) by (nonlinear_arith)
            requires
                -4000 <= d.x <= 4000,
                -4000 <= d.y <= 4000,
                -4000 <= d.z <= 4000,
                0 <= step <= 100_000,
        ;
        lemma_steer_coord(d.x as int, step as int, dist as int);
        lemma_steer_coord(d.y as int, step as int, dist as int);
        lemma_steer_coord(d.z as int, step as int, dist as int);
    }
    let moved = Vec3 {
        x: cur.x + div_i64(d.x * step, dist),
        y: cur.y + div_i64(d.y * step, dist),
        z: cur.z + div_i64(d.z * step, dist),
    };
    match moved.try_normalize() {
        None => target,
        Some(u) => {
            proof {
                crate::v3::lemma_normalized_in_unit_box3(moved);
            }
            u
        },
    }
}

/// A chord component scaled by `step / dist` with `step < dist` stays
/// within the component's own size.
proof fn lemma_steer_coord(c: int, step: int, dist: int)
    requires
        -4000 <= c <= 4000,
        0 <= step,
        step < dist,
    ensures
        -4000 <= div_trunc(c * step, dist) <= 4000,
{
    if c * step >= 0 {
        assert(0 <= c * step / dist <= 4000) by (nonlinear_arith)
            requires
                0 <= c * step,
                c <= 4000,
                0 <= step < dist,
        ;
    } else {
        assert(0 <= -(c * step) / dist <= 4000) by (nonlinear_arith)
            requires
                0 <= -(c * step),
                -4000 <= c,
                0 <= step < dist,
        ;
    }
}

/// What the integrator leaves behind: the transform, kinematics and
/// angular velocity after one tick at the decided target.
pub open spec fn spec_motion(
    trans: Transform,
    kin: Kinematics,
    v: Vehicle,
    time: GameTime,
    obj_speed: int,
    desired_speed: int,
    desired_dir: Vec3,
) -> (Transform, Kinematics, i64) {
    let kind = v.kind;
    let speed2 = spec_new_speed(
        obj_speed,
        desired_speed,
        time.delta as int,
        kind.spec_acceleration() as int,
        kind.spec_deceleration() as int,
    );
    let max_av = spec_max_ang_vel(speed2, kind.spec_min_turning_radius() as int);
    let approx_angle = sub_v3(desired_dir, trans.dir).spec_mag();
    let av = spec_new_ang_vel(
        v.ang_velocity as int,
        time.delta as int,
        kind.spec_ang_acc() as int,
        approx_angle,
        max_av,
    );
    let step = div_trunc(av * time.delta, UNIT as int);
    let dir2 = spec_steer(trans.dir, desired_dir, step);
    let vel = Vec3 {
        x: div_trunc(dir2.x * speed2, UNIT as int) as i64,
        y: div_trunc(dir2.y * speed2, UNIT as int) as i64,
        z: div_trunc(dir2.z * speed2, UNIT as int) as i64,
    };
    (
        Transform { position: trans.position, dir: dir2 },
        Kinematics { velocity: vel, speed: speed2 as i64 },
        av as i64,
    )
}

/// Handles actually moving the vehicle around: parked vehicles snap to
/// their spot, road-to-park vehicles ride their spline, and driving or
/// panicking vehicles integrate speed and heading toward the decided
/// target under the kind's kinematic limits.
pub fn physics(
    trans: &mut Transform,
    kin: &mut Kinematics,
    vehicle: &mut Vehicle,
    time: &GameTime,
    obj: &PhysicsObject,
    map: &WorldMap,
    desired_speed: i64,
    desired_dir: Vec3,
)
    requires
        old(trans).wf(),
        old(vehicle).wf(),
        obj.wf(),
        time.wf(),
        !(old(vehicle).state is Parked) && !(old(vehicle).state is RoadToPark) ==> {
            &&& heading_ok(desired_dir)
            &&& 0 <= desired_speed <= MAX_SPEED
        },
    ensures
        final(vehicle).kind == old(vehicle).kind,
        final(vehicle).state == old(vehicle).state,
        final(vehicle).wait_time == old(vehicle).wait_time,
        final(vehicle).flag == old(vehicle).flag,
        old(vehicle).state matches VehicleState::Parked(spot_id) ==> {
            &&& *final(vehicle) == *old(vehicle)
            &&& *final(kin) == *old(kin)
            &&& (map.parking@.contains_key(spot_id) ==> *final(trans)
                == map.parking@[spot_id].trans)
            &&& (!map.parking@.contains_key(spot_id) ==> *final(trans) == *old(trans))
        },
        old(vehicle).state matches VehicleState::RoadToPark(spline, t, _) ==> {
            let tc = if t <= 1000 {
                t as int
            } else {
                1000int
            };
            &&& *final(vehicle) == *old(vehicle)
            &&& *final(kin) == *old(kin)
            &&& final(trans).position == spline.spec_get(tc)
            &&& {
                let d = spline.spec_derivative(tc);
                if d.spec_mag() < 1 {
                    final(trans).dir == old(trans).dir
                } else {
                    final(trans).dir == d.spec_normalized(d.spec_mag())
                }
            }
        },
        !(old(vehicle).state is Parked) && !(old(vehicle).state is RoadToPark) ==> {
            let (t2, k2, av2) = spec_motion(
                *old(trans),
                *old(kin),
                *old(vehicle),
                *time,
                obj.speed as int,
                desired_speed as int,
                desired_dir,
            );
            &&& *final(trans) == t2
            &&& *final(kin) == k2
            &&& final(vehicle).ang_velocity == av2
            &&& final(trans).position == old(trans).position
            &&& heading_ok(final(trans).dir)
            &&& 0 <= final(kin).speed <= MAX_SPEED
            &&& 0 <= final(vehicle).ang_velocity <= MAX_ANG_VEL
        },
{
    match vehicle.state {
        VehicleState::Parked(spot_id) => {
            if let Some(spot) = map.get_spot(spot_id) {
                *trans = spot.trans;
            }
            return ;
        },
        VehicleState::RoadToPark(spline, t, _) => {
            let tc = if t <= 1000 {
                t
            } else {
                1000
            };
            trans.position = spline.get(tc);
            let d = spline.derivative(tc);
            proof {
                lemma_deriv_ok(spline, tc as int);
            }
            match d.try_normalize() {
                Some(u) => {
                    trans.dir = u;
                },
                None => {
                    proof {
                        assert(d.spec_mag2() == 0) by (nonlinear_arith)
                            requires
                                d.x == 0,
                                d.y == 0,
                                d.z == 0,
                        ;
                    }
                },
            }
            return ;
        },
        _ => {},
    }

    let speed = obj.speed;
    let kind = vehicle.kind;
    let accel = kind.acceleration();
    let decel = kind.deceleration();
    let delta = time.delta;

    proof {
        assert(0 <= delta * accel <= 40_000_000 && 0 <= delta * decel <= 40_000_000)
            by (nonlinear_arith)
            requires
                0 <= delta <= 10_000,
                0 < accel <= 4000,
                0 < decel <= 4000,
        ;
        assert(0 <= div_trunc(delta * accel as int, 1000) <= 40_000 && 0 <= div_trunc(
            delta * decel as int,
            1000,
        ) <= 40_000) by (nonlinear_arith)
            requires
                0 <= delta * accel <= 40_000_000,
                0 <= delta * decel <= 40_000_000,
        ;
    }
    let hi = div_i64(delta * accel, UNIT);
    let lo_mag = div_i64(delta * decel, UNIT);
    let diff = desired_speed - speed;
    let step = crate::num::iclamp(diff, -lo_mag, hi);
    let speed2 = speed + step;
    proof {
        assert(0 <= speed2 <= MAX_SPEED);
    }

    let radius = kind.min_turning_radius();
    proof {
        assert(0 <= speed2 * UNIT <= 100_000_000) by (nonlinear_arith)
            requires
                0 <= speed2 <= MAX_SPEED,
                UNIT == 1000,
        ;
        assert(0 <= div_trunc(speed2 * UNIT as int, radius as int)) by (nonlinear_arith)
            requires
                0 <= speed2 * UNIT,
                radius > 0,
        ;
    }
    let raw_av = div_i64(speed2 * UNIT, radius);
    let max_av = crate::num::imin(raw_av, MAX_ANG_VEL);

    let err = desired_dir.sub(trans.dir);
    let approx_angle = err.magnitude();
    proof {
        assert(err.spec_mag2() <= 48_000_000) by (nonlinear_arith)
            requires
                -4000 <= err.x <= 4000,
                -4000 <= err.y <= 4000,
                -4000 <= err.z <= 4000,
        ;
        if approx_angle > 7000 {
            assert(approx_angle * approx_angle > 48_000_000) by (nonlinear_arith)
                requires
                    approx_angle > 7000,
            ;
        }
        assert(0 <= delta * kind.spec_ang_acc() <= 10_000_000) by (nonlinear_arith)
            requires
                0 <= delta <= 10_000,
                0 < kind.spec_ang_acc() <= 1000,
        ;
        assert(0 <= div_trunc(delta * kind.spec_ang_acc() as int, 1000) <= 10_000)
            by (nonlinear_arith)
            requires
                0 <= delta * kind.spec_ang_acc() <= 10_000_000,
        ;
    }
    let grown = vehicle.ang_velocity + div_i64(delta * kind.ang_acc(), UNIT);
    let av = crate::num::imin(crate::num::imin(grown, 3 * approx_angle), max_av);
    vehicle.ang_velocity = av;

    proof {
        assert(0 <= av * delta <= 30_000_000) by (nonlinear_arith)
            requires
                0 <= av <= MAX_ANG_VEL,
                0 <= delta <= 10_000,
                MAX_ANG_VEL == 3000,
        ;
        assert(0 <= div_trunc(av * delta as int, 1000) <= 30_000) by (nonlinear_arith)
            requires
                0 <= av * delta <= 30_000_000,
        ;
    }
    let step_chord = div_i64(av * delta, UNIT);
    let dir2 = steer_dir(trans.dir, desired_dir, step_chord);
    trans.dir = dir2;

    proof {
        lemma_vel_coord(dir2.x as int, speed2 as int);
        lemma_vel_coord(dir2.y as int, speed2 as int);
        lemma_vel_coord(dir2.z as int, speed2 as int);
    }
    kin.velocity = Vec3 {
        x: div_i64(dir2.x * speed2, UNIT),
        y: div_i64(dir2.y * speed2, UNIT),
        z: div_i64(dir2.z * speed2, UNIT),
    };
    kin.speed = speed2;
}

/// A heading component times a speed stays in multiplication range.
proof fn lemma_vel_coord(c: int, s: int)
    requires
        -2000 <= c <= 2000,
        0 <= s <= MAX_SPEED,
    ensures
        -200_000_000 <= c * s <= 200_000_000,
{
    assert(-200_000_000 <= c * s <= 200_000_000) by (nonlinear_arith)
        requires
            -2000 <= c <= 2000,
            0 <= s <= MAX_SPEED,
            MAX_SPEED == 100_000,
    ;
}

/// The spline derivative components stay inside the normalization box.
proof fn lemma_deriv_ok(s: crate::spline::Spline, t: int)
    requires
        s.wf(),
        0 <= t <= 1000,
    ensures
        s.spec_derivative(t).ok(),
{
    lemma_deriv_coord_ok(s.from.x as int, s.spec_c1().x as int, s.spec_c2().x as int,
        s.to.x as int, t);
    lemma_deriv_coord_ok(s.from.y as int, s.spec_c1().y as int, s.spec_c2().y as int,
        s.to.y as int, t);
    lemma_deriv_coord_ok(s.from.z as int, s.spec_c1().z as int, s.spec_c2().z as int,
        s.to.z as int, t);
}

/// One coordinate of the spline derivative is bounded by the weight total
/// times the largest control difference, scaled back down.
proof fn lemma_deriv_coord_ok(p0: int, c1: int, c2: int, p3: int, t: int)
    requires
        0 <= t <= 1000,
        -134_000_000 <= p0 <= 134_000_000,
        -134_000_000 <= c1 <= 134_000_000,
        -134_000_000 <= c2 <= 134_000_000,
        -134_000_000 <= p3 <= 134_000_000,
    ensures
        -(crate::v2::MAX_FIX as int) <= crate::spline::spec_bezier_deriv_coord(p0, c1, c2, p3, t)
            <= crate::v2::MAX_FIX as int,
{
    let u = 1000 - t;
    assert(-1_000_000_000_000_000 <= u * u * (c1 - p0) + 2 * (u * t) * (c2 - c1) + t * t * (p3
        - c2) <= 1_000_000_000_000_000) by (nonlinear_arith)
        requires
            0 <= t <= 1000,
            u == 1000 - t,
            -134_000_000 <= p0 <= 134_000_000,
            -134_000_000 <= c1 <= 134_000_000,
            -134_000_000 <= c2 <= 134_000_000,
            -134_000_000 <= p3 <= 134_000_000,
    ;
    let acc = u * u * (c1 - p0) + 2 * (u * t) * (c2 - c1) + t * t * (p3 - c2);
    if acc >= 0 {
        assert(0 <= acc / 1_000_000 <= crate::v2::MAX_FIX as int) by (nonlinear_arith)
            requires
                0 <= acc <= 1_000_000_000_000_000,
        ;
    } else {
        assert(0 <= -acc / 1_000_000 <= crate::v2::MAX_FIX as int) by (nonlinear_arith)
            requires
                0 <= -acc <= 1_000_000_000_000_000,
        ;
    }
}

} // verus!
