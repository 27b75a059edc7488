//! Front-obstacle scanner: given the ego vehicle's state and a list of
//! neighbouring physics snapshots, compute the distance to the closest
//! hazard ahead and the gridlock flag of the agent posing it.
//!
//! A neighbour counts either because it sits in the speed-adaptive front
//! cone, or because the two forward rays meet ahead at a conflict point
//! the ego does not have right of way over.

use vstd::prelude::*;

verus! {

use crate::num::{div_trunc, UNIT};
use crate::v2::{Vec2, sub_v};
use crate::v3::Vec3;
use crate::ray::{Ray, dir_scale_ok, abs_i};
use crate::physics::{PhysicsObject, PhysicsGroup, Transform, MAX_RADIUS, MAX_SPEED};
use crate::vehicle::Vehicle;
use crate::itinerary::Itinerary;

/// Ceiling of the reported front distance, milli-units (50 m).
pub const FRONT_DIST_CEILING: i64 = 50_000;

/// Neighbours with a height difference beyond this are on another grade,
/// milli-units (5 m).
pub const GRADE_SEPARATION: i64 = 5_000;

/// Extra clearance kept from non-vehicle obstacles, milli-units (1 m).
pub const PEDESTRIAN_BUFFER: i64 = 1_000;

/// Safety margin kept from a projected ray conflict point, milli-units (5 m).
pub const CONFLICT_MARGIN: i64 = 5_000;

/// Ray conflicts solved further than this are numerically degenerate and
/// ignored, milli-units (1 km).
pub const CONFLICT_RANGE: i64 = 1_000_000;

/// The ego state the scanner reads, flattened to plain values.
#[derive(Clone, Copy, PartialEq, Eq, Structural, Debug)]
pub struct ScanEnv {
    /// Ego position; the `z` coordinate is the height.
    pub pos: Vec3,
    /// Ego planar heading, a direction vector at unit scale.
    pub dir: Vec2,
    /// Ego bounding radius, milli-units.
    pub radius: i64,
    /// Ego speed, milli-units per second.
    pub speed: i64,
    /// Ego body width, milli-units.
    pub width: i64,
    /// Whether the current traversable is a lane (narrows the cone sideways).
    pub on_lane: bool,
    /// Early-exit threshold, milli-units.
    pub cutoff: i64,
}

impl ScanEnv {
    pub open spec fn wf(self) -> bool {
        &&& self.pos.in_world()
    &&& dir_scale_ok(self.dir)
    &&& 0 <= self.radius <= MAX_RADIUS
    &&& 0 <= self.speed <= MAX_SPEED
    &&& 0 < self.width <= 10_000
    &&& 0 <= self.cutoff <= FRONT_DIST_CEILING
    }

    /// The ego forward ray, its origin backed off by half the body width.
    pub open spec fn spec_my_ray(self) -> Ray {
        let back = scaled_dir(self.dir, self.width / 2);
        Ray {
            from: Vec2 {
                x: (self.pos.x - back.x) as i64,
                y: (self.pos.y - back.y) as i64,
            },
            dir: self.dir,
        }
    }
}

/// A direction vector scaled to a length, as `Vec2::mul_len` computes it.
pub open spec fn scaled_dir(d: Vec2, len: int) -> Vec2 {
    Vec2 { x: div_trunc(d.x * len, UNIT as int) as i64, y: div_trunc(d.y * len, UNIT as int) as i64 }
}

/// A neighbour as handed over by the broad-phase query: its position and
/// its physics snapshot.
pub open spec fn nei_wf(n: (Vec2, PhysicsObject)) -> bool {
    n.0.in_world() && n.1.wf()
}

/// Offset from the ego to the neighbour.
pub open spec fn towards(env: ScanEnv, n: (Vec2, PhysicsObject)) -> Vec2 {
    sub_v(n.0, Vec2 { x: env.pos.x, y: env.pos.y })
}

/// Distance from ego to the neighbour, milli-units (rounded down).
pub open spec fn nei_dist(env: ScanEnv, n: (Vec2, PhysicsObject)) -> int {
    towards(env, n).spec_mag()
}

/// Unit-scale direction from ego to the neighbour.
pub open spec fn towards_dir(env: ScanEnv, n: (Vec2, PhysicsObject)) -> Vec2 {
    towards(env, n).spec_normalized(nei_dist(env, n))
}

/// Cosine of the bearing angle to the neighbour, scaled by `UNIT^2`.
pub open spec fn cos_angle(env: ScanEnv, n: (Vec2, PhysicsObject)) -> int {
    towards_dir(env, n).spec_dot(env.dir)
}

/// The cone threshold: `0.85 - 0.015 * min(speed, 10)` at `UNIT^2` scale;
/// the cone widens as the ego slows.
pub open spec fn cone_threshold(env: ScanEnv) -> int {
    850_000 - 15 * (if env.speed <= 10_000 {
        env.speed as int
    } else {
        10_000
    })
}

/// Lateral offset of the neighbour from the ego's heading line, scaled by
/// `UNIT` (so at `UNIT^2` scale like the dot products).
pub open spec fn dist_to_side(env: ScanEnv, n: (Vec2, PhysicsObject)) -> int {
    abs_i(towards(env, n).spec_perp_dot(env.dir))
}

/// The lateral bound when on a lane: `3 + 0.3 * speed` units, at the same
/// `UNIT^2` scale as `dist_to_side`.
pub open spec fn lateral_bound(env: ScanEnv) -> int {
    3_000_000 + 300 * env.speed
}

/// Whether the neighbour is a vehicle (pedestrians get a buffer instead
/// of ray checks).
pub open spec fn is_vehicle(n: (Vec2, PhysicsObject)) -> bool {
    n.1.group is Vehicles
}

/// The neighbour is skipped before any classification: another grade, a
/// near-self artifact, or exactly at the ego position, or behind.
pub open spec fn pre_skipped(env: ScanEnv, n: (Vec2, PhysicsObject)) -> bool {
    ||| abs_i(n.1.height - env.pos.z) > GRADE_SEPARATION
    ||| (towards(env, n).spec_mag2() <= 1000 * 1000 && towards(env, n).x > 0)
    ||| towards(env, n).is_zero()
    ||| (!towards(env, n).is_zero() && cos_angle(env, n) < 0)
}

/// The neighbour sits in the speed-adaptive front cone.
pub open spec fn cone_applies(env: ScanEnv, n: (Vec2, PhysicsObject)) -> bool {
    &&& !pre_skipped(env, n)
    &&& cos_angle(env, n) > cone_threshold(env)
    &&& (!is_vehicle(n) || n.1.dir.spec_dot(env.dir) > 0)
    &&& (!env.on_lane || dist_to_side(env, n) < lateral_bound(env))
}

/// The candidate distance for a cone neighbour: gap between the bounding
/// circles, with an extra buffer for non-vehicles.
pub open spec fn cone_cand(env: ScanEnv, n: (Vec2, PhysicsObject)) -> int {
    nei_dist(env, n) - env.radius - n.1.radius - if is_vehicle(n) {
        0int
    } else {
        PEDESTRIAN_BUFFER as int
    }
}

/// The neighbour's forward ray, its origin backed off by its radius.
pub open spec fn his_ray(n: (Vec2, PhysicsObject)) -> Ray {
    let back = scaled_dir(n.1.dir, n.1.radius as int);
    Ray { from: Vec2 { x: (n.0.x - back.x) as i64, y: (n.0.y - back.y) as i64 }, dir: n.1.dir }
}

/// The ego reaches the conflict point first under the speed-discounted
/// comparison, so it keeps right of way and yields nothing.
pub open spec fn ego_clears_first(env: ScanEnv, n: (Vec2, PhysicsObject)) -> bool {
    let my_dist = env.spec_my_ray().spec_dist_to_inter(his_ray(n));
    let his_dist = env.spec_my_ray().spec_dist_to_inter_other(his_ray(n));
    my_dist - (if env.speed <= 2_500 {
        env.speed as int
    } else {
        2_500
    }) - env.radius < his_dist - (if n.1.speed <= 2_500 {
        n.1.speed as int
    } else {
        2_500
    }) - n.1.radius
}

/// A vehicle neighbour outside the cone whose forward ray meets the ego's
/// ahead, within numeric range, and which does not clear the point first.
pub open spec fn ray_applies(env: ScanEnv, n: (Vec2, PhysicsObject)) -> bool {
    &&& !pre_skipped(env, n)
    &&& !cone_applies(env, n)
    &&& is_vehicle(n)
    &&& env.spec_my_ray().has_forward_inter(his_ray(n))
    &&& env.spec_my_ray().spec_dist_to_inter(his_ray(n)) <= CONFLICT_RANGE
    &&& env.spec_my_ray().spec_dist_to_inter_other(his_ray(n)) <= CONFLICT_RANGE
    &&& !ego_clears_first(env, n)
}

/// The candidate distance for a ray-conflict neighbour: the gap between
/// the bounding circles less a fixed safety margin.
pub open spec fn ray_cand(env: ScanEnv, n: (Vec2, PhysicsObject)) -> int {
    nei_dist(env, n) - env.radius - n.1.radius - CONFLICT_MARGIN
}

/// The scan from neighbour `i` on, carrying the minimum `m` and the flag
/// `f` of the neighbour that set it.  A cone candidate that drags the
/// minimum below the cutoff ends the scan at once (the hot-path early
/// exit); ray candidates do not.
pub open spec fn scan_from(
    env: ScanEnv,
    ns: Seq<(Vec2, PhysicsObject)>,
    i: int,
    m: int,
    f: u64,
) -> (int, u64)
    decreases ns.len() - i,
{
    if i < 0 || i >= ns.len() {
        (m, f)
    } else {
        let n = ns[i];
        if cone_applies(env, n) {
            let c = cone_cand(env, n);
            let m2 = if c < m {
                c
            } else {
                m
            };
            let f2 = if c < m {
                n.1.flag
            } else {
                f
            };
            if m2 < env.cutoff {
                (m2, f2)
            } else {
                scan_from(env, ns, i + 1, m2, f2)
            }
        } else if ray_applies(env, n) {
            let c = ray_cand(env, n);
            let m2 = if c < m {
                c
            } else {
                m
            };
            let f2 = if c < m {
                n.1.flag
            } else {
                f
            };
            scan_from(env, ns, i + 1, m2, f2)
        } else {
            scan_from(env, ns, i + 1, m, f)
        }
    }
}

/// The whole scan: minimum starts at the ceiling with no flag.
pub open spec fn spec_front_scan(env: ScanEnv, ns: Seq<(Vec2, PhysicsObject)>) -> (int, u64) {
    scan_from(env, ns, 0, FRONT_DIST_CEILING as int, 0)
}

/// The ego state as read from the vehicle, transform, snapshot and
/// itinerary.
pub open spec fn scan_env_of(
    vehicle: Vehicle,
    trans: Transform,
    self_obj: PhysicsObject,
    it: Itinerary,
    cutoff: i64,
) -> ScanEnv {
    ScanEnv {
        pos: trans.position,
        dir: Vec2 { x: trans.dir.x, y: trans.dir.y },
        radius: self_obj.radius,
        speed: self_obj.speed,
        width: vehicle.kind.spec_width(),
        on_lane: it.travers matches Some(t) && t.kind is Lane,
        cutoff,
    }
}

/// Calculates the distance to the closest problematic object in front of
/// the vehicle, and the gridlock flag it carries.  It can be another car
/// or a pedestrian in the front cone, or a potential collision point from
/// a car coming perpendicularly.
pub fn calc_front_dist(
    vehicle: &Vehicle,
    trans: &Transform,
    self_obj: &PhysicsObject,
    it: &Itinerary,
    neighs: &Vec<(Vec2, PhysicsObject)>,
    cutoff: i64,
) -> (r: (i64, u64))
    requires
        trans.wf(),
        self_obj.wf(),
        0 <= cutoff <= FRONT_DIST_CEILING,
        forall|i: int| 0 <= i < neighs@.len() ==> nei_wf(#[trigger] neighs@[i]),
    ensures
        (r.0 as int, r.1) == spec_front_scan(
            scan_env_of(*vehicle, *trans, *self_obj, *it, cutoff),
            neighs@,
        ),
        r.0 <= FRONT_DIST_CEILING,
{
    let ghost env = scan_env_of(*vehicle, *trans, *self_obj, *it, cutoff);
    let pos2 = trans.position.xy();
    let dir2 = trans.dir.xy();
    let my_radius = self_obj.radius;
    let speed = self_obj.speed;
    let width = vehicle.kind.width();
    let on_lane = it.on_lane();

    let back = dir2.mul_len(width / 2);
    let my_ray = Ray::new(pos2.sub(back), dir2);
    proof {
        assert(my_ray == env.spec_my_ray());
        assert(abs_i(back.x as int) <= 20_000 && abs_i(back.y as int) <= 20_000) by {
            lemma_scaled_dir_bound(dir2, (width / 2) as int, 10_000);
        }
        assert(my_ray.wf());
    }

    let cone_thresh: i64 = 850_000 - 15 * crate::num::imin(speed, 10_000);
    let lat_bound: i64 = 3_000_000 + 300 * speed;

    let mut min_front_dist: i64 = FRONT_DIST_CEILING;
    let mut flag: u64 = 0;
    let n_count = neighs.len();
    let mut idx: usize = 0;

    while idx < n_count
        invariant
            n_count == neighs@.len(),
            0 <= idx <= n_count,
            trans.wf(),
            self_obj.wf(),
            0 <= cutoff <= FRONT_DIST_CEILING,
            forall|i: int| 0 <= i < neighs@.len() ==> nei_wf(#[trigger] neighs@[i]),
            env == scan_env_of(*vehicle, *trans, *self_obj, *it, cutoff),
            pos2.x == trans.position.x,
            pos2.y == trans.position.y,
            dir2 == env.dir,
            my_radius == env.radius,
            speed == env.speed,
            width == env.width,
            on_lane == env.on_lane,
            my_ray == env.spec_my_ray(),
            my_ray.wf(),
            cone_thresh == cone_threshold(env),
            lat_bound == lateral_bound(env),
            -300_000 <= min_front_dist <= FRONT_DIST_CEILING,
            scan_from(env, neighs@, 0, FRONT_DIST_CEILING as int, 0) == scan_from(
                env,
                neighs@,
                idx as int,
                min_front_dist as int,
                flag,
            ),
        decreases n_count - idx,
    {
        let (his_pos, nei) = neighs[idx];
        proof {
            assert(nei_wf(neighs@[idx as int]));
        }

        // Different grade: ignore.
        let dh = crate::num::iabs(nei.height - trans.position.z);
        if dh > GRADE_SEPARATION {
            proof {
                assert(pre_skipped(env, neighs@[idx as int]));
            }
            idx = idx + 1;
            continue;
        }

        let towards_vec = his_pos.sub(pos2);
        proof {
            assert(towards_vec == towards(env, neighs@[idx as int]));
        }

        // Near-self artifact: very close and ahead-aligned.
        let close2 = towards_vec.magnitude2();
        if close2 <= 1000 * 1000 && towards_vec.x > 0 {
            proof {
                assert(pre_skipped(env, neighs@[idx as int]));
            }
            idx = idx + 1;
            continue;
        }

        // Exactly coincident: ignore.
        let dd = towards_vec.dir_dist();
        let (towards_d, dist) = match dd {
            None => {
                proof {
                    assert(pre_skipped(env, neighs@[idx as int]));
                }
                idx = idx + 1;
                continue;
            },
            Some(p) => p,
        };
        proof {
            assert(towards_d == towards_dir(env, neighs@[idx as int]));
            assert(dist == nei_dist(env, neighs@[idx as int]));
            crate::v2::lemma_normalized_in_unit_box(towards_vec);
        }

        // Behind: ignore.
        let cos_a = towards_d.dot(dir2);
        proof {
            assert(cos_a == cos_angle(env, neighs@[idx as int]));
        }
        if cos_a < 0 {
            proof {
                assert(pre_skipped(env, neighs@[idx as int]));
            }
            idx = idx + 1;
            continue;
        }
        proof {
            assert(!pre_skipped(env, neighs@[idx as int]));
        }

        let pd = towards_vec.perp_dot(dir2);
        proof {
            assert(-800_000_000_000 <= towards_vec.spec_perp_dot(dir2) <= 800_000_000_000)
                by (nonlinear_arith)
                requires
                    -200_000_000 <= towards_vec.x <= 200_000_000,
                    -200_000_000 <= towards_vec.y <= 200_000_000,
                    -2000 <= dir2.x <= 2000,
                    -2000 <= dir2.y <= 2000,
            ;
        }
        let side = crate::num::iabs(pd);
        let veh = match nei.group {
            PhysicsGroup::Vehicles => true,
            _ => false,
        };
        let cos_dir = nei.dir.dot(dir2);

        if cos_a > cone_thresh && (!veh || cos_dir > 0) && (!on_lane || side < lat_bound) {
            proof {
                assert(side == dist_to_side(env, neighs@[idx as int]));
                assert(cone_applies(env, neighs@[idx as int]));
            }
            let mut dist_to_obj = dist - my_radius - nei.radius;
            if !veh {
                dist_to_obj = dist_to_obj - PEDESTRIAN_BUFFER;
            }
            proof {
                assert(dist_to_obj == cone_cand(env, neighs@[idx as int]));
                assert(dist <= 300_000_000) by {
                    lemma_world_dist_bound(towards_vec, dist);
                }
            }
            if dist_to_obj < min_front_dist {
                min_front_dist = dist_to_obj;
                flag = nei.flag;
            }
            if min_front_dist < cutoff {
                return (min_front_dist, flag);
            }
            idx = idx + 1;
            continue;
        }
        proof {
            assert(side == dist_to_side(env, neighs@[idx as int]));
            assert(!cone_applies(env, neighs@[idx as int]));
        }

        // Ray checks are for cars only.
        if !veh {
            proof {
                assert(!ray_applies(env, neighs@[idx as int]));
            }
            idx = idx + 1;
            continue;
        }

        let nback = nei.dir.mul_len(nei.radius);
        proof {
            assert(abs_i(nback.x as int) <= 200_000 && abs_i(nback.y as int) <= 200_000) by {
                lemma_scaled_dir_bound(nei.dir, nei.radius as int, 100_000);
            }
        }
        let nei_ray = Ray::new(his_pos.sub(nback), nei.dir);
        proof {
            assert(nei_ray == his_ray(neighs@[idx as int]));
            assert(nei_ray.wf());
        }

        let inter = my_ray.both_dist_to_inter(&nei_ray);
        let (my_dist, his_dist) = match inter {
            None => {
                proof {
                    assert(!ray_applies(env, neighs@[idx as int]));
                }
                idx = idx + 1;
                continue;
            },
            Some(p) => p,
        };

        if my_dist > CONFLICT_RANGE || his_dist > CONFLICT_RANGE {
            proof {
                assert(!ray_applies(env, neighs@[idx as int]));
            }
            idx = idx + 1;
            continue;
        }

        // Whoever arrives first, with a floored speed discount, has right
        // of way; when that is the ego, it yields nothing here.
        if my_dist - crate::num::imin(speed, 2_500) - my_radius < his_dist - crate::num::imin(
            nei.speed,
            2_500,
        ) - nei.radius {
            proof {
                assert(ego_clears_first(env, neighs@[idx as int]));
                assert(!ray_applies(env, neighs@[idx as int]));
            }
            idx = idx + 1;
            continue;
        }

        proof {
            assert(ray_applies(env, neighs@[idx as int]));
            assert(dist <= 300_000_000) by {
                lemma_world_dist_bound(towards_vec, dist);
            }
        }
        let final_dist = dist - my_radius - nei.radius - CONFLICT_MARGIN;
        proof {
            assert(final_dist == ray_cand(env, neighs@[idx as int]));
        }
        if final_dist < min_front_dist {
            min_front_dist = final_dist;
            flag = nei.flag;
        }
        idx = idx + 1;
    }
    (min_front_dist, flag)
}

/// A direction at unit scale times a bounded length stays within a fifth
/// of the length bound (scaled by the 2000 component ceiling over `UNIT`).
proof fn lemma_scaled_dir_bound(d: Vec2, len: int, len_max: int)
    requires
        dir_scale_ok(d),
        0 <= len <= len_max,
        len_max <= 1_000_000,
    ensures
        abs_i(div_trunc(d.x * len, UNIT as int)) <= 2 * len_max,
        abs_i(div_trunc(d.y * len, UNIT as int)) <= 2 * len_max,
{
    lemma_scaled_coord_box(d.x as int, len, len_max);
    lemma_scaled_coord_box(d.y as int, len, len_max);
}

/// One coordinate of such a scaled direction.
proof fn lemma_scaled_coord_box(c: int, len: int, len_max: int)
    requires
        -2000 <= c <= 2000,
        0 <= len <= len_max,
        len_max <= 1_000_000,
    ensures
        abs_i(div_trunc(c * len, UNIT as int)) <= 2 * len_max,
{
    assert(abs_i(c * len) <= 2000 * len_max) by (nonlinear_arith)
        requires
            -2000 <= c <= 2000,
            0 <= len <= len_max,
    ;
    if c * len >= 0 {
        assert(0 <= c * len / 1000 <= 2 * len_max) by (nonlinear_arith)
            requires
                0 <= c * len <= 2000 * len_max,
                len_max >= 0,
        ;
    } else {
        assert(0 <= -(c * len) / 1000 <= 2 * len_max) by (nonlinear_arith)
            requires
                0 <= -(c * len) <= 2000 * len_max,
                len_max >= 0,
        ;
    }
}

/// The distance between two world points is well below 300 m of the
/// world's diagonal in the contract's units... the bound used to keep the
/// candidate arithmetic in range.
proof fn lemma_world_dist_bound(d: Vec2, m: i64)
    requires
        d.in_box(200_000_000),
        m as int == d.spec_mag(),
    ensures
        m <= 300_000_000,
{
    assert(d.spec_mag2() >= 0) by (nonlinear_arith);
    crate::num::lemma_sqrt_floor(d.spec_mag2());
    assert(d.spec_mag2() <= 2 * (200_000_000 * 200_000_000)) by (nonlinear_arith)
        requires
            -200_000_000 <= d.x <= 200_000_000,
            -200_000_000 <= d.y <= 200_000_000,
    ;
    let s = d.spec_mag();
    if s > 300_000_000 {
        assert(s * s > 2 * (200_000_000 * 200_000_000)) by (nonlinear_arith)
            requires
                s > 300_000_000,
        ;
    }
}

} // verus!
