//! Support-pylon placement for elevated roads and intersections: decide
//! where a pylon stands and how wide it is.  Turning the placements into
//! mesh geometry is the renderer's job.

use vstd::prelude::*;

verus! {

use crate::num::div_trunc;
use crate::v3::Vec3;

/// Where a pylon stands: the terrain height below it, its top position,
/// and its facing.
#[derive(Clone, Copy, PartialEq, Eq, Structural, Debug)]
pub struct PylonPosition {
    pub terrain_height: i64,
    pub pos: Vec3,
    pub dir: Vec3,
}

/// A pylon needs to exist only where the deck is more than this above or
/// below the terrain, milli-units (2 m).
pub const PYLON_HEIGHT_GAP: i64 = 2_000;

/// The narrowest pylon, milli-units (3 m).
pub const PYLON_MIN_WIDTH: i64 = 3_000;

/// One pylon per support position under a road, each as wide as half the
/// road.
pub fn road_pylons(pylons: &Vec<PylonPosition>, road_width: i64) -> (r: Vec<(i64, PylonPosition)>)
    requires
        0 <= road_width,
    ensures
        r@.len() == pylons@.len(),
        forall|i: int|
            0 <= i < pylons@.len() ==> #[trigger] r@[i] == ((road_width / 2) as i64, pylons@[i]),
{
    let mut out: Vec<(i64, PylonPosition)> = Vec::new();
    let n = pylons.len();
    let mut i: usize = 0;
    while i < n
        invariant
            n == pylons@.len(),
            0 <= i <= n,
            0 <= road_width,
            out@.len() == i,
            forall|k: int|
                0 <= k < i ==> #[trigger] out@[k] == ((road_width / 2) as i64, pylons@[k]),
        decreases n - i,
    {
        out.push((road_width / 2, pylons[i]));
        i = i + 1;
    }
    out
}

/// The widest half-width among the roads, but never under the minimum.
pub open spec fn spec_max_half_width(roads: Seq<(i64, Vec3)>, k: int) -> int
    decreases k,
{
    if k <= 0 {
        PYLON_MIN_WIDTH as int
    } else {
        let prev = spec_max_half_width(roads, k - 1);
        let half = roads[k - 1].0 / 2;
        if half > prev {
            half
        } else {
            prev
        }
    }
}

/// Running componentwise sum of the roads' interface points.
pub open spec fn spec_sum_pts(roads: Seq<(i64, Vec3)>, k: int) -> (int, int, int)
    decreases k,
{
    if k <= 0 {
        (0, 0, 0)
    } else {
        let p = spec_sum_pts(roads, k - 1);
        (p.0 + roads[k - 1].1.x, p.1 + roads[k - 1].1.y, p.2 + roads[k - 1].1.z)
    }
}

/// One pylon under an intersection raised or sunk relative to the
/// terrain: as wide as the widest half-road, at the average of the roads'
/// interface points (at the intersection itself when no road arrives).
/// `height` is the terrain height at the intersection, when known;
/// `roads` holds each arriving road's width and interface point.
pub fn inter_pylon(
    height: Option<i64>,
    inter_pos: Vec3,
    roads: &Vec<(i64, Vec3)>,
) -> (r: Option<(i64, PylonPosition)>)
    requires
        inter_pos.in_world(),
        height matches Some(h) ==> -100_000_000 <= h <= 100_000_000,
        forall|i: int|
            0 <= i < roads@.len() ==> 0 <= (#[trigger] roads@[i]).0 <= 100_000_000
                && roads@[i].1.in_world(),
        roads@.len() <= 100_000,
    ensures
        height is None ==> r is None,
        height matches Some(h) ==> {
            let gap = if h - inter_pos.z >= 0 {
                h - inter_pos.z
            } else {
                inter_pos.z - h
            };
            if gap <= PYLON_HEIGHT_GAP {
                r is None
            } else {
                let n = roads@.len() as int;
                let avg = if n == 0 {
                    inter_pos
                } else {
                    let s = spec_sum_pts(roads@, n);
                    Vec3 {
                        x: div_trunc(s.0, n) as i64,
                        y: div_trunc(s.1, n) as i64,
                        z: div_trunc(s.2, n) as i64,
                    }
                };
                r == Some(
                    (
                        spec_max_half_width(roads@, n) as i64,
                        PylonPosition {
                            terrain_height: h,
                            pos: avg,
                            dir: Vec3 { x: 1000i64, y: 0i64, z: 0i64 },
                        },
                    ),
                )
            }
        },
{
    let h = match height {
        None => {
            return None;
        },
        Some(h) => h,
    };
    let gap = crate::num::iabs(h - inter_pos.z);
    if gap <= PYLON_HEIGHT_GAP {
        return None;
    }

    let n = roads.len();
    let mut maxw: i64 = PYLON_MIN_WIDTH;
    let mut sx: i64 = 0;
    let mut sy: i64 = 0;
    let mut sz: i64 = 0;
    let mut i: usize = 0;
    while i < n
        invariant
            n == roads@.len(),
            0 <= i <= n,
            n <= 100_000,
            forall|k: int|
                0 <= k < roads@.len() ==> 0 <= (#[trigger] roads@[k]).0 <= 100_000_000
                    && roads@[k].1.in_world(),
            maxw == spec_max_half_width(roads@, i as int),
            PYLON_MIN_WIDTH <= maxw <= 100_000_000,
            (sx as int, sy as int, sz as int) == spec_sum_pts(roads@, i as int),
            -100_000_000 * i <= sx <= 100_000_000 * i,
            -100_000_000 * i <= sy <= 100_000_000 * i,
            -100_000_000 * i <= sz <= 100_000_000 * i,
        decreases n - i,
    {
        let (w, p) = roads[i];
        let half = w / 2;
        if half > maxw {
            maxw = half;
        }
        sx = sx + p.x;
        sy = sy + p.y;
        sz = sz + p.z;
        i = i + 1;
    }

    let avg = if n == 0 {
        inter_pos
    } else {
        Vec3 {
            x: crate::num::div_i64(sx, n as i64),
            y: crate::num::div_i64(sy, n as i64),
            z: crate::num::div_i64(sz, n as i64),
        }
    };
    Some((maxw, PylonPosition { terrain_height: h, pos: avg, dir: Vec3 { x: 1000, y: 0, z: 0 } }))
}

} // verus!
