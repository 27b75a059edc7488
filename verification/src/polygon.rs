//! Closed polygons: even-odd containment and boundary projection, used by
//! the building and road meshes and by point queries against them.

use vstd::prelude::*;

verus! {

use crate::num::{div_trunc, div_i64, iclamp, UNIT};
use crate::v2::{Vec2, sub_v, add_v, MAX_WORLD};

/// Largest admitted squared edge length: edges stay under 20 km, so the
/// projection arithmetic fits an `i64`.
pub const EDGE2_MAX: i64 = 400_000_000_000_000;

/// Largest admitted vertex count.
pub const POLY_MAX_PTS: usize = 100_000;

/// Sign of a mathematical integer.
pub open spec fn sgn(a: int) -> int {
    if a > 0 {
        1
    } else if a < 0 {
        -1
    } else {
        0
    }
}

/// An ordered sequence of vertices, closed by an implicit edge from the
/// last point back to the first.  Vertex order may be either orientation
/// but must stay consistent over the polygon's lifetime.
#[derive(Clone, Debug)]
pub struct Polygon(pub Vec<Vec2>);

/// The other endpoint of the edge arriving at vertex `i`: its predecessor,
/// wrapping around.
pub open spec fn prev_idx(n: int, i: int) -> int {
    if i == 0 {
        n - 1
    } else {
        i - 1
    }
}

/// Whether the edge arriving at vertex `i` crosses the rightward ray from
/// `p`, under the even-odd rule's sign-safe test.
pub open spec fn edge_crossing(pts: Seq<Vec2>, p: Vec2, i: int) -> bool {
    let vi = pts[i];
    let vj = pts[prev_idx(pts.len() as int, i)];
    let offx = vj.x - vi.x;
    let offy = vj.y - vi.y;
    let vipx = p.x - vi.x;
    let vipy = p.y - vi.y;
    let vjpy = p.y - vj.y;
    ((vipy < 0) != (vjpy < 0)) && vipx * (if offy >= 0 {
        offy
    } else {
        -offy
    }) < offx * vipy * sgn(offy)
}

/// Parity of crossings among the edges arriving at vertices `0 .. k`.
pub open spec fn crossings(pts: Seq<Vec2>, p: Vec2, k: int) -> bool
    decreases k,
{
    if k <= 0 {
        false
    } else {
        crossings(pts, p, k - 1) != edge_crossing(pts, p, k - 1)
    }
}

/// Even-odd containment over the whole boundary.
pub open spec fn spec_contains(pts: Seq<Vec2>, p: Vec2) -> bool {
    crossings(pts, p, pts.len() as int)
}

/// The endpoints of boundary entry `k` (`0 .. n-1`): consecutive pairs,
/// then the closing edge.
pub open spec fn seg_at(pts: Seq<Vec2>, k: int) -> (Vec2, Vec2) {
    if k < pts.len() - 1 {
        (pts[k], pts[k + 1])
    } else {
        (pts[pts.len() - 1], pts[0])
    }
}

/// The closest point to `p` on the segment `a`-`b`, with the parameter
/// quantized to thousandths of the segment.
pub open spec fn spec_seg_project(a: Vec2, b: Vec2, p: Vec2) -> Vec2 {
    let den = sub_v(b, a).spec_mag2();
    if den == 0 {
        a
    } else {
        let num = sub_v(p, a).spec_dot(sub_v(b, a));
        let numc = if num < 0 {
            0
        } else if num > den {
            den
        } else {
            num
        };
        let t = div_trunc(numc * UNIT, den);
        Vec2 {
            x: (a.x + div_trunc((b.x - a.x) * t, UNIT as int)) as i64,
            y: (a.y + div_trunc((b.y - a.y) * t, UNIT as int)) as i64,
        }
    }
}

/// The best projection among boundary entries `0 .. k`: the closest, the
/// earliest entry winning ties; the stored index is the entry number plus
/// one, as the boundary walk reports it.
pub open spec fn spec_project_best(pts: Seq<Vec2>, p: Vec2, k: int) -> (Vec2, int)
    decreases k,
{
    if k <= 1 {
        let s = seg_at(pts, 0);
        (spec_seg_project(s.0, s.1, p), 1)
    } else {
        let prev = spec_project_best(pts, p, k - 1);
        let s = seg_at(pts, k - 1);
        let cur = spec_seg_project(s.0, s.1, p);
        if sub_v(p, cur).spec_mag2() < sub_v(p, prev.0).spec_mag2() {
            (cur, k)
        } else {
            prev
        }
    }
}

impl Polygon {
    /// Vertices in the world box, edges short enough for the projection
    /// arithmetic, and a bounded count.
    pub open spec fn wf(self) -> bool {
        &&& forall|i: int| 0 <= i < self.0@.len() ==> (#[trigger] self.0@[i]).in_world()
    &&& forall|k: int|
        0 <= k < self.0@.len() ==> sub_v(seg_at(self.0@, k).1, #[trigger] seg_at(self.0@, k).0).spec_mag2()
            <= EDGE2_MAX
    &&& self.0@.len() <= POLY_MAX_PTS
    }

    /// An empty polygon.
    pub fn new() -> (r: Polygon)
        ensures
            r.0@.len() == 0,
            r.wf(),
    {
        Polygon(Vec::new())
    }

    /// An axis-aligned rectangle with a corner at the origin.
    pub fn rect(w: i64, h: i64) -> (r: Polygon)
        requires
            0 <= w <= 10_000_000,
            0 <= h <= 10_000_000,
        ensures
            r.0@.len() == 4,
            r.0@[0] == (Vec2 { x: 0i64, y: 0i64 }),
            r.0@[1] == (Vec2 { x: w, y: 0i64 }),
            r.0@[2] == (Vec2 { x: w, y: h }),
            r.0@[3] == (Vec2 { x: 0i64, y: h }),
            r.wf(),
    {
        let mut v: Vec<Vec2> = Vec::new();
        v.push(Vec2 { x: 0, y: 0 });
        v.push(Vec2 { x: w, y: 0 });
        v.push(Vec2 { x: w, y: h });
        v.push(Vec2 { x: 0, y: h });
        let r = Polygon(v);
        proof {
            lemma_small_box_wf(r);
        }
        r
    }

    /// An axis-aligned rectangle centered on `pos`.
    pub fn centered_rect(pos: Vec2, w: i64, h: i64) -> (r: Polygon)
        requires
            pos.in_box(50_000_000),
            0 <= w <= 10_000_000,
            0 <= h <= 10_000_000,
        ensures
            r.0@.len() == 4,
            r.0@[0] == (Vec2 { x: (pos.x - w / 2) as i64, y: (pos.y - h / 2) as i64 }),
            r.0@[1] == (Vec2 { x: (pos.x + w / 2) as i64, y: (pos.y - h / 2) as i64 }),
            r.0@[2] == (Vec2 { x: (pos.x + w / 2) as i64, y: (pos.y + h / 2) as i64 }),
            r.0@[3] == (Vec2 { x: (pos.x - w / 2) as i64, y: (pos.y + h / 2) as i64 }),
            r.wf(),
    {
        let hw = w / 2;
        let hh = h / 2;
        let mut v: Vec<Vec2> = Vec::new();
        v.push(Vec2 { x: pos.x - hw, y: pos.y - hh });
        v.push(Vec2 { x: pos.x + hw, y: pos.y - hh });
        v.push(Vec2 { x: pos.x + hw, y: pos.y + hh });
        v.push(Vec2 { x: pos.x - hw, y: pos.y + hh });
        let r = Polygon(v);
        proof {
            lemma_small_box_wf(r);
        }
        r
    }

    pub fn len(&self) -> (r: usize)
        ensures
            r == self.0@.len(),
    {
        self.0.len()
    }

    pub fn is_empty(&self) -> (r: bool)
        ensures
            r == (self.0@.len() == 0),
    {
        self.0.len() == 0
    }

    /// The vertex at `i`.
    pub fn get(&self, i: usize) -> (r: Vec2)
        requires
            i < self.0@.len(),
        ensures
            r == self.0@[i as int],
    {
        self.0[i]
    }

    pub fn first(&self) -> (r: Vec2)
        requires
            self.0@.len() > 0,
        ensures
            r == self.0@[0],
    {
        self.0[0]
    }

    pub fn last(&self) -> (r: Vec2)
        requires
            self.0@.len() > 0,
        ensures
            r == self.0@[self.0@.len() - 1],
    {
        self.0[self.0.len() - 1]
    }

    /// Move every vertex by `p`.  A polygon that stays inside the world
    /// box stays well-formed: translation leaves every edge unchanged.
    pub fn translate(&mut self, p: Vec2)
        requires
            old(self).wf(),
            p.in_box(10_000_000),
        ensures
            final(self).0@.len() == old(self).0@.len(),
            forall|i: int|
                0 <= i < old(self).0@.len() ==> final(self).0@[i] == add_v(
                    #[trigger] old(self).0@[i],
                    p,
                ),
            (forall|i: int|
                0 <= i < old(self).0@.len() ==> (#[trigger] old(self).0@[i]).in_box(
                    90_000_000,
                )) ==> final(self).wf(),
    {
        let n = self.0.len();
        let mut i: usize = 0;
        while i < n
            invariant
                n == self.0@.len(),
                n == old(self).0@.len(),
                0 <= i <= n,
                p.in_box(10_000_000),
                forall|k: int| 0 <= k < n ==> (#[trigger] old(self).0@[k]).in_world(),
                forall|k: int| i <= k < n ==> self.0@[k] == old(self).0@[k],
                forall|k: int|
                    0 <= k < i ==> self.0@[k] == add_v(#[trigger] old(self).0@[k], p),
            decreases n - i,
        {
            let v = self.0[i];
            proof {
                assert(old(self).0@[i as int].in_world());
            }
            let moved = v.add(p);
            self.0.set(i, moved);
            i = i + 1;
        }
        proof {
            if forall|k: int|
                0 <= k < old(self).0@.len() ==> (#[trigger] old(self).0@[k]).in_box(90_000_000) {
                lemma_translate_wf(*old(self), *self, p);
            }
        }
    }

    /// Rotate every vertex by the angle whose cosine and sine `cossin`
    /// holds (a direction vector at scale `UNIT`).
    pub fn rotate(&mut self, cossin: Vec2)
        requires
            old(self).wf(),
            -2000 <= cossin.x <= 2000,
            -2000 <= cossin.y <= 2000,
        ensures
            final(self).0@.len() == old(self).0@.len(),
            forall|i: int|
                0 <= i < old(self).0@.len() ==> final(self).0@[i] == (
                #[trigger] old(self).0@[i]).spec_rotated(cossin),
    {
        let n = self.0.len();
        let mut i: usize = 0;
        while i < n
            invariant
                n == self.0@.len(),
                n == old(self).0@.len(),
                0 <= i <= n,
                -2000 <= cossin.x <= 2000,
                -2000 <= cossin.y <= 2000,
                forall|k: int| 0 <= k < n ==> (#[trigger] old(self).0@[k]).in_world(),
                forall|k: int| i <= k < n ==> self.0@[k] == old(self).0@[k],
                forall|k: int|
                    0 <= k < i ==> self.0@[k] == (#[trigger] old(self).0@[k]).spec_rotated(
                        cossin,
                    ),
            decreases n - i,
        {
            let v = self.0[i];
            proof {
                assert(old(self).0@[i as int].in_world());
            }
            let turned = v.rotated_by(cossin);
            self.0.set(i, turned);
            i = i + 1;
        }
    }

    /// The endpoints of boundary segment `seg` (wrapping at the end).
    pub fn segment(&self, seg: usize) -> (r: (Vec2, Vec2))
        requires
            self.0@.len() >= 1,
            seg < self.0@.len(),
        ensures
            r.0 == self.0@[seg as int],
            r.1 == self.0@[if seg + 1 == self.0@.len() {
                0int
            } else {
                seg + 1
            }],
    {
        let n = self.0.len();
        let b = if seg + 1 == n {
            self.0[0]
        } else {
            self.0[seg + 1]
        };
        (self.0[seg], b)
    }

    /// The vertex before `i`, wrapping around.
    pub fn get_prev(&self, i: usize) -> (r: Vec2)
        requires
            self.0@.len() >= 1,
            i < self.0@.len(),
        ensures
            r == self.0@[prev_idx(self.0@.len() as int, i as int)],
    {
        if i == 0 {
            self.0[self.0.len() - 1]
        } else {
            self.0[i - 1]
        }
    }

    /// The vertex after `i`, wrapping around.
    pub fn get_next(&self, i: usize) -> (r: Vec2)
        requires
            self.0@.len() >= 1,
            i < self.0@.len(),
        ensures
            r == self.0@[if i + 1 == self.0@.len() {
                0int
            } else {
                i + 1
            }],
    {
        let n = self.0.len();
        if i + 1 == n {
            self.0[0]
        } else {
            self.0[i + 1]
        }
    }

    /// Drop duplicate vertices and vertices collinear with their
    /// neighbours, keeping the others in order.  All judgments read the
    /// boundary as it was when the pass started.
    pub fn simplify(&mut self)
        requires
            old(self).wf(),
        ensures
            final(self).0@ == spec_simplified(old(self).0@, old(self).0@.len() as int),
    {
        let n = self.0.len();
        let mut out: Vec<Vec2> = Vec::new();
        let mut i: usize = 0;
        while i < n
            invariant
                n == self.0@.len(),
                0 <= i <= n,
                *self == *old(self),
                self.wf(),
                out@ == spec_simplified(self.0@, i as int),
            decreases n - i,
        {
            let prev = self.get_prev(i);
            let cur = self.0[i];
            let next = self.get_next(i);
            proof {
                assert(self.0@[i as int].in_world());
                assert(self.0@[prev_idx(n as int, i as int)].in_world());
                assert(self.0@[if i as int + 1 == n as int {
                    0int
                } else {
                    i as int + 1
                }].in_world());
            }
            let d1 = cur.sub(prev);
            let d2 = next.sub(cur);
            let dup = d1.x == 0 && d1.y == 0;
            let collinear = !dup && !(d2.x == 0 && d2.y == 0) && d1.perp_dot(d2) == 0 && d1.dot(
                d2,
            ) > 0;
            if !(dup || collinear) {
                out.push(cur);
            }
            proof {
                assert(removable(self.0@, i as int) == (dup || collinear));
            }
            i = i + 1;
        }
        self.0 = out;
    }

    /// Whether `p` lies inside the polygon, by the even-odd rule.
    pub fn contains(&self, p: Vec2) -> (r: bool)
        requires
            self.wf(),
            self.0@.len() >= 1,
            p.in_world(),
        ensures
            r == spec_contains(self.0@, p),
    {
        let nvert = self.0.len();
        let mut j: usize = nvert - 1;
        let mut c = false;
        let mut i: usize = 0;
        while i < nvert
            invariant
                nvert == self.0@.len(),
                1 <= nvert <= POLY_MAX_PTS,
                0 <= i <= nvert,
                j == prev_idx(nvert as int, i as int) || (i == nvert && j == nvert - 1),
                j < nvert,
                self.wf(),
                p.in_world(),
                c == crossings(self.0@, p, i as int),
            decreases nvert - i,
        {
            let verti = self.0[i];
            let vertj = self.0[j];
            proof {
                assert(self.0@[i as int].in_world());
                assert(self.0@[j as int].in_world());
            }
            let offx = vertj.x - verti.x;
            let offy = vertj.y - verti.y;
            let vipx = p.x - verti.x;
            let vipy = p.y - verti.y;
            let vjpy = p.y - vertj.y;
            let aoffy = if offy >= 0 {
                offy
            } else {
                -offy
            };
            let soffy: i64 = if offy > 0 {
                1
            } else if offy < 0 {
                -1
            } else {
                0
            };
            proof {
                lemma_cross_products(offx as int, offy as int, vipx as int, vipy as int);
            }
            if ((vipy < 0) != (vjpy < 0)) && vipx * aoffy < offx * vipy * soffy {
                c = !c;
            }
            j = i;
            i = i + 1;
        }
        c
    }

    /// The closest point of the boundary to `p`, and the index of the
    /// boundary entry it lies on; ties go to the earliest entry.
    pub fn project_segment(&self, p: Vec2) -> (r: (Vec2, usize))
        requires
            self.wf(),
            self.0@.len() >= 1,
            p.in_world(),
        ensures
            self.0@.len() == 1 ==> r == (self.0@[0], 0usize),
            self.0@.len() == 2 ==> r.0 == spec_seg_project(self.0@[0], self.0@[1], p) && r.1 == 1,
            self.0@.len() >= 3 ==> (r.0, r.1 as int) == spec_project_best(
                self.0@,
                p,
                self.0@.len() as int,
            ),
    {
        let n = self.0.len();
        if n == 1 {
            return (self.0[0], 0);
        }
        if n == 2 {
            let a = self.0[0];
            let b = self.0[1];
            proof {
                assert(self.0@[0].in_world());
                assert(self.0@[1].in_world());
                assert(sub_v(seg_at(self.0@, 0).1, seg_at(self.0@, 0).0).spec_mag2() <= EDGE2_MAX);
            }
            return (seg_project(a, b, p), 1);
        }
        let a0 = self.0[0];
        let b0 = self.0[1];
        proof {
            assert(self.0@[0].in_world());
            assert(self.0@[1].in_world());
            assert(sub_v(seg_at(self.0@, 0).1, seg_at(self.0@, 0).0).spec_mag2() <= EDGE2_MAX);
        }
        let mut best = seg_project(a0, b0, p);
        let mut best_i: usize = 1;
        let mut best_d2 = p.distance2(best);
        let mut k: usize = 1;
        while k < n
            invariant
                n == self.0@.len(),
                3 <= n <= POLY_MAX_PTS,
                1 <= k <= n,
                self.wf(),
                p.in_world(),
                (best, best_i as int) == spec_project_best(self.0@, p, k as int),
                best_d2 == sub_v(p, best).spec_mag2(),
                best.in_world(),
                1 <= best_i <= k,
            decreases n - k,
        {
            let a = self.0[k];
            let b = if k + 1 == n {
                self.0[0]
            } else {
                self.0[k + 1]
            };
            proof {
                assert(self.0@[k as int].in_world());
                assert(self.0@[0].in_world());
                if k + 1 < n {
                    assert(self.0@[k as int + 1].in_world());
                }
                assert(sub_v(seg_at(self.0@, k as int).1, seg_at(self.0@, k as int).0).spec_mag2()
                    <= EDGE2_MAX);
            }
            let cur = seg_project(a, b, p);
            let d2 = p.distance2(cur);
            if d2 < best_d2 {
                best = cur;
                best_i = k + 1;
                best_d2 = d2;
            }
            k = k + 1;
        }
        (best, best_i)
    }

    /// The closest point of the boundary to `p`.
    pub fn project(&self, p: Vec2) -> (r: Vec2)
        requires
            self.wf(),
            self.0@.len() >= 1,
            p.in_world(),
        ensures
            self.0@.len() == 1 ==> r == self.0@[0],
            self.0@.len() == 2 ==> r == spec_seg_project(self.0@[0], self.0@[1], p),
            self.0@.len() >= 3 ==> r == spec_project_best(self.0@, p, self.0@.len() as int).0,
    {
        let (v, _) = self.project_segment(p);
        v
    }

    /// A circle around the barycenter that covers every vertex: its
    /// radius is the largest centre-to-vertex distance, rounded down.
    pub fn bcircle(&self) -> (r: Circle)
        requires
            self.wf(),
            self.0@.len() >= 1,
        ensures
            r.center.x == div_trunc(spec_sum_x(self.0@, self.0@.len() as int),
                self.0@.len() as int),
            r.center.y == div_trunc(spec_sum_y(self.0@, self.0@.len() as int),
                self.0@.len() as int),
            r.radius == crate::num::sqrt_floor(
                spec_max_dist2(self.0@, r.center, self.0@.len() as int),
            ),
    {
        let center = self.barycenter();
        proof {
            lemma_barycenter_in_world(*self, center);
        }
        let n = self.0.len();
        let p0 = self.0[0];
        proof {
            assert(self.0@[0].in_world());
        }
        let mut best: i64 = p0.distance2(center);
        let mut i: usize = 1;
        while i < n
            invariant
                n == self.0@.len(),
                1 <= n <= POLY_MAX_PTS,
                1 <= i <= n,
                self.wf(),
                center.in_world(),
                best == spec_max_dist2(self.0@, center, i as int),
                best >= 0,
            decreases n - i,
        {
            let v = self.0[i];
            proof {
                assert(self.0@[i as int].in_world());
            }
            let d2 = v.distance2(center);
            if d2 > best {
                best = d2;
            }
            i = i + 1;
        }
        let radius = crate::num::isqrt_i64(best);
        Circle { center, radius }
    }

    /// The arithmetic mean of the vertices.
    pub fn barycenter(&self) -> (r: Vec2)
        requires
            self.wf(),
            self.0@.len() >= 1,
        ensures
            r.x == div_trunc(spec_sum_x(self.0@, self.0@.len() as int), self.0@.len() as int),
            r.y == div_trunc(spec_sum_y(self.0@, self.0@.len() as int), self.0@.len() as int),
    {
        let n = self.0.len();
        let mut sx: i64 = 0;
        let mut sy: i64 = 0;
        let mut i: usize = 0;
        while i < n
            invariant
                n == self.0@.len(),
                1 <= n <= POLY_MAX_PTS,
                0 <= i <= n,
                self.wf(),
                sx == spec_sum_x(self.0@, i as int),
                sy == spec_sum_y(self.0@, i as int),
                -100_000_000 * i <= sx <= 100_000_000 * i,
                -100_000_000 * i <= sy <= 100_000_000 * i,
            decreases n - i,
        {
            let v = self.0[i];
            proof {
                assert(self.0@[i as int].in_world());
            }
            sx = sx + v.x;
            sy = sy + v.y;
            i = i + 1;
        }
        (Vec2 { x: div_signed(sx, n as i64), y: div_signed(sy, n as i64) })
    }
}

/// A circle around a centre point.
#[derive(Clone, Copy, PartialEq, Eq, Structural, Debug)]
pub struct Circle {
    pub center: Vec2,
    pub radius: i64,
}

/// The largest squared distance from `c` to one of the first `k` vertices.
pub open spec fn spec_max_dist2(pts: Seq<Vec2>, c: Vec2, k: int) -> int
    decreases k,
{
    if k <= 1 {
        sub_v(pts[0], c).spec_mag2()
    } else {
        let prev = spec_max_dist2(pts, c, k - 1);
        let cur = sub_v(pts[k - 1], c).spec_mag2();
        if cur > prev {
            cur
        } else {
            prev
        }
    }
}

/// Vertex `i` adds nothing to the boundary: it repeats its predecessor,
/// or sits on the straight run from its predecessor to its successor
/// (collinear offsets pointing the same way).
pub open spec fn removable(pts: Seq<Vec2>, i: int) -> bool {
    let n = pts.len() as int;
    let prev = pts[prev_idx(n, i)];
    let cur = pts[i];
    let next = pts[if i + 1 == n {
        0int
    } else {
        i + 1
    }];
    let d1 = sub_v(cur, prev);
    let d2 = sub_v(next, cur);
    d1.is_zero() || (!d1.is_zero() && !d2.is_zero() && d1.spec_perp_dot(d2) == 0 && d1.spec_dot(d2)
        > 0)
}

/// The vertices of the first `k` that simplification keeps, in order.
pub open spec fn spec_simplified(pts: Seq<Vec2>, k: int) -> Seq<Vec2>
    decreases k,
{
    if k <= 0 {
        Seq::empty()
    } else {
        let prefix = spec_simplified(pts, k - 1);
        if removable(pts, k - 1) {
            prefix
        } else {
            prefix.push(pts[k - 1])
        }
    }
}

/// The barycenter of world points is itself a world point.
proof fn lemma_barycenter_in_world(poly: Polygon, c: Vec2)
    requires
        poly.wf(),
        poly.0@.len() >= 1,
        c.x == div_trunc(spec_sum_x(poly.0@, poly.0@.len() as int), poly.0@.len() as int),
        c.y == div_trunc(spec_sum_y(poly.0@, poly.0@.len() as int), poly.0@.len() as int),
    ensures
        c.in_world(),
{
    let n = poly.0@.len() as int;
    lemma_sum_in_bounds_x(poly.0@, n, n);
    lemma_sum_in_bounds_y(poly.0@, n, n);
    let sx = spec_sum_x(poly.0@, n);
    let sy = spec_sum_y(poly.0@, n);
    lemma_avg_in_world(sx, n);
    lemma_avg_in_world(sy, n);
}

/// A running coordinate sum is bounded by the count times the world box.
proof fn lemma_sum_in_bounds_x(pts: Seq<Vec2>, k: int, n: int)
    requires
        0 <= k <= n,
        forall|i: int| 0 <= i < pts.len() ==> (#[trigger] pts[i]).in_world(),
        n <= pts.len(),
    ensures
        -(MAX_WORLD as int) * k <= spec_sum_x(pts, k) <= (MAX_WORLD as int) * k,
    decreases k,
{
    if k > 0 {
        lemma_sum_in_bounds_x(pts, k - 1, n);
        assert(pts[k - 1].in_world());
        assert((MAX_WORLD as int) * k == (MAX_WORLD as int) * (k - 1) + MAX_WORLD)
            by (nonlinear_arith);
    } else {
        assert((MAX_WORLD as int) * 0 == 0) by (nonlinear_arith);
    }
}

/// A running coordinate sum is bounded by the count times the world box.
proof fn lemma_sum_in_bounds_y(pts: Seq<Vec2>, k: int, n: int)
    requires
        0 <= k <= n,
        forall|i: int| 0 <= i < pts.len() ==> (#[trigger] pts[i]).in_world(),
        n <= pts.len(),
    ensures
        -(MAX_WORLD as int) * k <= spec_sum_y(pts, k) <= (MAX_WORLD as int) * k,
    decreases k,
{
    if k > 0 {
        lemma_sum_in_bounds_y(pts, k - 1, n);
        assert(pts[k - 1].in_world());
        assert((MAX_WORLD as int) * k == (MAX_WORLD as int) * (k - 1) + MAX_WORLD)
            by (nonlinear_arith);
    } else {
        assert((MAX_WORLD as int) * 0 == 0) by (nonlinear_arith);
    }
}

/// The truncated average of a sum of `n` world coordinates is a world
/// coordinate.
proof fn lemma_avg_in_world(s: int, n: int)
    requires
        n >= 1,
        -(MAX_WORLD as int) * n <= s <= (MAX_WORLD as int) * n,
    ensures
        -(MAX_WORLD as int) <= div_trunc(s, n) <= MAX_WORLD as int,
{
    assert(-((MAX_WORLD as int) * n) == (-(MAX_WORLD as int)) * n) by (nonlinear_arith);
    if s >= 0 {
        assert(0 <= s / n <= MAX_WORLD as int) by (nonlinear_arith)
            requires
                0 <= s <= (MAX_WORLD as int) * n,
                n >= 1,
        ;
    } else {
        assert(0 <= (-s) / n <= MAX_WORLD as int) by (nonlinear_arith)
            requires
                0 <= -s <= (MAX_WORLD as int) * n,
                n >= 1,
        ;
    }
}

/// Translating a well-formed polygon that stays in the world box keeps
/// it well-formed: the edges do not change.
proof fn lemma_translate_wf(before: Polygon, after: Polygon, p: Vec2)
    requires
        before.wf(),
        p.in_box(10_000_000),
        after.0@.len() == before.0@.len(),
        forall|i: int|
            0 <= i < before.0@.len() ==> after.0@[i] == add_v(#[trigger] before.0@[i], p),
        forall|i: int| 0 <= i < before.0@.len() ==> (#[trigger] before.0@[i]).in_box(90_000_000),
    ensures
        after.wf(),
{
    let n = before.0@.len() as int;
    assert forall|i: int| 0 <= i < n implies (#[trigger] after.0@[i]).in_world() by {
        assert(before.0@[i].in_box(90_000_000));
        assert(after.0@[i] == add_v(before.0@[i], p));
    }
    assert forall|k: int|
        0 <= k < n implies sub_v(seg_at(after.0@, k).1, #[trigger] seg_at(after.0@, k).0).spec_mag2()
        <= EDGE2_MAX by {
        let sb = seg_at(before.0@, k);
        let sa = seg_at(after.0@, k);
        assert(sa.0 == add_v(sb.0, p) && sa.1 == add_v(sb.1, p));
        assert(sub_v(sa.1, sa.0) == sub_v(sb.1, sb.0));
        assert(sub_v(seg_at(before.0@, k).1, seg_at(before.0@, k).0).spec_mag2() <= EDGE2_MAX);
    }
}

/// Running sum of x coordinates of the first `k` vertices.
pub open spec fn spec_sum_x(pts: Seq<Vec2>, k: int) -> int
    decreases k,
{
    if k <= 0 {
        0
    } else {
        spec_sum_x(pts, k - 1) + pts[k - 1].x
    }
}

/// Running sum of y coordinates of the first `k` vertices.
pub open spec fn spec_sum_y(pts: Seq<Vec2>, k: int) -> int
    decreases k,
{
    if k <= 0 {
        0
    } else {
        spec_sum_y(pts, k - 1) + pts[k - 1].y
    }
}

/// Project `p` onto the segment `a`-`b`, the parameter clamped to the
/// segment and quantized to thousandths.
pub fn seg_project(a: Vec2, b: Vec2, p: Vec2) -> (r: Vec2)
    requires
        a.in_world(),
        b.in_world(),
        p.in_world(),
        sub_v(b, a).spec_mag2() <= EDGE2_MAX,
    ensures
        r == spec_seg_project(a, b, p),
        r.in_world(),
{
    let d = b.sub(a);
    let den = d.magnitude2();
    if den == 0 {
        proof {
            assert(sub_v(b, a).spec_mag2() == 0);
        }
        return a;
    }
    let pa = p.sub(a);
    let num = pa.dot(d);
    let numc = iclamp(num, 0, den);
    proof {
        assert(0 <= numc * UNIT <= den * UNIT) by (nonlinear_arith)
            requires
                0 <= numc <= den,
                UNIT > 0,
        ;
        assert(den * UNIT <= EDGE2_MAX * 1000) by (nonlinear_arith)
            requires
                den <= EDGE2_MAX,
                UNIT == 1000,
        ;
        assert(0 <= div_trunc(numc * UNIT, den as int) <= UNIT) by (nonlinear_arith)
            requires
                0 <= numc * UNIT <= den * UNIT,
                den >= 1,
                UNIT > 0,
        ;
    }
    let t = div_i64(numc * UNIT, den);
    proof {
        lemma_edge_step(d.x as int, t as int);
        lemma_edge_step(d.y as int, t as int);
    }
    let rx = a.x + div_i64(d.x * t, UNIT);
    let ry = a.y + div_i64(d.y * t, UNIT);
    proof {
        lemma_proj_in_world(a.x as int, b.x as int, d.x as int, t as int);
        lemma_proj_in_world(a.y as int, b.y as int, d.y as int, t as int);
    }
    Vec2 { x: rx, y: ry }
}

/// Truncating division for a signed dividend and positive divisor, the
/// divisor given as a machine integer.
fn div_signed(a: i64, b: i64) -> (r: i64)
    requires
        b > 0,
        a > i64::MIN,
    ensures
        r == div_trunc(a as int, b as int),
{
    div_i64(a, b)
}

/// An edge component scaled by a thousandths parameter stays within the
/// edge component.
proof fn lemma_edge_step(c: int, t: int)
    requires
        -200_000_000 <= c <= 200_000_000,
        0 <= t <= UNIT,
    ensures
        -200_000_000_000 <= c * t <= 200_000_000_000,
        c >= 0 ==> 0 <= div_trunc(c * t, UNIT as int) <= c,
        c < 0 ==> c <= div_trunc(c * t, UNIT as int) <= 0,
{
    assert(-200_000_000_000 <= c * t <= 200_000_000_000) by (nonlinear_arith)
        requires
            -200_000_000 <= c <= 200_000_000,
            0 <= t <= 1000,
    ;
    if c >= 0 {
        assert(0 <= c * t / 1000 <= c) by (nonlinear_arith)
            requires
                0 <= t <= 1000,
                c >= 0,
        ;
    } else {
        assert(0 <= -(c * t) / 1000 <= -c) by (nonlinear_arith)
            requires
                0 <= t <= 1000,
                c < 0,
        ;
    }
}

/// Walking a fraction of the way from `a` toward `b` stays in the world
/// box when both ends are in it.
proof fn lemma_proj_in_world(a: int, b: int, d: int, t: int)
    requires
        -(MAX_WORLD as int) <= a <= MAX_WORLD as int,
        -(MAX_WORLD as int) <= b <= MAX_WORLD as int,
        d == b - a,
        0 <= t <= UNIT,
    ensures
        -(MAX_WORLD as int) <= a + div_trunc(d * t, UNIT as int) <= MAX_WORLD as int,
{
    lemma_edge_step(d, t);
}

/// The cross products of the even-odd test stay in multiplication range
/// for world coordinates.
proof fn lemma_cross_products(offx: int, offy: int, vipx: int, vipy: int)
    requires
        -200_000_000 <= offx <= 200_000_000,
        -200_000_000 <= offy <= 200_000_000,
        -200_000_000 <= vipx <= 200_000_000,
        -200_000_000 <= vipy <= 200_000_000,
    ensures
        -40_000_000_000_000_000 <= vipx * (if offy >= 0 {
            offy
        } else {
            -offy
        }) <= 40_000_000_000_000_000,
        -40_000_000_000_000_000 <= offx * vipy <= 40_000_000_000_000_000,
        -40_000_000_000_000_000 <= offx * vipy * sgn(offy) <= 40_000_000_000_000_000,
{
    assert(-40_000_000_000_000_000 <= vipx * (if offy >= 0 {
        offy
    } else {
        -offy
    }) <= 40_000_000_000_000_000 && -40_000_000_000_000_000 <= offx * vipy
        <= 40_000_000_000_000_000) by (nonlinear_arith)
        requires
            -200_000_000 <= offx <= 200_000_000,
            -200_000_000 <= offy <= 200_000_000,
            -200_000_000 <= vipx <= 200_000_000,
            -200_000_000 <= vipy <= 200_000_000,
    ;
    let m = offx * vipy;
    assert(m * sgn(offy) == m || m * sgn(offy) == -m || m * sgn(offy) == 0) by (nonlinear_arith);
}

/// A polygon whose vertices were just laid out inside a small box with
/// axis-spans under 10 km is well-formed.
proof fn lemma_small_box_wf(r: Polygon)
    requires
        forall|i: int| 0 <= i < r.0@.len() ==> (#[trigger] r.0@[i]).in_box(60_000_000),
        forall|k: int|
            0 <= k < r.0@.len() ==> {
                let d = sub_v(seg_at(r.0@, k).1, #[trigger] seg_at(r.0@, k).0);
                -10_000_000 <= d.x <= 10_000_000 && -10_000_000 <= d.y <= 10_000_000
            },
        r.0@.len() <= POLY_MAX_PTS,
    ensures
        r.wf(),
{
    assert forall|i: int| 0 <= i < r.0@.len() implies (#[trigger] r.0@[i]).in_world() by {
        assert(r.0@[i].in_box(60_000_000));
    }
    assert forall|k: int|
        0 <= k < r.0@.len() implies sub_v(seg_at(r.0@, k).1, #[trigger] seg_at(r.0@, k).0).spec_mag2()
        <= EDGE2_MAX by {
        let s = seg_at(r.0@, k);
        let d = sub_v(s.1, s.0);
        assert(-10_000_000 <= d.x <= 10_000_000 && -10_000_000 <= d.y <= 10_000_000);
        assert(d.x * d.x + d.y * d.y <= EDGE2_MAX) by (nonlinear_arith)
            requires
                -10_000_000 <= d.x <= 10_000_000,
                -10_000_000 <= d.y <= 10_000_000,
                EDGE2_MAX == 400_000_000_000_000,
        ;
    }
}

} // verus!
