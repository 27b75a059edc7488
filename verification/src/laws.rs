//! Library-wide laws: properties that tie several functions together,
//! proved once and for all inputs their statements admit.

use vstd::prelude::*;

verus! {

use crate::num::{div_trunc, UNIT};
use crate::v2::Vec2;
use crate::polygon::{spec_contains, crossings, edge_crossing};
use crate::scanner::{
    ScanEnv,
    scan_from,
    spec_front_scan,
    cone_applies,
    cone_cand,
    FRONT_DIST_CEILING,
};

/// Normalization preserves direction: for any non-zero vector, the dot
/// product of the vector with its normalized copy is strictly positive.
pub proof fn lemma_normalize_preserves_direction(v: Vec2)
    requires
        v.ok(),
        !v.is_zero(),
    ensures
        v.spec_mag() >= 1,
        v.spec_normalized(v.spec_mag()).spec_dot(v) > 0,
{
    let m = v.spec_mag();
    assert(v.spec_mag2() >= 0) by (nonlinear_arith);
    crate::num::lemma_sqrt_floor(v.spec_mag2());
    assert(v.spec_mag2() >= 1) by (nonlinear_arith)
        requires
            v.x != 0 || v.y != 0,
    ;
    assert(m >= 1) by {
        if m == 0 {
            assert((m + 1) * (m + 1) == 1) by (nonlinear_arith)
                requires
                    m == 0,
            ;
        }
    }
    let p = div_trunc(v.x * UNIT, m);
    let q = div_trunc(v.y * UNIT, m);
    // Each term of the dot product is non-negative: truncation keeps sign.
    lemma_trunc_sign(v.x as int, m);
    lemma_trunc_sign(v.y as int, m);
    // The larger coordinate's term is strictly positive.
    if v.x * v.x >= v.y * v.y {
        lemma_major_coord_term(v.x as int, v.y as int, m);
        assert(v.x * p > 0);
    } else {
        lemma_major_coord_term(v.y as int, v.x as int, m);
        assert(v.y * q > 0);
        assert(v.y * v.y + v.x * v.x == v.x * v.x + v.y * v.y) by (nonlinear_arith);
    }
    assert(v.spec_normalized(m).spec_dot(v) == p * v.x + q * v.y);
    assert(p * v.x == v.x * p && q * v.y == v.y * q) by (nonlinear_arith);
}

/// `c` and `div_trunc(c * UNIT, m)` never have opposite signs.
proof fn lemma_trunc_sign(c: int, m: int)
    requires
        m >= 1,
    ensures
        c * div_trunc(c * UNIT, m) >= 0,
{
    if c >= 0 {
        assert(c * UNIT >= 0) by (nonlinear_arith)
            requires
                c >= 0,
        ;
        assert(c * UNIT / m >= 0) by (nonlinear_arith)
            requires
                c * UNIT >= 0,
                m >= 1,
        ;
        assert(c * div_trunc(c * UNIT, m) >= 0) by (nonlinear_arith)
            requires
                c >= 0,
                div_trunc(c * UNIT, m) >= 0,
        ;
    } else {
        assert(-(c * UNIT) >= 0) by (nonlinear_arith)
            requires
                c < 0,
        ;
        assert(-(c * UNIT) / m >= 0) by (nonlinear_arith)
            requires
                -(c * UNIT) >= 0,
                m >= 1,
        ;
        assert(c * div_trunc(c * UNIT, m) >= 0) by (nonlinear_arith)
            requires
                c < 0,
                div_trunc(c * UNIT, m) <= 0,
        ;
    }
}

/// For the coordinate `c` with `c^2 >= d^2` of a non-zero vector of floor
/// magnitude `m`, the dot-product term `c * (c * UNIT / m)` is strictly
/// positive.
proof fn lemma_major_coord_term(c: int, d: int, m: int)
    requires
        m >= 1,
        c * c >= d * d,
        c * c + d * d >= 1,
        m * m <= c * c + d * d,
        c * c + d * d < (m + 1) * (m + 1),
    ensures
        c * div_trunc(c * UNIT, m) > 0,
{
    // The major coordinate is non-zero and at least m / 2 in size.
    assert(c != 0) by (nonlinear_arith)
        requires
            c * c >= d * d,
            c * c + d * d >= 1,
    ;
    let a = if c >= 0 {
        c
    } else {
        -c
    };
    assert(a >= 1);
    // m^2 <= 2 c^2 = 2 a^2, so m <= 2 a (else m^2 > 4 a^2 > 2 a^2).
    assert(a * a == c * c) by (nonlinear_arith)
        requires
            a == c || a == -c,
    ;
    assert(m * m <= 2 * (a * a)) by (nonlinear_arith)
        requires
            m * m <= c * c + d * d,
            c * c >= d * d,
            a * a == c * c,
    ;
    assert(m <= 2 * a) by (nonlinear_arith)
        requires
            m * m <= 2 * (a * a),
            m >= 1,
            a >= 1,
    ;
    // Hence a * UNIT / m >= UNIT / 2 > 0.
    assert(a * UNIT >= m * 500) by (nonlinear_arith)
        requires
            m <= 2 * a,
            UNIT == 1000,
    ;
    assert(a * UNIT / m >= 500) by (nonlinear_arith)
        requires
            a * UNIT >= m * 500,
            m >= 1,
    ;
    if c >= 0 {
        assert(div_trunc(c * UNIT, m) == a * UNIT / m);
        assert(c * div_trunc(c * UNIT, m) > 0) by (nonlinear_arith)
            requires
                c >= 1,
                div_trunc(c * UNIT, m) >= 500,
        ;
    } else {
        assert(div_trunc(c * UNIT, m) == -(a * UNIT / m));
        assert(c * div_trunc(c * UNIT, m) > 0) by (nonlinear_arith)
            requires
                c <= -1,
                div_trunc(c * UNIT, m) <= -500,
        ;
    }
}

/// Normalization lands near unit magnitude: for any vector at least one
/// unit long, the squared magnitude of its normalized copy is within half
/// a percent of `UNIT^2`.
pub proof fn lemma_normalize_unit_magnitude(v: Vec2)
    requires
        v.ok(),
        v.spec_mag() >= 1000,
    ensures
        995_000 <= {
            let u = v.spec_normalized(v.spec_mag());
            u.x * u.x + u.y * u.y
        } <= 1_003_000,
{
    let m = v.spec_mag();
    assert(v.spec_mag2() >= 0) by (nonlinear_arith);
    crate::num::lemma_sqrt_floor(v.spec_mag2());
    let p = div_trunc(v.x * UNIT, m);
    let q = div_trunc(v.y * UNIT, m);
    lemma_trunc_window(v.x as int, m);
    lemma_trunc_window(v.y as int, m);
    crate::v2::lemma_normalized_in_unit_box(v);
    lemma_quotient_box(v.x as int, m);
    lemma_quotient_box(v.y as int, m);
    assert((v.x * UNIT) * (v.x * UNIT) == (v.x * v.x) * 1_000_000 && (v.y * UNIT) * (v.y * UNIT)
        == (v.y * v.y) * 1_000_000) by (nonlinear_arith)
        requires
            UNIT == 1000,
    ;
    // Upper bound: (p^2 + q^2) m^2 <= (x 1000)^2 + (y 1000)^2 = mag2 10^6
    // < (m+1)^2 10^6, and m >= 1000 forces p^2 + q^2 <= 1_003_000.
    assert((p * p + q * q) * (m * m) <= v.spec_mag2() * 1_000_000) by (nonlinear_arith)
        requires
            p * p * (m * m) <= (v.x * UNIT) * (v.x * UNIT),
            q * q * (m * m) <= (v.y * UNIT) * (v.y * UNIT),
            (v.x * UNIT) * (v.x * UNIT) == (v.x * v.x) * 1_000_000,
            (v.y * UNIT) * (v.y * UNIT) == (v.y * v.y) * 1_000_000,
            v.spec_mag2() == v.x * v.x + v.y * v.y,
    ;
    assert(p * p + q * q <= 1_003_000) by (nonlinear_arith)
        requires
            (p * p + q * q) * (m * m) <= v.spec_mag2() * 1_000_000,
            v.spec_mag2() < (m + 1) * (m + 1),
            m >= 1000,
    ;
    // Lower bound: |x 1000| < m (|p| + 1), so mag2 10^6 < m^2 ((|p|+1)^2 +
    // (|q|+1)^2), and mag2 >= m^2 forces p^2 + q^2 > 10^6 - 2(|p| + |q|) - 2.
    assert(v.spec_mag2() * 1_000_000 < (m * m) * (((if p >= 0 {
        p
    } else {
        -p
    }) + 1) * ((if p >= 0 {
        p
    } else {
        -p
    }) + 1) + ((if q >= 0 {
        q
    } else {
        -q
    }) + 1) * ((if q >= 0 {
        q
    } else {
        -q
    }) + 1))) by (nonlinear_arith)
        requires
            (v.x * UNIT) * (v.x * UNIT) < (m * ((if p >= 0 {
                p
            } else {
                -p
            }) + 1)) * (m * ((if p >= 0 {
                p
            } else {
                -p
            }) + 1)),
            (v.y * UNIT) * (v.y * UNIT) < (m * ((if q >= 0 {
                q
            } else {
                -q
            }) + 1)) * (m * ((if q >= 0 {
                q
            } else {
                -q
            }) + 1)),
            (v.x * UNIT) * (v.x * UNIT) == (v.x * v.x) * 1_000_000,
            (v.y * UNIT) * (v.y * UNIT) == (v.y * v.y) * 1_000_000,
            v.spec_mag2() == v.x * v.x + v.y * v.y,
    ;
    assert(p * p + q * q >= 995_000) by (nonlinear_arith)
        requires
            v.spec_mag2() * 1_000_000 < (m * m) * (((if p >= 0 {
                p
            } else {
                -p
            }) + 1) * ((if p >= 0 {
                p
            } else {
                -p
            }) + 1) + ((if q >= 0 {
                q
            } else {
                -q
            }) + 1) * ((if q >= 0 {
                q
            } else {
                -q
            }) + 1)),
            m * m <= v.spec_mag2(),
            -1000 <= p <= 1000,
            -1000 <= q <= 1000,
            m >= 1000,
    ;
}

/// A coordinate no larger than the magnitude scales into `[-UNIT, UNIT]`.
proof fn lemma_quotient_box(c: int, m: int)
    requires
        m >= 1,
        m >= crate::v2::abs_c(c),
    ensures
        -1000 <= div_trunc(c * UNIT, m) <= 1000,
{
    if c >= 0 {
        assert(c * UNIT <= m * UNIT) by (nonlinear_arith)
            requires
                c <= m,
                UNIT > 0,
        ;
        assert(0 <= c * UNIT / m <= UNIT) by (nonlinear_arith)
            requires
                0 <= c * UNIT <= m * UNIT,
                m >= 1,
                UNIT > 0,
        ;
    } else {
        assert(-(c * UNIT) <= m * UNIT) by (nonlinear_arith)
            requires
                -c <= m,
                UNIT > 0,
        ;
        assert(0 <= -(c * UNIT) / m <= UNIT) by (nonlinear_arith)
            requires
                0 <= -(c * UNIT) <= m * UNIT,
                m >= 1,
                UNIT > 0,
        ;
    }
}

/// Truncating division brackets the quotient: `|p| m <= |c 1000| < (|p| +
/// 1) m`, squared on both sides, and `|p| <= 1000` when `m` bounds `|c|`.
proof fn lemma_trunc_window(c: int, m: int)
    requires
        m >= 1,
    ensures
        ({
            let p = div_trunc(c * UNIT, m);
            p * p * (m * m) <= (c * UNIT) * (c * UNIT) && (c * UNIT) * (c * UNIT) < (m * ((if p
                >= 0 {
                p
            } else {
                -p
            }) + 1)) * (m * ((if p >= 0 {
                p
            } else {
                -p
            }) + 1))
        }),
{
    let a = c * UNIT;
    let p = div_trunc(a, m);
    if a >= 0 {
        assert(p == a / m);
        assert(m * (a / m) <= a && a < m * (a / m) + m) by (nonlinear_arith)
            requires
                a >= 0,
                m >= 1,
        ;
        assert(p >= 0) by (nonlinear_arith)
            requires
                a >= 0,
                m >= 1,
                p == a / m,
        ;
        assert(p * p * (m * m) <= a * a && a * a < (m * (p + 1)) * (m * (p + 1)))
            by (nonlinear_arith)
            requires
                m * p <= a,
                a < m * p + m,
                p >= 0,
                m >= 1,
        ;
    } else {
        let b = -a;
        assert(p == -(b / m));
        assert(m * (b / m) <= b && b < m * (b / m) + m) by (nonlinear_arith)
            requires
                b >= 0,
                m >= 1,
        ;
        assert(b / m >= 0) by (nonlinear_arith)
            requires
                b >= 0,
                m >= 1,
        ;
        assert(p * p * (m * m) <= a * a && a * a < (m * ((-p) + 1)) * (m * ((-p) + 1)))
            by (nonlinear_arith)
            requires
                m * (-p) <= b,
                b < m * (-p) + m,
                -p >= 0,
                m >= 1,
                a == -b,
        ;
    }
}

/// An empty neighbourhood scans to the distance ceiling with no flag.
pub proof fn lemma_scan_empty(env: ScanEnv)
    ensures
        spec_front_scan(env, Seq::<(Vec2, crate::physics::PhysicsObject)>::empty()) == (
            FRONT_DIST_CEILING as int,
            0u64,
        ),
{
}

/// The scan never reports more than the minimum it starts from.
pub proof fn lemma_scan_le_start(
    env: ScanEnv,
    ns: Seq<(Vec2, crate::physics::PhysicsObject)>,
    i: int,
    m: int,
    f: u64,
)
    ensures
        scan_from(env, ns, i, m, f).0 <= m,
    decreases ns.len() - i,
{
    if 0 <= i < ns.len() {
        let n = ns[i];
        if cone_applies(env, n) {
            let c = cone_cand(env, n);
            let m2 = if c < m {
                c
            } else {
                m
            };
            let f2 = if c < m {
                n.1.flag
            } else {
                f
            };
            if !(m2 < env.cutoff) {
                lemma_scan_le_start(env, ns, i + 1, m2, f2);
            }
        } else if crate::scanner::ray_applies(env, n) {
            let c = crate::scanner::ray_cand(env, n);
            let m2 = if c < m {
                c
            } else {
                m
            };
            let f2 = if c < m {
                n.1.flag
            } else {
                f
            };
            lemma_scan_le_start(env, ns, i + 1, m2, f2);
        } else {
            lemma_scan_le_start(env, ns, i + 1, m, f);
        }
    }
}

/// The scan's minimum with the early exit disabled: every neighbour's
/// candidate is folded in, from index `i` on.
pub open spec fn scan_min_full(
    env: ScanEnv,
    ns: Seq<(Vec2, crate::physics::PhysicsObject)>,
    i: int,
    m: int,
) -> int
    decreases ns.len() - i,
{
    if i < 0 || i >= ns.len() {
        m
    } else {
        let n = ns[i];
        if cone_applies(env, n) {
            let c = cone_cand(env, n);
            scan_min_full(env, ns, i + 1, if c < m {
                c
            } else {
                m
            })
        } else if crate::scanner::ray_applies(env, n) {
            let c = crate::scanner::ray_cand(env, n);
            scan_min_full(env, ns, i + 1, if c < m {
                c
            } else {
                m
            })
        } else {
            scan_min_full(env, ns, i + 1, m)
        }
    }
}

/// Folding candidates in never raises the minimum.
proof fn lemma_scan_min_full_le(
    env: ScanEnv,
    ns: Seq<(Vec2, crate::physics::PhysicsObject)>,
    i: int,
    m: int,
)
    ensures
        scan_min_full(env, ns, i, m) <= m,
    decreases ns.len() - i,
{
    if 0 <= i < ns.len() {
        let n = ns[i];
        if cone_applies(env, n) {
            let c = cone_cand(env, n);
            lemma_scan_min_full_le(env, ns, i + 1, if c < m {
                c
            } else {
                m
            });
        } else if crate::scanner::ray_applies(env, n) {
            let c = crate::scanner::ray_cand(env, n);
            lemma_scan_min_full_le(env, ns, i + 1, if c < m {
                c
            } else {
                m
            });
        } else {
            lemma_scan_min_full_le(env, ns, i + 1, m);
        }
    }
}

/// Scanner safety: the hot-path early exit may stop the scan short, but
/// the reported front distance is never smaller than the full minimum
/// over every neighbour — the scanner never reports a hazard closer than
/// the closest one it models.
pub proof fn lemma_scan_never_undercuts(env: ScanEnv, ns: Seq<(Vec2, crate::physics::PhysicsObject)>)
    ensures
        spec_front_scan(env, ns).0 >= scan_min_full(env, ns, 0, FRONT_DIST_CEILING as int),
{
    lemma_scan_ge_full(env, ns, 0, FRONT_DIST_CEILING as int, 0);
}

/// The inductive form of the no-undercut law, over any start state.
proof fn lemma_scan_ge_full(
    env: ScanEnv,
    ns: Seq<(Vec2, crate::physics::PhysicsObject)>,
    i: int,
    m: int,
    f: u64,
)
    ensures
        scan_from(env, ns, i, m, f).0 >= scan_min_full(env, ns, i, m),
    decreases ns.len() - i,
{
    if 0 <= i < ns.len() {
        let n = ns[i];
        if cone_applies(env, n) {
            let c = cone_cand(env, n);
            let m2 = if c < m {
                c
            } else {
                m
            };
            let f2 = if c < m {
                n.1.flag
            } else {
                f
            };
            if m2 < env.cutoff {
                lemma_scan_min_full_le(env, ns, i + 1, m2);
            } else {
                lemma_scan_ge_full(env, ns, i + 1, m2, f2);
            }
        } else if crate::scanner::ray_applies(env, n) {
            let c = crate::scanner::ray_cand(env, n);
            let m2 = if c < m {
                c
            } else {
                m
            };
            let f2 = if c < m {
                n.1.flag
            } else {
                f
            };
            lemma_scan_ge_full(env, ns, i + 1, m2, f2);
        } else {
            lemma_scan_ge_full(env, ns, i + 1, m, f);
        }
    }
}

/// Scanner monotonicity: a neighbour in the front cone appended to the
/// neighbourhood never increases the reported front distance.
pub proof fn lemma_scan_append_monotone(
    env: ScanEnv,
    ns: Seq<(Vec2, crate::physics::PhysicsObject)>,
    n: (Vec2, crate::physics::PhysicsObject),
)
    requires
        cone_applies(env, n),
    ensures
        spec_front_scan(env, ns.push(n)).0 <= spec_front_scan(env, ns).0,
{
    lemma_scan_push_le(env, ns, n, 0, FRONT_DIST_CEILING as int, 0);
}

/// The inductive heart of the monotonicity law, over any start state.
proof fn lemma_scan_push_le(
    env: ScanEnv,
    ns: Seq<(Vec2, crate::physics::PhysicsObject)>,
    n: (Vec2, crate::physics::PhysicsObject),
    i: int,
    m: int,
    f: u64,
)
    requires
        cone_applies(env, n),
        0 <= i <= ns.len(),
    ensures
        scan_from(env, ns.push(n), i, m, f).0 <= scan_from(env, ns, i, m, f).0,
    decreases ns.len() - i,
{
    let long = ns.push(n);
    if i == ns.len() {
        // The original scan is done at m; the longer one folds `n` in.
        assert(scan_from(env, ns, i, m, f) == (m, f));
        assert(long[i] == n);
        let c = cone_cand(env, n);
        let m2 = if c < m {
            c
        } else {
            m
        };
        let f2 = if c < m {
            n.1.flag
        } else {
            f
        };
        if m2 < env.cutoff {
        } else {
            assert(scan_from(env, long, i + 1, m2, f2) == (m2, f2));
        }
    } else {
        assert(long[i] == ns[i]);
        let x = ns[i];
        if cone_applies(env, x) {
            let c = cone_cand(env, x);
            let m2 = if c < m {
                c
            } else {
                m
            };
            let f2 = if c < m {
                x.1.flag
            } else {
                f
            };
            if !(m2 < env.cutoff) {
                lemma_scan_push_le(env, ns, n, i + 1, m2, f2);
            }
        } else if crate::scanner::ray_applies(env, x) {
            let c = crate::scanner::ray_cand(env, x);
            let m2 = if c < m {
                c
            } else {
                m
            };
            let f2 = if c < m {
                x.1.flag
            } else {
                f
            };
            lemma_scan_push_le(env, ns, n, i + 1, m2, f2);
        } else {
            lemma_scan_push_le(env, ns, n, i + 1, m, f);
        }
    }
}

/// A point strictly inside an axis-aligned rectangle is contained under
/// the even-odd rule: of the rectangle's four edges, exactly the right
/// one crosses the rightward ray from the point.
pub proof fn lemma_rect_contains(pts: Seq<Vec2>, p: Vec2, w: i64, h: i64)
    requires
        pts.len() == 4,
        pts[0] == (Vec2 { x: 0i64, y: 0i64 }),
        pts[1] == (Vec2 { x: w, y: 0i64 }),
        pts[2] == (Vec2 { x: w, y: h }),
        pts[3] == (Vec2 { x: 0i64, y: h }),
        0 < p.x < w,
        0 < p.y < h,
    ensures
        spec_contains(pts, p),
{
    // The left edge straddles but crosses to the point's left.
    assert(!edge_crossing(pts, p, 0)) by {
        assert(p.x * h > 0) by (nonlinear_arith)
            requires
                p.x > 0,
                h > 0,
        ;
        assert(0int * (p.y - 0) * crate::polygon::sgn(h as int) == 0) by (nonlinear_arith);
    }
    // The bottom and top edges are horizontal: no straddle.
    assert(!edge_crossing(pts, p, 1));
    assert(!edge_crossing(pts, p, 3));
    // The right edge straddles and crosses to the point's right.
    assert(edge_crossing(pts, p, 2)) by {
        assert((p.x - w) * h < 0) by (nonlinear_arith)
            requires
                p.x < w,
                h > 0,
        ;
        assert(0int * (p.y - h) * crate::polygon::sgn(-h as int) == 0) by (nonlinear_arith);
    }
    assert(!crossings(pts, p, 0));
    assert(!crossings(pts, p, 1));
    assert(!crossings(pts, p, 2));
    assert(crossings(pts, p, 3));
    assert(crossings(pts, p, 4));
}

/// A point whose `y` coordinate clears every vertex of a polygon on the
/// same side is outside it: no boundary edge can straddle the horizontal
/// through the point, so the even-odd parity stays even.
pub proof fn lemma_contains_outside_y(pts: Seq<Vec2>, p: Vec2)
    requires
        (forall|i: int| 0 <= i < pts.len() ==> p.y < (#[trigger] pts[i]).y) || (forall|i: int|
            0 <= i < pts.len() ==> p.y > (#[trigger] pts[i]).y),
    ensures
        !spec_contains(pts, p),
{
    lemma_no_crossings_outside_y(pts, p, pts.len() as int);
}

/// A point strictly to the right of every vertex is outside: the even-odd
/// test casts its ray rightward, and the horizontal crossing of any
/// straddling edge lies between that edge's endpoints, to the point's
/// left.
pub proof fn lemma_contains_outside_x_right(pts: Seq<Vec2>, p: Vec2)
    requires
        forall|i: int| 0 <= i < pts.len() ==> p.x > (#[trigger] pts[i]).x,
        forall|i: int| 0 <= i < pts.len() ==> (#[trigger] pts[i]).in_world(),
        p.in_world(),
    ensures
        !spec_contains(pts, p),
{
    lemma_no_crossings_right(pts, p, pts.len() as int);
}

/// No prefix of the boundary accumulates a crossing for a point right of
/// every vertex.
proof fn lemma_no_crossings_right(pts: Seq<Vec2>, p: Vec2, k: int)
    requires
        k <= pts.len(),
        forall|i: int| 0 <= i < pts.len() ==> p.x > (#[trigger] pts[i]).x,
        forall|i: int| 0 <= i < pts.len() ==> (#[trigger] pts[i]).in_world(),
        p.in_world(),
    ensures
        !crossings(pts, p, k),
    decreases k,
{
    if k > 0 {
        lemma_no_crossings_right(pts, p, k - 1);
        let i = k - 1;
        let n = pts.len() as int;
        let vi = pts[i];
        let vj = pts[crate::polygon::prev_idx(n, i)];
        let offx = vj.x - vi.x;
        let offy = vj.y - vi.y;
        let vipx = p.x - vi.x;
        let vipy = p.y - vi.y;
        let vjpy = p.y - vj.y;
        if (vipy < 0) != (vjpy < 0) {
            // The edge straddles the horizontal through p, so offy != 0,
            // and the fraction of the way up sits in [0, |offy|).
            if vipy >= 0 {
                // yi <= p.y < yj: offy > 0, 0 <= vipy < offy.
                lemma_right_edge_no_crossing(offx, offy, vipx, vipy);
            } else {
                // yj <= p.y < yi: offy < 0, offy <= vipy < 0; mirror the
                // argument through negated y offsets.
                lemma_right_edge_no_crossing(offx, -offy, vipx, -vipy);
                assert(crate::polygon::sgn(offy) == -1);
                assert(offx * (-vipy) == offx * vipy * -1) by (nonlinear_arith);
            }
        }
        assert(!edge_crossing(pts, p, i));
    }
}

/// For a straddling edge with positive rise, a point beyond both
/// endpoints' x fails the rightward-crossing inequality.
proof fn lemma_right_edge_no_crossing(offx: int, offy: int, vipx: int, vipy: int)
    requires
        offy > 0,
        0 <= vipy <= offy,
        vipx >= 1,
        vipx > offx,
    ensures
        vipx * offy >= offx * vipy,
{
    if offx <= 0 {
        assert(offx * vipy <= 0) by (nonlinear_arith)
            requires
                offx <= 0,
                vipy >= 0,
        ;
        assert(vipx * offy > 0) by (nonlinear_arith)
            requires
                vipx >= 1,
                offy > 0,
        ;
    } else {
        assert(offx * vipy <= offx * offy) by (nonlinear_arith)
            requires
                offx > 0,
                vipy <= offy,
        ;
        assert(offx * offy < vipx * offy) by (nonlinear_arith)
            requires
                offx < vipx,
                offy > 0,
        ;
    }
}

/// No prefix of the boundary accumulates a crossing for such a point.
proof fn lemma_no_crossings_outside_y(pts: Seq<Vec2>, p: Vec2, k: int)
    requires
        k <= pts.len(),
        (forall|i: int| 0 <= i < pts.len() ==> p.y < (#[trigger] pts[i]).y) || (forall|i: int|
            0 <= i < pts.len() ==> p.y > (#[trigger] pts[i]).y),
    ensures
        !crossings(pts, p, k),
    decreases k,
{
    if k > 0 {
        lemma_no_crossings_outside_y(pts, p, k - 1);
        assert(!edge_crossing(pts, p, k - 1));
    }
}

} // verus!
