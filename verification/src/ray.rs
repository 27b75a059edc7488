//! Half-line rays and their forward intersection, used to detect future
//! conflict points between two vehicles' headings.

use vstd::prelude::*;

verus! {

use crate::num::{div_trunc, div_i64, UNIT};
use crate::v2::{Vec2, sub_v, MAX_FIX, MAX_WORLD};

/// A direction vector at unit scale: produced by normalization, so each
/// component is well below twice `UNIT`.
pub open spec fn dir_scale_ok(v: Vec2) -> bool {
    -2 * UNIT <= v.x <= 2 * UNIT && -2 * UNIT <= v.y <= 2 * UNIT
}

/// A half-line: origin and direction (direction at unit scale).
#[derive(Clone, Copy, PartialEq, Eq, Structural, Debug)]
pub struct Ray {
    pub from: Vec2,
    pub dir: Vec2,
}

impl Ray {
    /// A well-formed ray: origin within twice the world box (origins are
    /// world points nudged by at most a body length), direction at unit
    /// scale.
    pub open spec fn wf(self) -> bool {
        self.from.in_box(2 * MAX_WORLD) && dir_scale_ok(self.dir)
    }

    /// Determinant of the two directions: zero exactly when parallel.
    pub open spec fn inter_div(self, r2: Ray) -> int {
        self.dir.spec_perp_dot(r2.dir)
    }

    /// Numerator of the parameter along `self`.
    pub open spec fn inter_t(self, r2: Ray) -> int {
        r2.dir.spec_perp_dot(sub_v(self.from, r2.from))
    }

    /// Numerator of the parameter along `r2`.
    pub open spec fn inter_s(self, r2: Ray) -> int {
        self.dir.spec_perp_dot(sub_v(self.from, r2.from))
    }

    /// The rays meet strictly ahead of both origins: both solved parameters
    /// of the 2x2 linear system are positive (stated sign-safely, without
    /// division).
    pub open spec fn has_forward_inter(self, r2: Ray) -> bool {
        self.inter_t(r2) * self.inter_div(r2) > 0 && self.inter_s(r2) * self.inter_div(r2) > 0
    }

    /// Distance in milli-units from `self.from` to the intersection point,
    /// rounded down.
    pub open spec fn spec_dist_to_inter(self, r2: Ray) -> int {
        div_trunc(abs_i(self.inter_t(r2)) * UNIT, abs_i(self.inter_div(r2)))
    }

    /// Distance in milli-units from `r2.from` to the intersection point,
    /// rounded down.
    pub open spec fn spec_dist_to_inter_other(self, r2: Ray) -> int {
        div_trunc(abs_i(self.inter_s(r2)) * UNIT, abs_i(self.inter_div(r2)))
    }

    pub fn new(from: Vec2, dir: Vec2) -> (r: Ray)
        ensures
            r.from == from,
            r.dir == dir,
    {
        Ray { from, dir }
    }

    /// Signed distances along `self` and along `r2` to their common point,
    /// or `None` when the rays are parallel or meet behind either origin.
    pub fn both_dist_to_inter(&self, r2: &Ray) -> (r: Option<(i64, i64)>)
        requires
            self.wf(),
            r2.wf(),
        ensures
            r is Some <==> self.has_forward_inter(*r2),
            r matches Some(p) ==> p.0 == self.spec_dist_to_inter(*r2) && p.1
                == self.spec_dist_to_inter_other(*r2) && p.0 >= 0 && p.1 >= 0,
    {
        proof {
            lemma_inter_bounds(*self, *r2);
        }
        let div = self.dir.perp_dot(r2.dir);
        let p_diff = self.from.sub(r2.from);
        let t = r2.dir.perp_dot(p_diff);
        let s = self.dir.perp_dot(p_diff);

        if (t > 0 && div > 0 || t < 0 && div < 0) && (s > 0 && div > 0 || s < 0 && div < 0) {
            proof {
                lemma_sign_products(t as int, s as int, div as int);
            }
            let ta = crate::num::iabs(t);
            let sa = crate::num::iabs(s);
            let da = crate::num::iabs(div);
            let d1 = div_i64(ta * UNIT, da);
            let d2 = div_i64(sa * UNIT, da);
            proof {
                lemma_div_trunc_nonneg(ta * UNIT, da as int);
            }
            Some((d1, d2))
        } else {
            proof {
                lemma_sign_products_none(t as int, s as int, div as int);
            }
            None
        }
    }

    /// The intersection point itself: the origin advanced by the solved
    /// distance along the direction.  Numerically extreme intersections
    /// (further than the `MAX_FIX` box) are treated as no interaction.
    pub fn intersection_point(&self, r2: &Ray) -> (r: Option<Vec2>)
        requires
            self.wf(),
            r2.wf(),
        ensures
            r is Some <==> self.has_forward_inter(*r2) && self.spec_dist_to_inter(*r2) <= MAX_FIX,
            r matches Some(p) ==> {
                let d1 = self.spec_dist_to_inter(*r2);
                &&& p.x == self.from.x + div_trunc(self.dir.x * d1, UNIT as int)
                &&& p.y == self.from.y + div_trunc(self.dir.y * d1, UNIT as int)
            },
    {
        match self.both_dist_to_inter(r2) {
            None => None,
            Some((d1, _)) => {
                if d1 > MAX_FIX {
                    return None;
                }
                proof {
                    lemma_step_bounds(self.dir, d1);
                }
                let step = self.dir.mul_len(d1);
                Some(self.from.add(step))
            },
        }
    }
}

/// Absolute value of a mathematical integer.
pub open spec fn abs_i(a: int) -> int {
    if a >= 0 {
        a
    } else {
        -a
    }
}

/// The numerators and determinant of the intersection system fit in an
/// `i64` with room for the `UNIT` scaling of the quotient.
proof fn lemma_inter_bounds(r1: Ray, r2: Ray)
    requires
        r1.wf(),
        r2.wf(),
    ensures
        abs_i(r1.inter_div(r2)) <= 8_000_000,
        abs_i(r1.inter_t(r2)) <= 1_600_000_000_000,
        abs_i(r1.inter_s(r2)) <= 1_600_000_000_000,
        abs_i(r1.inter_t(r2)) * UNIT <= 1_600_000_000_000_000_000,
        abs_i(r1.inter_s(r2)) * UNIT <= 1_600_000_000_000_000_000,
{
    let u = sub_v(r1.from, r2.from);
    assert(-400_000_000 <= u.x <= 400_000_000);
    assert(-400_000_000 <= u.y <= 400_000_000);
    assert(abs_i(r1.dir.x * r2.dir.y - r1.dir.y * r2.dir.x) <= 8_000_000) by (nonlinear_arith)
        requires
            -2000 <= r1.dir.x <= 2000,
            -2000 <= r1.dir.y <= 2000,
            -2000 <= r2.dir.x <= 2000,
            -2000 <= r2.dir.y <= 2000,
    ;
    assert(abs_i(r2.dir.x * u.y - r2.dir.y * u.x) <= 1_600_000_000_000) by (nonlinear_arith)
        requires
            -2000 <= r2.dir.x <= 2000,
            -2000 <= r2.dir.y <= 2000,
            -400_000_000 <= u.x <= 400_000_000,
            -400_000_000 <= u.y <= 400_000_000,
    ;
    assert(abs_i(r1.dir.x * u.y - r1.dir.y * u.x) <= 1_600_000_000_000) by (nonlinear_arith)
        requires
            -2000 <= r1.dir.x <= 2000,
            -2000 <= r1.dir.y <= 2000,
            -400_000_000 <= u.x <= 400_000_000,
            -400_000_000 <= u.y <= 400_000_000,
    ;
    assert(abs_i(r1.inter_t(r2)) * UNIT <= 1_600_000_000_000_000_000) by (nonlinear_arith)
        requires
            abs_i(r1.inter_t(r2)) <= 1_600_000_000_000,
            UNIT == 1000,
    ;
    assert(abs_i(r1.inter_s(r2)) * UNIT <= 1_600_000_000_000_000_000) by (nonlinear_arith)
        requires
            abs_i(r1.inter_s(r2)) <= 1_600_000_000_000,
            UNIT == 1000,
    ;
}

/// Matching signs mean positive products.
proof fn lemma_sign_products(t: int, s: int, div: int)
    requires
        (t > 0 && div > 0) || (t < 0 && div < 0),
        (s > 0 && div > 0) || (s < 0 && div < 0),
    ensures
        t * div > 0,
        s * div > 0,
{
    assert(t * div > 0) by (nonlinear_arith)
        requires
            (t > 0 && div > 0) || (t < 0 && div < 0),
    ;
    assert(s * div > 0) by (nonlinear_arith)
        requires
            (s > 0 && div > 0) || (s < 0 && div < 0),
    ;
}

/// Mismatched or zero signs mean a non-positive product.
proof fn lemma_sign_products_none(t: int, s: int, div: int)
    requires
        !((t > 0 && div > 0 || t < 0 && div < 0) && (s > 0 && div > 0 || s < 0 && div < 0)),
    ensures
        !(t * div > 0 && s * div > 0),
{
    if t * div > 0 && s * div > 0 {
        assert((t > 0 && div > 0) || (t < 0 && div < 0)) by (nonlinear_arith)
            requires
                t * div > 0,
        ;
        assert((s > 0 && div > 0) || (s < 0 && div < 0)) by (nonlinear_arith)
            requires
                s * div > 0,
        ;
    }
}

/// Truncating division of a non-negative value by a positive one is
/// non-negative.
proof fn lemma_div_trunc_nonneg(a: int, b: int)
    requires
        a >= 0,
        b > 0,
    ensures
        div_trunc(a, b) >= 0,
        div_trunc(a, b) <= a,
{
    assert(a / b >= 0) by (nonlinear_arith)
        requires
            a >= 0,
            b > 0,
    ;
    assert(a / b <= a) by (nonlinear_arith)
        requires
            a >= 0,
            b > 0,
    ;
}

/// The solved distance is at most `UNIT` times the numerator-determinant
/// quotient bound, so scaling the direction by it stays in range.
proof fn lemma_dist_bound(r1: Ray, r2: Ray)
    requires
        r1.wf(),
        r2.wf(),
        r1.has_forward_inter(r2),
    ensures
        0 <= r1.spec_dist_to_inter(r2) <= 1_600_000_000_000_000_000,
{
    lemma_inter_bounds(r1, r2);
    let ta = abs_i(r1.inter_t(r2));
    let da = abs_i(r1.inter_div(r2));
    assert(da >= 1) by {
        if r1.inter_div(r2) == 0 {
            assert(r1.inter_t(r2) * 0 == 0) by (nonlinear_arith);
        }
    }
    lemma_div_trunc_nonneg(ta * UNIT, da);
    assert(ta * UNIT >= 0) by (nonlinear_arith)
        requires
            ta >= 0,
    ;
}

/// A direction step scaled by an in-range distance stays addable to a
/// world origin.
proof fn lemma_step_bounds(d: Vec2, len: i64)
    requires
        dir_scale_ok(d),
        0 <= len <= MAX_FIX,
    ensures
        abs_i(div_trunc(d.x * len, UNIT as int)) <= 2 * (MAX_FIX as int),
        abs_i(div_trunc(d.y * len, UNIT as int)) <= 2 * (MAX_FIX as int),
{
    lemma_scaled_coord(d.x as int, len as int);
    lemma_scaled_coord(d.y as int, len as int);
}

/// One coordinate of such a step is bounded by twice `MAX_FIX`.
proof fn lemma_scaled_coord(c: int, len: int)
    requires
        -2000 <= c <= 2000,
        0 <= len <= MAX_FIX,
    ensures
        abs_i(div_trunc(c * len, UNIT as int)) <= 2 * (MAX_FIX as int),
{
    assert(abs_i(c * len) <= 2000 * (MAX_FIX as int)) by (nonlinear_arith)
        requires
            -2000 <= c <= 2000,
            0 <= len <= MAX_FIX,
    ;
    if c * len >= 0 {
        assert(c * len / (UNIT as int) <= 2000 * (MAX_FIX as int) / (UNIT as int))
            by (nonlinear_arith)
            requires
                0 <= c * len <= 2000 * (MAX_FIX as int),
                UNIT == 1000,
        ;
        assert(c * len / (UNIT as int) >= 0) by (nonlinear_arith)
            requires
                c * len >= 0,
                UNIT == 1000,
        ;
    } else {
        assert(-(c * len) / (UNIT as int) <= 2000 * (MAX_FIX as int) / (UNIT as int))
            by (nonlinear_arith)
            requires
                0 <= -(c * len) <= 2000 * (MAX_FIX as int),
                UNIT == 1000,
        ;
        assert(-(c * len) / (UNIT as int) >= 0) by (nonlinear_arith)
            requires
                -(c * len) >= 0,
                UNIT == 1000,
        ;
    }
    assert(2000 * (MAX_FIX as int) / (UNIT as int) == 2 * (MAX_FIX as int)) by (nonlinear_arith)
        requires
            UNIT == 1000,
            MAX_FIX == 1_000_000_000,
    ;
}

/// The raw algebra of the planar triple product, in one clean scope.
proof fn lemma_triple_product(ax: int, ay: int, bx: int, by: int, ux: int, uy: int)
    ensures
        (ax * by - ay * bx) * ux == bx * (ax * uy - ay * ux) - ax * (bx * uy - by * ux),
        (ax * by - ay * bx) * uy == by * (ax * uy - ay * ux) - ay * (bx * uy - by * ux),
{
    assert((ax * by - ay * bx) * ux == bx * (ax * uy - ay * ux) - ax * (bx * uy - by * ux))
        by (nonlinear_arith);
    assert((ax * by - ay * bx) * uy == by * (ax * uy - ay * ux) - ay * (bx * uy - by * ux))
        by (nonlinear_arith);
}

/// The planar triple-product identity behind ray intersection: for the
/// system solved by [`Ray::both_dist_to_inter`], the point reached from
/// either origin is the same.  Cleared of denominators it is exact: the
/// determinant times the origin offset equals the weighted difference of
/// the two directions.  Together with `has_forward_inter`, this is the
/// symmetry of the forward intersection: both parameters are positive and
/// name one common point.
pub proof fn lemma_ray_inter_symmetry(r1: Ray, r2: Ray)
    requires
        r1.wf(),
        r2.wf(),
    ensures
        r1.inter_div(r2) * (r1.from.x - r2.from.x) == r2.dir.x * r1.inter_s(r2) - r1.dir.x
            * r1.inter_t(r2),
        r1.inter_div(r2) * (r1.from.y - r2.from.y) == r2.dir.y * r1.inter_s(r2) - r1.dir.y
            * r1.inter_t(r2),
        r1.has_forward_inter(r2) ==> r1.spec_dist_to_inter(r2) >= 0
            && r1.spec_dist_to_inter_other(r2) >= 0,
{
    let ux = r1.from.x - r2.from.x;
    let uy = r1.from.y - r2.from.y;
    let ax = r1.dir.x as int;
    let ay = r1.dir.y as int;
    let bx = r2.dir.x as int;
    let by = r2.dir.y as int;
    lemma_triple_product(ax, ay, bx, by, ux, uy);
    assert(sub_v(r1.from, r2.from).x == ux && sub_v(r1.from, r2.from).y == uy);
    if r1.has_forward_inter(r2) {
        let t = r1.inter_t(r2);
        let s = r1.inter_s(r2);
        let d = r1.inter_div(r2);
        assert(d != 0) by {
            if d == 0 {
                assert(t * 0 == 0) by (nonlinear_arith);
            }
        }
        assert(abs_i(t) * UNIT >= 0) by (nonlinear_arith)
            requires
                abs_i(t) >= 0,
        ;
        assert(abs_i(s) * UNIT >= 0) by (nonlinear_arith)
            requires
                abs_i(s) >= 0,
        ;
        lemma_div_trunc_nonneg(abs_i(t) * UNIT, abs_i(d));
        lemma_div_trunc_nonneg(abs_i(s) * UNIT, abs_i(d));
    }
}

} // verus!
