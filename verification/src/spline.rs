//! Cubic splines, used as the scripted path a vehicle follows into a
//! parking spot.  Progress runs in thousandths from 0 to 1000.

use vstd::prelude::*;

verus! {

use crate::num::{div_trunc, div_i64, UNIT};
use crate::v3::Vec3;

/// A cubic Hermite-style segment: endpoints and end derivatives.
#[derive(Clone, Copy, PartialEq, Eq, Structural, Debug)]
pub struct Spline {
    pub from: Vec3,
    pub to: Vec3,
    pub from_derivative: Vec3,
    pub to_derivative: Vec3,
}

/// One coordinate of the Bezier point at progress `t` (thousandths): the
/// cubic Bernstein combination of the endpoint and the two inner control
/// coordinates, divided by the weight total `UNIT^3`.
pub open spec fn spec_bezier_coord(p0: int, c1: int, c2: int, p3: int, t: int) -> int {
    let u = 1000 - t;
    div_trunc(u * u * u * p0 + 3 * (u * u * t) * c1 + 3 * (u * t * t) * c2 + t * t * t * p3,
        1_000_000_000)
}

/// One coordinate of the Bezier derivative direction at progress `t`:
/// the quadratic Bernstein combination of the control differences,
/// scaled down by the weight total `UNIT^2` (the constant factor 3 is
/// dropped, as only the direction is used).
pub open spec fn spec_bezier_deriv_coord(p0: int, c1: int, c2: int, p3: int, t: int) -> int {
    let u = 1000 - t;
    div_trunc(u * u * (c1 - p0) + 2 * (u * t) * (c2 - c1) + t * t * (p3 - c2), 1_000_000)
}

impl Spline {
    /// Endpoints in the world box, derivatives no longer than a world
    /// diameter.
    pub open spec fn wf(self) -> bool {
        &&& self.from.in_world()
    &&& self.to.in_world()
    &&& self.from_derivative.in_world()
    &&& self.to_derivative.in_world()
    }

    /// The first inner control coordinate: `from + from_derivative / 3`.
    pub open spec fn spec_c1(self) -> Vec3 {
        Vec3 {
            x: (self.from.x + div_trunc(self.from_derivative.x as int, 3)) as i64,
            y: (self.from.y + div_trunc(self.from_derivative.y as int, 3)) as i64,
            z: (self.from.z + div_trunc(self.from_derivative.z as int, 3)) as i64,
        }
    }

    /// The second inner control coordinate: `to - to_derivative / 3`.
    pub open spec fn spec_c2(self) -> Vec3 {
        Vec3 {
            x: (self.to.x - div_trunc(self.to_derivative.x as int, 3)) as i64,
            y: (self.to.y - div_trunc(self.to_derivative.y as int, 3)) as i64,
            z: (self.to.z - div_trunc(self.to_derivative.z as int, 3)) as i64,
        }
    }

    /// The point of the spline at progress `t` thousandths.
    pub open spec fn spec_get(self, t: int) -> Vec3 {
        let c1 = self.spec_c1();
        let c2 = self.spec_c2();
        Vec3 {
            x: spec_bezier_coord(self.from.x as int, c1.x as int, c2.x as int, self.to.x as int,
                t) as i64,
            y: spec_bezier_coord(self.from.y as int, c1.y as int, c2.y as int, self.to.y as int,
                t) as i64,
            z: spec_bezier_coord(self.from.z as int, c1.z as int, c2.z as int, self.to.z as int,
                t) as i64,
        }
    }

    /// The derivative direction of the spline at progress `t` thousandths.
    pub open spec fn spec_derivative(self, t: int) -> Vec3 {
        let c1 = self.spec_c1();
        let c2 = self.spec_c2();
        Vec3 {
            x: spec_bezier_deriv_coord(self.from.x as int, c1.x as int, c2.x as int,
                self.to.x as int, t) as i64,
            y: spec_bezier_deriv_coord(self.from.y as int, c1.y as int, c2.y as int,
                self.to.y as int, t) as i64,
            z: spec_bezier_deriv_coord(self.from.z as int, c1.z as int, c2.z as int,
                self.to.z as int, t) as i64,
        }
    }

    /// Evaluate the spline point at progress `t` thousandths.
    pub fn get(&self, t: i64) -> (r: Vec3)
        requires
            self.wf(),
            0 <= t <= 1000,
        ensures
            r == self.spec_get(t as int),
    {
        let c1 = self.c1();
        let c2 = self.c2();
        Vec3 {
            x: bezier_coord(self.from.x, c1.x, c2.x, self.to.x, t),
            y: bezier_coord(self.from.y, c1.y, c2.y, self.to.y, t),
            z: bezier_coord(self.from.z, c1.z, c2.z, self.to.z, t),
        }
    }

    /// Evaluate the spline derivative direction at progress `t` thousandths.
    pub fn derivative(&self, t: i64) -> (r: Vec3)
        requires
            self.wf(),
            0 <= t <= 1000,
        ensures
            r == self.spec_derivative(t as int),
    {
        let c1 = self.c1();
        let c2 = self.c2();
        Vec3 {
            x: bezier_deriv_coord(self.from.x, c1.x, c2.x, self.to.x, t),
            y: bezier_deriv_coord(self.from.y, c1.y, c2.y, self.to.y, t),
            z: bezier_deriv_coord(self.from.z, c1.z, c2.z, self.to.z, t),
        }
    }

    fn c1(&self) -> (r: Vec3)
        requires
            self.wf(),
        ensures
            r == self.spec_c1(),
            -134_000_000 <= r.x <= 134_000_000,
            -134_000_000 <= r.y <= 134_000_000,
            -134_000_000 <= r.z <= 134_000_000,
    {
        Vec3 {
            x: self.from.x + div_i64(self.from_derivative.x, 3),
            y: self.from.y + div_i64(self.from_derivative.y, 3),
            z: self.from.z + div_i64(self.from_derivative.z, 3),
        }
    }

    fn c2(&self) -> (r: Vec3)
        requires
            self.wf(),
        ensures
            r == self.spec_c2(),
            -134_000_000 <= r.x <= 134_000_000,
            -134_000_000 <= r.y <= 134_000_000,
            -134_000_000 <= r.z <= 134_000_000,
    {
        Vec3 {
            x: self.to.x - div_i64(self.to_derivative.x, 3),
            y: self.to.y - div_i64(self.to_derivative.y, 3),
            z: self.to.z - div_i64(self.to_derivative.z, 3),
        }
    }
}

/// Bound on a coordinate of an endpoint or inner control point.
const CTRL_MAX: i64 = 134_000_000;

/// Exec evaluation of one Bezier coordinate.
fn bezier_coord(p0: i64, c1: i64, c2: i64, p3: i64, t: i64) -> (r: i64)
    requires
        0 <= t <= 1000,
        -CTRL_MAX <= p0 <= CTRL_MAX,
        -CTRL_MAX <= c1 <= CTRL_MAX,
        -CTRL_MAX <= c2 <= CTRL_MAX,
        -CTRL_MAX <= p3 <= CTRL_MAX,
    ensures
        r == spec_bezier_coord(p0 as int, c1 as int, c2 as int, p3 as int, t as int),
{
    let u: i64 = 1000 - t;
    proof {
        lemma_bezier_weight_bounds(u as int, t as int);
        lemma_bezier_term_bound(u * u * u, p0 as int);
        lemma_bezier_term_bound(3 * (u * u * t), c1 as int);
        lemma_bezier_term_bound(3 * (u * t * t), c2 as int);
        lemma_bezier_term_bound(t * t * t, p3 as int);
    }
    let acc: i64 = u * u * u * p0 + 3 * (u * u * t) * c1 + 3 * (u * t * t) * c2 + t * t * t * p3;
    div_i64(acc, 1_000_000_000)
}

/// Exec evaluation of one Bezier derivative coordinate.
fn bezier_deriv_coord(p0: i64, c1: i64, c2: i64, p3: i64, t: i64) -> (r: i64)
    requires
        0 <= t <= 1000,
        -CTRL_MAX <= p0 <= CTRL_MAX,
        -CTRL_MAX <= c1 <= CTRL_MAX,
        -CTRL_MAX <= c2 <= CTRL_MAX,
        -CTRL_MAX <= p3 <= CTRL_MAX,
    ensures
        r == spec_bezier_deriv_coord(p0 as int, c1 as int, c2 as int, p3 as int, t as int),
{
    let u: i64 = 1000 - t;
    proof {
        lemma_bezier_weight_bounds(u as int, t as int);
        lemma_deriv_term_bound(u * u, c1 as int - p0 as int);
        lemma_deriv_term_bound(2 * (u * t), c2 as int - c1 as int);
        lemma_deriv_term_bound(t * t, p3 as int - c2 as int);
    }
    let acc: i64 = u * u * (c1 - p0) + 2 * (u * t) * (c2 - c1) + t * t * (p3 - c2);
    div_i64(acc, 1_000_000)
}

/// The Bernstein weights at `u + t == 1000` are bounded by the cubic and
/// quadratic weight totals.
proof fn lemma_bezier_weight_bounds(u: int, t: int)
    requires
        0 <= t <= 1000,
        u == 1000 - t,
    ensures
        0 <= u * u * u <= 1_000_000_000,
        0 <= 3 * (u * u * t) <= 3_000_000_000,
        0 <= 3 * (u * t * t) <= 3_000_000_000,
        0 <= t * t * t <= 1_000_000_000,
        0 <= u * u <= 1_000_000,
        0 <= 2 * (u * t) <= 2_000_000,
        0 <= t * t <= 1_000_000,
{
    assert(0 <= u * u * u <= 1_000_000_000 && 0 <= 3 * (u * u * t) <= 3_000_000_000 && 0 <= 3 * (u
        * t * t) <= 3_000_000_000 && 0 <= t * t * t <= 1_000_000_000 && 0 <= u * u <= 1_000_000 && 0
        <= 2 * (u * t) <= 2_000_000 && 0 <= t * t <= 1_000_000) by (nonlinear_arith)
        requires
            0 <= t <= 1000,
            u == 1000 - t,
    ;
}

/// A weight below the cubic total times a control coordinate fits well
/// inside an `i64`.
proof fn lemma_bezier_term_bound(w: int, c: int)
    requires
        0 <= w <= 3_000_000_000,
        -CTRL_MAX <= c <= CTRL_MAX,
    ensures
        -402_000_000_000_000_000 <= w * c <= 402_000_000_000_000_000,
{
    assert(-402_000_000_000_000_000 <= w * c <= 402_000_000_000_000_000) by (nonlinear_arith)
        requires
            0 <= w <= 3_000_000_000,
            -CTRL_MAX <= c <= CTRL_MAX,
            CTRL_MAX == 134_000_000,
    ;
}

/// A quadratic weight times a control difference fits well inside an `i64`.
proof fn lemma_deriv_term_bound(w: int, c: int)
    requires
        0 <= w <= 2_000_000,
        -268_000_000 <= c <= 268_000_000,
    ensures
        -536_000_000_000_000 <= w * c <= 536_000_000_000_000,
{
    assert(-536_000_000_000_000 <= w * c <= 536_000_000_000_000) by (nonlinear_arith)
        requires
            0 <= w <= 2_000_000,
            -268_000_000 <= c <= 268_000_000,
    ;
}

} // verus!
