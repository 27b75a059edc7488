//! Spatial vectors in milli-units: the plane of [`crate::v2::Vec2`] plus a
//! height coordinate, used for positions (grade separation) and headings.

use vstd::prelude::*;

verus! {

use crate::num::{div_trunc, sqrt_floor, div_i64, isqrt_i64, UNIT};
use crate::v2::{Vec2, MAX_FIX, MAX_WORLD};

/// A point or displacement of space, in milli-units.
#[derive(Clone, Copy, PartialEq, Eq, Structural, Debug, Hash)]
pub struct Vec3 {
    pub x: i64,
    pub y: i64,
    pub z: i64,
}

/// Short constructor, mirroring the struct literal.
pub fn vec3(x: i64, y: i64, z: i64) -> (r: Vec3)
    ensures
        r == (Vec3 { x, y, z }),
{
    Vec3 { x, y, z }
}

impl Vec3 {
    /// All coordinates lie in the box where products fit an `i64`.
    pub open spec fn ok(self) -> bool {
        &&& -MAX_FIX <= self.x <= MAX_FIX
    &&& -MAX_FIX <= self.y <= MAX_FIX
    &&& -MAX_FIX <= self.z <= MAX_FIX
    }

    /// All coordinates lie in the world box.
    pub open spec fn in_world(self) -> bool {
        &&& -MAX_WORLD <= self.x <= MAX_WORLD
    &&& -MAX_WORLD <= self.y <= MAX_WORLD
    &&& -MAX_WORLD <= self.z <= MAX_WORLD
    }

    /// All three coordinates are zero.
    pub open spec fn is_zero(self) -> bool {
        self.x == 0 && self.y == 0 && self.z == 0
    }

    /// Squared magnitude, as a mathematical integer.
    pub open spec fn spec_mag2(self) -> int {
        self.x * self.x + self.y * self.y + self.z * self.z
    }

    /// Magnitude rounded down to whole milli-units.
    pub open spec fn spec_mag(self) -> int {
        sqrt_floor(self.spec_mag2())
    }

    /// Dot product, as a mathematical integer.
    pub open spec fn spec_dot(self, o: Vec3) -> int {
        self.x * o.x + self.y * o.y + self.z * o.z
    }

    /// The normalized copy of `self`, assuming its magnitude is `m > 0`.
    pub open spec fn spec_normalized(self, m: int) -> Vec3 {
        Vec3 {
            x: div_trunc(self.x * UNIT, m) as i64,
            y: div_trunc(self.y * UNIT, m) as i64,
            z: div_trunc(self.z * UNIT, m) as i64,
        }
    }

    /// The zero vector.
    pub fn zero() -> (r: Vec3)
        ensures
            r == (Vec3 { x: 0i64, y: 0i64, z: 0i64 }),
    {
        Vec3 { x: 0, y: 0, z: 0 }
    }

    /// The planar part of `self`.
    pub fn xy(self) -> (r: Vec2)
        ensures
            r.x == self.x,
            r.y == self.y,
    {
        Vec2 { x: self.x, y: self.y }
    }

    /// Componentwise sum.
    pub fn add(self, o: Vec3) -> (r: Vec3)
        requires
            i64::MIN <= self.x + o.x <= i64::MAX,
            i64::MIN <= self.y + o.y <= i64::MAX,
            i64::MIN <= self.z + o.z <= i64::MAX,
        ensures
            r.x == self.x + o.x,
            r.y == self.y + o.y,
            r.z == self.z + o.z,
    {
        Vec3 { x: self.x + o.x, y: self.y + o.y, z: self.z + o.z }
    }

    /// Componentwise difference.
    pub fn sub(self, o: Vec3) -> (r: Vec3)
        requires
            i64::MIN <= self.x - o.x <= i64::MAX,
            i64::MIN <= self.y - o.y <= i64::MAX,
            i64::MIN <= self.z - o.z <= i64::MAX,
        ensures
            r.x == self.x - o.x,
            r.y == self.y - o.y,
            r.z == self.z - o.z,
    {
        Vec3 { x: self.x - o.x, y: self.y - o.y, z: self.z - o.z }
    }

    /// Dot product.
    pub fn dot(self, o: Vec3) -> (r: i64)
        requires
            self.ok(),
            o.ok(),
        ensures
            r == self.spec_dot(o),
    {
        proof {
            lemma_cube_bounds(self, o);
        }
        self.x * o.x + self.y * o.y + self.z * o.z
    }

    /// Squared magnitude.
    pub fn magnitude2(self) -> (r: i64)
        requires
            self.ok(),
        ensures
            r == self.spec_mag2(),
            r >= 0,
    {
        proof {
            lemma_cube_bounds(self, self);
            assert(self.x * self.x >= 0) by (nonlinear_arith);
            assert(self.y * self.y >= 0) by (nonlinear_arith);
            assert(self.z * self.z >= 0) by (nonlinear_arith);
        }
        self.x * self.x + self.y * self.y + self.z * self.z
    }

    /// Magnitude, rounded down to whole milli-units.
    pub fn magnitude(self) -> (r: i64)
        requires
            self.ok(),
        ensures
            r == self.spec_mag(),
            r >= 0,
            r * r <= self.spec_mag2() < (r + 1) * (r + 1),
    {
        let m2 = self.magnitude2();
        isqrt_i64(m2)
    }

    /// Squared distance to `rhs`.
    pub fn distance2(self, rhs: Vec3) -> (r: i64)
        requires
            self.in_world(),
            rhs.in_world(),
        ensures
            r == sub_v3(self, rhs).spec_mag2(),
            r >= 0,
    {
        let d = self.sub(rhs);
        d.magnitude2()
    }

    /// Distance to `rhs`, rounded down to whole milli-units.
    pub fn distance(self, rhs: Vec3) -> (r: i64)
        requires
            self.in_world(),
            rhs.in_world(),
        ensures
            r == sub_v3(self, rhs).spec_mag(),
            r >= 0,
    {
        let d = self.sub(rhs);
        d.magnitude()
    }

    /// Whether `rhs` is within `close_dist` of `self` (squared comparison,
    /// so the test is exact).
    pub fn is_close(self, rhs: Vec3, close_dist: i64) -> (r: bool)
        requires
            self.in_world(),
            rhs.in_world(),
            0 <= close_dist <= MAX_FIX,
        ensures
            r == (sub_v3(self, rhs).spec_mag2() <= close_dist * close_dist),
    {
        proof {
            assert(close_dist * close_dist <= MAX_FIX * MAX_FIX) by (nonlinear_arith)
                requires
                    0 <= close_dist <= MAX_FIX,
            ;
            assert(MAX_FIX * MAX_FIX < i64::MAX) by (nonlinear_arith);
        }
        self.distance2(rhs) <= close_dist * close_dist
    }

    /// Scale a direction vector to a length: `self * len / UNIT`, rounded
    /// toward zero componentwise.
    pub fn mul_len(self, len: i64) -> (r: Vec3)
        requires
            self.ok(),
            -MAX_FIX <= len <= MAX_FIX,
        ensures
            r.x == div_trunc(self.x * len, UNIT as int),
            r.y == div_trunc(self.y * len, UNIT as int),
            r.z == div_trunc(self.z * len, UNIT as int),
    {
        proof {
            lemma_mul_fix3(self.x as int, len as int);
            lemma_mul_fix3(self.y as int, len as int);
            lemma_mul_fix3(self.z as int, len as int);
        }
        Vec3 {
            x: div_i64(self.x * len, UNIT),
            y: div_i64(self.y * len, UNIT),
            z: div_i64(self.z * len, UNIT),
        }
    }

    /// The normalized copy of `self`, unless its magnitude rounds down to
    /// zero (the fixed-point analogue of an epsilon guard).
    pub fn try_normalize(self) -> (r: Option<Vec3>)
        requires
            self.ok(),
        ensures
            r is None ==> self.is_zero(),
            r is Some ==> !self.is_zero() && self.spec_mag() > 0,
            r matches Some(d) ==> d == self.spec_normalized(self.spec_mag()),
    {
        let m = self.magnitude();
        if m <= 0 {
            proof {
                assert(self.spec_mag2() >= 0) by (nonlinear_arith);
                crate::num::lemma_sqrt_floor(self.spec_mag2());
                let s = self.spec_mag();
                assert(s == 0);
                assert((s + 1) * (s + 1) == 1) by (nonlinear_arith)
                    requires
                        s == 0,
                ;
                if self.x != 0 || self.y != 0 || self.z != 0 {
                    assert(self.spec_mag2() >= 1) by (nonlinear_arith)
                        requires
                            self.x != 0 || self.y != 0 || self.z != 0,
                    ;
                }
            }
            None
        } else {
            proof {
                lemma_cube_bounds(self, self);
                lemma_mul_fix3(self.x as int, UNIT as int);
                lemma_mul_fix3(self.y as int, UNIT as int);
                lemma_mul_fix3(self.z as int, UNIT as int);
                assert(m * m >= 1) by (nonlinear_arith)
                    requires
                        m >= 1,
                ;
                if self.is_zero() {
                    assert(self.spec_mag2() == 0) by (nonlinear_arith)
                        requires
                            self.x == 0,
                            self.y == 0,
                            self.z == 0,
                    ;
                }
            }
            Some(
                Vec3 {
                    x: div_i64(self.x * UNIT, m),
                    y: div_i64(self.y * UNIT, m),
                    z: div_i64(self.z * UNIT, m),
                },
            )
        }
    }

    /// Normalized copy of a vector the caller knows is non-zero.
    pub fn normalize(self) -> (r: Vec3)
        requires
            self.ok(),
            !self.is_zero(),
        ensures
            r == self.spec_normalized(self.spec_mag()),
            self.spec_mag() > 0,
    {
        match self.try_normalize() {
            Some(d) => d,
            None => Vec3 { x: 0, y: 0, z: 0 },
        }
    }
}

/// The magnitude of a vector is at least the absolute value of any one of
/// its coordinates, so normalization scales each coordinate into
/// `[-UNIT, UNIT]`.
pub proof fn lemma_normalized_in_unit_box3(v: Vec3)
    requires
        v.ok(),
        v.spec_mag() >= 1,
    ensures
        -UNIT <= v.spec_normalized(v.spec_mag()).x <= UNIT,
        -UNIT <= v.spec_normalized(v.spec_mag()).y <= UNIT,
        -UNIT <= v.spec_normalized(v.spec_mag()).z <= UNIT,
{
    let m = v.spec_mag();
    assert(v.spec_mag2() >= 0) by (nonlinear_arith);
    crate::num::lemma_sqrt_floor(v.spec_mag2());
    lemma_coord_le_mag3(v.x as int, v.y as int, v.z as int, m);
    lemma_coord_le_mag3(v.y as int, v.x as int, v.z as int, m);
    lemma_coord_le_mag3(v.z as int, v.x as int, v.y as int, m);
    assert(v.x * v.x + v.y * v.y + v.z * v.z == v.y * v.y + v.x * v.x + v.z * v.z
        && v.x * v.x + v.y * v.y + v.z * v.z == v.z * v.z + v.x * v.x + v.y * v.y)
        by (nonlinear_arith);
    lemma_norm_coord_box3(v.x as int, m);
    lemma_norm_coord_box3(v.y as int, m);
    lemma_norm_coord_box3(v.z as int, m);
}

/// If `m` is the floor magnitude of `(c, d, e)` then `|c| <= m`.
proof fn lemma_coord_le_mag3(c: int, d: int, e: int, m: int)
    requires
        m >= 0,
        m * m <= c * c + d * d + e * e,
        c * c + d * d + e * e < (m + 1) * (m + 1),
    ensures
        c >= 0 ==> c <= m,
        c < 0 ==> -c <= m,
{
    if (c >= 0 && c > m) || (c < 0 && -c > m) {
        assert((m + 1) * (m + 1) <= c * c + d * d + e * e) by (nonlinear_arith)
            requires
                (c >= m + 1) || (-c >= m + 1),
                m >= 0,
        ;
    }
}

/// Scaling a coordinate no larger than the magnitude lands in the unit box.
proof fn lemma_norm_coord_box3(c: int, m: int)
    requires
        m >= 1,
        c >= 0 ==> c <= m,
        c < 0 ==> -c <= m,
    ensures
        -UNIT <= div_trunc(c * UNIT, m) <= UNIT,
{
    if c >= 0 {
        assert(c * UNIT <= m * UNIT) by (nonlinear_arith)
            requires
                c <= m,
                UNIT > 0,
        ;
        assert(c * UNIT / m <= UNIT && c * UNIT / m >= 0) by (nonlinear_arith)
            requires
                0 <= c * UNIT <= m * UNIT,
                m >= 1,
                UNIT > 0,
        ;
    } else {
        assert(-(c * UNIT) <= m * UNIT) by (nonlinear_arith)
            requires
                -c <= m,
                UNIT > 0,
        ;
        assert(-(c * UNIT) / m <= UNIT && -(c * UNIT) / m >= 0) by (nonlinear_arith)
            requires
                0 <= -(c * UNIT) <= m * UNIT,
                m >= 1,
                UNIT > 0,
        ;
    }
}

/// Spec-level componentwise difference.
pub open spec fn sub_v3(a: Vec3, b: Vec3) -> Vec3 {
    Vec3 { x: (a.x - b.x) as i64, y: (a.y - b.y) as i64, z: (a.z - b.z) as i64 }
}

/// Spec-level componentwise sum.
pub open spec fn add_v3(a: Vec3, b: Vec3) -> Vec3 {
    Vec3 { x: (a.x + b.x) as i64, y: (a.y + b.y) as i64, z: (a.z + b.z) as i64 }
}

/// Products of coordinates of two `ok` vectors fit comfortably in an `i64`.
proof fn lemma_cube_bounds(a: Vec3, b: Vec3)
    requires
        a.ok(),
        b.ok(),
    ensures
        -(MAX_FIX * MAX_FIX) <= a.x * b.x <= MAX_FIX * MAX_FIX,
        -(MAX_FIX * MAX_FIX) <= a.y * b.y <= MAX_FIX * MAX_FIX,
        -(MAX_FIX * MAX_FIX) <= a.z * b.z <= MAX_FIX * MAX_FIX,
        3 * (MAX_FIX * MAX_FIX) < i64::MAX,
{
    lemma_mul_fix3(a.x as int, b.x as int);
    lemma_mul_fix3(a.y as int, b.y as int);
    lemma_mul_fix3(a.z as int, b.z as int);
}

/// A product of two values in the `MAX_FIX` box fits an `i64`.
proof fn lemma_mul_fix3(p: int, q: int)
    requires
        -MAX_FIX <= p <= MAX_FIX,
        -MAX_FIX <= q <= MAX_FIX,
    ensures
        -(MAX_FIX * MAX_FIX) <= p * q <= MAX_FIX * MAX_FIX,
        3 * (MAX_FIX * MAX_FIX) < i64::MAX,
{
    assert(-(MAX_FIX * MAX_FIX) <= p * q <= MAX_FIX * MAX_FIX) by (nonlinear_arith)
        requires
            -MAX_FIX <= p <= MAX_FIX,
            -MAX_FIX <= q <= MAX_FIX,
    ;
}

} // verus!
