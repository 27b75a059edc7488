//! Planar vectors in milli-units.
//!
//! A direction ("unit") vector is one produced by [`Vec2::try_normalize`] or
//! [`Vec2::dir_dist`]: its magnitude is within a few milli of [`crate::num::UNIT`].

use vstd::prelude::*;

verus! {

use crate::num::{div_trunc, sqrt_floor, div_i64, isqrt_i64, UNIT};

/// Largest coordinate any geometric operation accepts, in milli-units.
/// Squares and dot products of vectors inside this box fit an `i64`.
pub const MAX_FIX: i64 = 1_000_000_000;

/// Largest world coordinate, in milli-units (a 100 km square world).
/// Sums and differences of a few world coordinates stay below `MAX_FIX`.
pub const MAX_WORLD: i64 = 100_000_000;

/// A point or displacement of the plane, in milli-units.
#[derive(Clone, Copy, PartialEq, Eq, Structural, Debug, Hash)]
pub struct Vec2 {
    pub x: i64,
    pub y: i64,
}

/// Short constructor, mirroring the struct literal.
pub fn vec2(x: i64, y: i64) -> (r: Vec2)
    ensures
        r == (Vec2 { x, y }),
{
    Vec2 { x, y }
}

impl Vec2 {
    /// Both coordinates lie in the box where products fit an `i64`.
    pub open spec fn ok(self) -> bool {
        -MAX_FIX <= self.x <= MAX_FIX && -MAX_FIX <= self.y <= MAX_FIX
    }

    /// The zero vector's predicate: both coordinates are zero.
    pub open spec fn is_zero(self) -> bool {
        self.x == 0 && self.y == 0
    }

    /// Both coordinates lie in the world box.
    pub open spec fn in_world(self) -> bool {
        -MAX_WORLD <= self.x <= MAX_WORLD && -MAX_WORLD <= self.y <= MAX_WORLD
    }

    /// Both coordinates lie within `b` of zero.
    pub open spec fn in_box(self, b: int) -> bool {
        -b <= self.x <= b && -b <= self.y <= b
    }

    /// Squared magnitude, as a mathematical integer.
    pub open spec fn spec_mag2(self) -> int {
        self.x * self.x + self.y * self.y
    }

    /// Magnitude rounded down to whole milli-units.
    pub open spec fn spec_mag(self) -> int {
        sqrt_floor(self.spec_mag2())
    }

    /// Dot product, as a mathematical integer.
    pub open spec fn spec_dot(self, o: Vec2) -> int {
        self.x * o.x + self.y * o.y
    }

    /// Perpendicular dot product (z-component of the cross product).
    pub open spec fn spec_perp_dot(self, o: Vec2) -> int {
        self.x * o.y - self.y * o.x
    }

    /// The copy of `self` rotated by the angle whose cosine and sine
    /// `cossin` holds (a direction vector at scale `UNIT`): the complex
    /// product, scaled back down by `UNIT`.
    pub open spec fn spec_rotated(self, cossin: Vec2) -> Vec2 {
        Vec2 {
            x: div_trunc(self.x * cossin.x - self.y * cossin.y, UNIT as int) as i64,
            y: div_trunc(self.x * cossin.y + self.y * cossin.x, UNIT as int) as i64,
        }
    }

    /// The normalized copy of `self`, assuming its magnitude is `m > 0`:
    /// each coordinate is scaled to `UNIT / m` of itself, rounded toward zero.
    pub open spec fn spec_normalized(self, m: int) -> Vec2 {
        Vec2 { x: div_trunc(self.x * UNIT, m) as i64, y: div_trunc(self.y * UNIT, m) as i64 }
    }

    /// The zero vector.
    pub fn zero() -> (r: Vec2)
        ensures
            r == (Vec2 { x: 0i64, y: 0i64 }),
    {
        Vec2 { x: 0, y: 0 }
    }

    /// Componentwise sum.
    pub fn add(self, o: Vec2) -> (r: Vec2)
        requires
            self.x + o.x <= i64::MAX,
            self.x + o.x >= i64::MIN,
            self.y + o.y <= i64::MAX,
            self.y + o.y >= i64::MIN,
        ensures
            r.x == self.x + o.x,
            r.y == self.y + o.y,
    {
        Vec2 { x: self.x + o.x, y: self.y + o.y }
    }

    /// Componentwise difference.
    pub fn sub(self, o: Vec2) -> (r: Vec2)
        requires
            self.x - o.x <= i64::MAX,
            self.x - o.x >= i64::MIN,
            self.y - o.y <= i64::MAX,
            self.y - o.y >= i64::MIN,
        ensures
            r.x == self.x - o.x,
            r.y == self.y - o.y,
    {
        Vec2 { x: self.x - o.x, y: self.y - o.y }
    }

    /// Componentwise negation.
    pub fn neg(self) -> (r: Vec2)
        requires
            self.x > i64::MIN,
            self.y > i64::MIN,
        ensures
            r.x == -self.x,
            r.y == -self.y,
    {
        Vec2 { x: -self.x, y: -self.y }
    }

    /// Rotation by a quarter turn clockwise.
    pub fn perpendicular(self) -> (r: Vec2)
        requires
            self.x > i64::MIN,
        ensures
            r.x == self.y,
            r.y == -self.x,
    {
        Vec2 { x: self.y, y: -self.x }
    }

    /// Dot product.
    pub fn dot(self, o: Vec2) -> (r: i64)
        requires
            self.ok(),
            o.ok(),
        ensures
            r == self.spec_dot(o),
    {
        proof {
            lemma_quad_bounds(self, o);
        }
        self.x * o.x + self.y * o.y
    }

    /// Perpendicular dot product: `self.dot(o.perpendicular())` up to sign
    /// convention, the determinant of the pair.
    pub fn perp_dot(self, o: Vec2) -> (r: i64)
        requires
            self.ok(),
            o.ok(),
        ensures
            r == self.spec_perp_dot(o),
    {
        proof {
            lemma_quad_bounds(self, o);
        }
        self.x * o.y - self.y * o.x
    }

    /// Squared magnitude.
    pub fn magnitude2(self) -> (r: i64)
        requires
            self.ok(),
        ensures
            r == self.spec_mag2(),
            r >= 0,
    {
        proof {
            lemma_quad_bounds(self, self);
            assert(self.x * self.x >= 0) by (nonlinear_arith);
            assert(self.y * self.y >= 0) by (nonlinear_arith);
        }
        self.x * self.x + self.y * self.y
    }

    /// Magnitude, rounded down to whole milli-units.
    pub fn magnitude(self) -> (r: i64)
        requires
            self.ok(),
        ensures
            r == self.spec_mag(),
            r >= 0,
            r * r <= self.spec_mag2() < (r + 1) * (r + 1),
    {
        let m2 = self.magnitude2();
        isqrt_i64(m2)
    }

    /// Squared distance to `rhs`.
    pub fn distance2(self, rhs: Vec2) -> (r: i64)
        requires
            self.in_world(),
            rhs.in_world(),
        ensures
            r == sub_v(self, rhs).spec_mag2(),
            r >= 0,
    {
        let d = self.sub(rhs);
        d.magnitude2()
    }

    /// Distance to `rhs`, rounded down to whole milli-units.
    pub fn distance(self, rhs: Vec2) -> (r: i64)
        requires
            self.in_world(),
            rhs.in_world(),
        ensures
            r == sub_v(self, rhs).spec_mag(),
            r >= 0,
    {
        let d = self.sub(rhs);
        d.magnitude()
    }

    /// Whether `rhs` is within `close_dist` of `self` (squared comparison,
    /// so the test is exact).
    pub fn is_close(self, rhs: Vec2, close_dist: i64) -> (r: bool)
        requires
            self.in_world(),
            rhs.in_world(),
            0 <= close_dist <= MAX_FIX,
        ensures
            r == (sub_v(self, rhs).spec_mag2() <= close_dist * close_dist),
    {
        proof {
            assert(close_dist * close_dist <= MAX_FIX * MAX_FIX) by (nonlinear_arith)
                requires
                    0 <= close_dist <= MAX_FIX,
            ;
        }
        self.distance2(rhs) <= close_dist * close_dist
    }

    /// Scale a direction vector to a length: `self * len / UNIT`, rounded
    /// toward zero componentwise.
    pub fn mul_len(self, len: i64) -> (r: Vec2)
        requires
            self.ok(),
            -MAX_FIX <= len <= MAX_FIX,
        ensures
            r.x == div_trunc(self.x * len, UNIT as int),
            r.y == div_trunc(self.y * len, UNIT as int),
    {
        proof {
            lemma_mul_fix_bound(self.x as int, len as int);
            lemma_mul_fix_bound(self.y as int, len as int);
        }
        Vec2 { x: div_i64(self.x * len, UNIT), y: div_i64(self.y * len, UNIT) }
    }

    /// Direction and distance to the origin of `self`, unless it is zero.
    /// The direction has magnitude within truncation error of `UNIT`.
    pub fn dir_dist(self) -> (r: Option<(Vec2, i64)>)
        requires
            self.ok(),
        ensures
            r is None ==> self.is_zero(),
            r is Some ==> !self.is_zero(),
            r matches Some(p) ==> p.1 == self.spec_mag() && p.1 > 0 && p.0
                == self.spec_normalized(p.1 as int),
    {
        let m = self.magnitude();
        if m <= 0 {
            proof {
                lemma_mag_zero(self);
            }
            None
        } else {
            proof {
                lemma_quad_bounds(self, self);
                lemma_mul_fix_bound(self.x as int, UNIT as int);
                lemma_mul_fix_bound(self.y as int, UNIT as int);
                assert(m * m >= 1) by (nonlinear_arith)
                    requires
                        m >= 1,
                ;
                assert(self.spec_mag2() >= 1);
                if self.is_zero() {
                    assert(self.spec_mag2() == 0) by (nonlinear_arith)
                        requires
                            self.x == 0,
                            self.y == 0,
                    ;
                }
                assert(!self.is_zero());
            }
            Some((Vec2 { x: div_i64(self.x * UNIT, m), y: div_i64(self.y * UNIT, m) }, m))
        }
    }

    /// The normalized copy of `self`, unless its magnitude rounds down to
    /// zero (the fixed-point analogue of an epsilon guard).
    pub fn try_normalize(self) -> (r: Option<Vec2>)
        requires
            self.ok(),
        ensures
            r is None ==> self.is_zero(),
            r is Some ==> !self.is_zero(),
            r matches Some(d) ==> d == self.spec_normalized(self.spec_mag()),
    {
        match self.dir_dist() {
            None => None,
            Some((d, _)) => Some(d),
        }
    }

    /// Normalized copy of a vector the caller knows is non-zero.
    pub fn normalize(self) -> (r: Vec2)
        requires
            self.ok(),
            !self.is_zero(),
        ensures
            r == self.spec_normalized(self.spec_mag()),
            self.spec_mag() > 0,
    {
        match self.dir_dist() {
            Some((d, _)) => d,
            None => {
                // Unreachable: a non-zero vector has positive magnitude.
                Vec2 { x: 0, y: 0 }
            },
        }
    }

    /// Both coordinates set to the same value.
    pub fn splat(v: i64) -> (r: Vec2)
        ensures
            r.x == v,
            r.y == v,
    {
        Vec2 { x: v, y: v }
    }

    /// Mirror across the x axis.
    pub fn flipy(self) -> (r: Vec2)
        requires
            self.y > i64::MIN,
        ensures
            r.x == self.x,
            r.y == -self.y,
    {
        Vec2 { x: self.x, y: -self.y }
    }

    /// Mirror across the y axis.
    pub fn flipx(self) -> (r: Vec2)
        requires
            self.x > i64::MIN,
        ensures
            r.x == -self.x,
            r.y == self.y,
    {
        Vec2 { x: -self.x, y: self.y }
    }

    /// Componentwise sign: `-1`, `0` or `1` per coordinate.
    pub fn sign(self) -> (r: Vec2)
        ensures
            r.x == crate::polygon::sgn(self.x as int),
            r.y == crate::polygon::sgn(self.y as int),
    {
        let sx: i64 = if self.x > 0 {
            1
        } else if self.x < 0 {
            -1
        } else {
            0
        };
        let sy: i64 = if self.y > 0 {
            1
        } else if self.y < 0 {
            -1
        } else {
            0
        };
        Vec2 { x: sx, y: sy }
    }

    /// The componentwise smaller of two vectors.
    pub fn min(self, other: Vec2) -> (r: Vec2)
        ensures
            r.x == if self.x <= other.x {
                self.x
            } else {
                other.x
            },
            r.y == if self.y <= other.y {
                self.y
            } else {
                other.y
            },
    {
        Vec2 { x: crate::num::imin(self.x, other.x), y: crate::num::imin(self.y, other.y) }
    }

    /// The componentwise larger of two vectors.
    pub fn max(self, other: Vec2) -> (r: Vec2)
        ensures
            r.x == if self.x >= other.x {
                self.x
            } else {
                other.x
            },
            r.y == if self.y >= other.y {
                self.y
            } else {
                other.y
            },
    {
        Vec2 { x: crate::num::imax(self.x, other.x), y: crate::num::imax(self.y, other.y) }
    }

    /// Interpolate from `self` toward `other` by `coeff` thousandths,
    /// rounded toward `self` componentwise.
    pub fn lerp(self, other: Vec2, coeff: i64) -> (r: Vec2)
        requires
            self.in_world(),
            other.in_world(),
            0 <= coeff <= UNIT,
        ensures
            r.x == self.x + div_trunc((other.x - self.x) * coeff, UNIT as int),
            r.y == self.y + div_trunc((other.y - self.y) * coeff, UNIT as int),
    {
        let d = other.sub(self);
        proof {
            lemma_lerp_step(d.x as int, coeff as int);
            lemma_lerp_step(d.y as int, coeff as int);
        }
        Vec2 { x: self.x + div_i64(d.x * coeff, UNIT), y: self.y + div_i64(d.y * coeff, UNIT) }
    }

    /// Shrink the vector onto the disc of radius `max`, when it sticks
    /// out of it; shorter vectors pass through unchanged.
    pub fn cap_magnitude(self, max: i64) -> (r: Vec2)
        requires
            self.in_world(),
            0 <= max <= MAX_WORLD,
        ensures
            self.spec_mag() <= max ==> r == self,
            self.spec_mag() > max ==> {
                let m = self.spec_mag();
                r.x == div_trunc(self.x * max, m) && r.y == div_trunc(self.y * max, m)
            },
    {
        let m = self.magnitude();
        if m <= max {
            self
        } else {
            proof {
                lemma_mul_fix_bound(self.x as int, max as int);
                lemma_mul_fix_bound(self.y as int, max as int);
            }
            Vec2 { x: div_i64(self.x * max, m), y: div_i64(self.y * max, m) }
        }
    }

    /// Scale the vector so its magnitude is close to `len`, unless it is
    /// zero (then no direction exists to scale along).
    pub fn try_normalize_to(self, len: i64) -> (r: Option<Vec2>)
        requires
            self.in_world(),
            0 <= len <= MAX_WORLD,
        ensures
            r is None ==> self.is_zero(),
            r matches Some(s) ==> {
                let m = self.spec_mag();
                &&& !self.is_zero()
                &&& m > 0
                &&& s.x == div_trunc(self.x * len, m)
                &&& s.y == div_trunc(self.y * len, m)
            },
    {
        let m = self.magnitude();
        if m <= 0 {
            proof {
                lemma_mag_zero(self);
            }
            None
        } else {
            proof {
                lemma_mul_fix_bound(self.x as int, len as int);
                lemma_mul_fix_bound(self.y as int, len as int);
                if self.is_zero() {
                    assert(self.spec_mag2() == 0) by (nonlinear_arith)
                        requires
                            self.x == 0,
                            self.y == 0,
                    ;
                    assert(self.spec_mag2() >= 0) by (nonlinear_arith);
                    crate::num::lemma_sqrt_floor(self.spec_mag2());
                    assert((0int + 1) * (0int + 1) == 1) by (nonlinear_arith);
                }
            }
            Some(Vec2 { x: div_i64(self.x * len, m), y: div_i64(self.y * len, m) })
        }
    }

    /// Rotation by the angle whose cosine and sine `cossin` holds
    /// (a direction vector at scale `UNIT`).
    pub fn rotated_by(self, cossin: Vec2) -> (r: Vec2)
        requires
            self.ok(),
            cossin.ok(),
        ensures
            r == self.spec_rotated(cossin),
            r.x == div_trunc(self.x * cossin.x - self.y * cossin.y, UNIT as int),
            r.y == div_trunc(self.x * cossin.y + self.y * cossin.x, UNIT as int),
    {
        proof {
            lemma_quad_bounds(self, cossin);
        }
        Vec2 { x: div_i64(self.x * cossin.x - self.y * cossin.y, UNIT), y: div_i64(
            self.x * cossin.y + self.y * cossin.x,
            UNIT,
        ) }
    }
}

/// Spec-level componentwise difference.
pub open spec fn sub_v(a: Vec2, b: Vec2) -> Vec2 {
    Vec2 { x: (a.x - b.x) as i64, y: (a.y - b.y) as i64 }
}

/// Spec-level componentwise sum.
pub open spec fn add_v(a: Vec2, b: Vec2) -> Vec2 {
    Vec2 { x: (a.x + b.x) as i64, y: (a.y + b.y) as i64 }
}

/// Products of coordinates of two `ok` vectors fit comfortably in an `i64`.
proof fn lemma_quad_bounds(a: Vec2, b: Vec2)
    requires
        a.ok(),
        b.ok(),
    ensures
        -(MAX_FIX * MAX_FIX) <= a.x * b.x <= MAX_FIX * MAX_FIX,
        -(MAX_FIX * MAX_FIX) <= a.x * b.y <= MAX_FIX * MAX_FIX,
        -(MAX_FIX * MAX_FIX) <= a.y * b.x <= MAX_FIX * MAX_FIX,
        -(MAX_FIX * MAX_FIX) <= a.y * b.y <= MAX_FIX * MAX_FIX,
        2 * (MAX_FIX * MAX_FIX) < i64::MAX,
{
    lemma_mul_fix_bound(a.x as int, b.x as int);
    lemma_mul_fix_bound(a.x as int, b.y as int);
    lemma_mul_fix_bound(a.y as int, b.x as int);
    lemma_mul_fix_bound(a.y as int, b.y as int);
}

/// A product of two values in the `MAX_FIX` box fits an `i64`.
proof fn lemma_mul_fix_bound(p: int, q: int)
    requires
        -MAX_FIX <= p <= MAX_FIX,
        -MAX_FIX <= q <= MAX_FIX,
    ensures
        -(MAX_FIX * MAX_FIX) <= p * q <= MAX_FIX * MAX_FIX,
        MAX_FIX * MAX_FIX < i64::MAX,
{
    assert(-(MAX_FIX * MAX_FIX) <= p * q <= MAX_FIX * MAX_FIX) by (nonlinear_arith)
        requires
            -MAX_FIX <= p <= MAX_FIX,
            -MAX_FIX <= q <= MAX_FIX,
    ;
}

/// The magnitude of a vector is at least the absolute value of either of
/// its coordinates, so normalization scales each coordinate into
/// `[-UNIT, UNIT]`.
pub proof fn lemma_normalized_in_unit_box(v: Vec2)
    requires
        v.ok(),
        v.spec_mag() >= 1,
    ensures
        v.spec_mag() >= abs_c(v.x as int),
        v.spec_mag() >= abs_c(v.y as int),
        -UNIT <= v.spec_normalized(v.spec_mag()).x <= UNIT,
        -UNIT <= v.spec_normalized(v.spec_mag()).y <= UNIT,
{
    let m = v.spec_mag();
    assert(v.spec_mag2() >= 0) by (nonlinear_arith);
    crate::num::lemma_sqrt_floor(v.spec_mag2());
    lemma_coord_le_mag(v.x as int, v.y as int, m);
    lemma_coord_le_mag(v.y as int, v.x as int, m);
    assert(v.x * v.x + v.y * v.y == v.y * v.y + v.x * v.x) by (nonlinear_arith);
    lemma_norm_coord_box(v.x as int, m);
    lemma_norm_coord_box(v.y as int, m);
}

/// If `m` is the floor magnitude of `(c, d)` then `|c| <= m`.
proof fn lemma_coord_le_mag(c: int, d: int, m: int)
    requires
        m >= 0,
        m * m <= c * c + d * d,
        c * c + d * d < (m + 1) * (m + 1),
    ensures
        abs_c(c) <= m,
{
    if abs_c(c) > m {
        assert((m + 1) * (m + 1) <= c * c + d * d) by (nonlinear_arith)
            requires
                abs_c(c) >= m + 1,
                m >= 0,
        ;
    }
}

/// Scaling a coordinate no larger than the magnitude lands in the unit box.
proof fn lemma_norm_coord_box(c: int, m: int)
    requires
        m >= 1,
        abs_c(c) <= m,
    ensures
        -UNIT <= div_trunc(c * UNIT, m) <= UNIT,
{
    if c >= 0 {
        assert(c * UNIT <= m * UNIT) by (nonlinear_arith)
            requires
                c <= m,
                UNIT > 0,
        ;
        assert(c * UNIT / m <= UNIT && c * UNIT / m >= 0) by (nonlinear_arith)
            requires
                0 <= c * UNIT <= m * UNIT,
                m >= 1,
                UNIT > 0,
        ;
    } else {
        assert(-(c * UNIT) <= m * UNIT) by (nonlinear_arith)
            requires
                -c <= m,
                UNIT > 0,
        ;
        assert(-(c * UNIT) / m <= UNIT && -(c * UNIT) / m >= 0) by (nonlinear_arith)
            requires
                0 <= -(c * UNIT) <= m * UNIT,
                m >= 1,
                UNIT > 0,
        ;
    }
}

/// A world-sized difference scaled by a thousandths coefficient stays
/// within the difference itself.
proof fn lemma_lerp_step(d: int, t: int)
    requires
        -200_000_000 <= d <= 200_000_000,
        0 <= t <= UNIT,
    ensures
        -200_000_000_000 <= d * t <= 200_000_000_000,
        d >= 0 ==> 0 <= div_trunc(d * t, UNIT as int) <= d,
        d < 0 ==> d <= div_trunc(d * t, UNIT as int) <= 0,
{
    assert(-200_000_000_000 <= d * t <= 200_000_000_000) by (nonlinear_arith)
        requires
            -200_000_000 <= d <= 200_000_000,
            0 <= t <= 1000,
    ;
    if d >= 0 {
        assert(0 <= d * t / 1000 <= d) by (nonlinear_arith)
            requires
                0 <= t <= 1000,
                d >= 0,
        ;
    } else {
        assert(0 <= -(d * t) / 1000 <= -d) by (nonlinear_arith)
            requires
                0 <= t <= 1000,
                d < 0,
        ;
    }
}

/// Absolute value of a mathematical integer (local shorthand).
pub open spec fn abs_c(a: int) -> int {
    if a >= 0 {
        a
    } else {
        -a
    }
}

/// A vector whose magnitude rounds down to zero is the zero vector.
proof fn lemma_mag_zero(v: Vec2)
    requires
        v.ok(),
        v.spec_mag() <= 0,
    ensures
        v.is_zero(),
{
    assert(v.spec_mag2() >= 0) by (nonlinear_arith);
    crate::num::lemma_sqrt_floor(v.spec_mag2());
    let s = v.spec_mag();
    assert(s == 0);
    assert(v.spec_mag2() < (s + 1) * (s + 1));
    assert((s + 1) * (s + 1) == 1) by (nonlinear_arith)
        requires
            s == 0,
    ;
    if v.x != 0 || v.y != 0 {
        assert(v.spec_mag2() >= 1) by (nonlinear_arith)
            requires
                v.x != 0 || v.y != 0,
        ;
    }
}

} // verus!
