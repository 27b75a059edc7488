//! Scalar fixed-point kernel: truncating division and integer square root.
//!
//! The geometry layer stores every length in milli-units (`UNIT` milli is
//! one unit), so the usual floating-point operations become exact integer
//! arithmetic: division truncates toward zero, square roots round down.

use vstd::prelude::*;

verus! {

/// Number of milli-units in one unit of length (one metre).
pub const UNIT: i64 = 1000;

/// Truncating (round-toward-zero) division, for a positive divisor.
/// This is the value an ordinary `/` on machine integers returns.
pub open spec fn div_trunc(a: int, b: int) -> int
    recommends
        b > 0,
{
    if a >= 0 {
        a / b
    } else {
        -((-a) / b)
    }
}

/// Floor of the square root of a non-negative integer.
pub open spec fn sqrt_floor(n: int) -> int
    recommends
        n >= 0,
    decreases n,
{
    if n <= 0 {
        0
    } else {
        let r = sqrt_floor(n - 1);
        if (r + 1) * (r + 1) <= n {
            r + 1
        } else {
            r
        }
    }
}

/// `sqrt_floor(n)` is the unique `r >= 0` with `r * r <= n < (r + 1) * (r + 1)`.
pub proof fn lemma_sqrt_floor(n: int)
    requires
        n >= 0,
    ensures
        sqrt_floor(n) >= 0,
        sqrt_floor(n) * sqrt_floor(n) <= n,
        n < (sqrt_floor(n) + 1) * (sqrt_floor(n) + 1),
    decreases n,
{
    if n > 0 {
        lemma_sqrt_floor(n - 1);
        let r = sqrt_floor(n - 1);
        if (r + 1) * (r + 1) <= n {
            assert(n < (r + 2) * (r + 2)) by (nonlinear_arith)
                requires
                    n - 1 < (r + 1) * (r + 1),
                    r >= 0,
            ;
        }
    }
}

/// The characterisation in the other direction: any `r` in the right window
/// is the floor square root.
pub proof fn lemma_sqrt_floor_unique(n: int, r: int)
    requires
        n >= 0,
        r >= 0,
        r * r <= n,
        n < (r + 1) * (r + 1),
    ensures
        sqrt_floor(n) == r,
{
    lemma_sqrt_floor(n);
    let s = sqrt_floor(n);
    if s < r {
        assert((s + 1) * (s + 1) <= r * r) by (nonlinear_arith)
            requires
                0 <= s,
                s + 1 <= r,
        ;
    }
    if r < s {
        assert((r + 1) * (r + 1) <= s * s) by (nonlinear_arith)
            requires
                0 <= r,
                r + 1 <= s,
        ;
    }
}

/// Truncating division of a signed dividend by a positive divisor.
pub fn div_i64(a: i64, b: i64) -> (r: i64)
    requires
        b > 0,
        a > i64::MIN,
    ensures
        r == div_trunc(a as int, b as int),
{
    if a >= 0 {
        let q: u64 = (a as u64) / (b as u64);
        proof {
            assert(q <= a as u64) by (nonlinear_arith)
                requires
                    q == (a as u64) / (b as u64),
                    b as u64 >= 1,
            ;
        }
        q as i64
    } else {
        let neg: i64 = -a;
        let q: u64 = (neg as u64) / (b as u64);
        proof {
            assert(q <= neg as u64) by (nonlinear_arith)
                requires
                    q == (neg as u64) / (b as u64),
                    b as u64 >= 1,
            ;
        }
        -(q as i64)
    }
}

/// Floor square root of a non-negative value, by binary search.
pub fn isqrt_i64(n: i64) -> (r: i64)
    requires
        n >= 0,
    ensures
        r == sqrt_floor(n as int),
        r >= 0,
        r * r <= n,
        n < (r + 1) * (r + 1),
{
    let mut lo: i64 = 0;
    let mut hi: i64 = 3_037_000_499;
    if n < hi {
        hi = n;
    }
    // Invariant: lo * lo <= n and (hi + 1) * (hi + 1) > n.
    proof {
        assert((3_037_000_499i64 + 1) * (3_037_000_499i64 + 1) > i64::MAX as int) by (nonlinear_arith);
        if n < 3_037_000_499 {
            assert((n + 1) * (n + 1) > n) by (nonlinear_arith)
                requires
                    n >= 0,
            ;
        }
    }
    while lo < hi
        invariant
            0 <= lo <= hi <= 3_037_000_499,
            lo * lo <= n,
            n < (hi + 1) * (hi + 1),
        decreases hi - lo,
    {
        let mid: i64 = lo + (hi - lo + 1) / 2;
        proof {
            assert(mid * mid <= 3_037_000_499i64 * 3_037_000_499i64) by (nonlinear_arith)
                requires
                    0 <= mid <= 3_037_000_499i64,
            ;
            assert(3_037_000_499i64 * 3_037_000_499i64 < i64::MAX as int) by (nonlinear_arith);
        }
        if mid * mid <= n {
            lo = mid;
        } else {
            hi = mid - 1;
        }
    }
    proof {
        lemma_sqrt_floor_unique(n as int, lo as int);
    }
    lo
}

/// The smaller of two values.
pub fn imin(a: i64, b: i64) -> (r: i64)
    ensures
        r == if a <= b { a as int } else { b as int },
{
    if a <= b {
        a
    } else {
        b
    }
}

/// The larger of two values.
pub fn imax(a: i64, b: i64) -> (r: i64)
    ensures
        r == if a >= b { a as int } else { b as int },
{
    if a >= b {
        a
    } else {
        b
    }
}

/// Absolute value, for inputs above `i64::MIN`.
pub fn iabs(a: i64) -> (r: i64)
    requires
        a > i64::MIN,
    ensures
        r == if a >= 0 { a as int } else { -a as int },
        r >= 0,
{
    if a >= 0 {
        a
    } else {
        -a
    }
}

/// `v` clamped to the interval `[lo, hi]`.
pub fn iclamp(v: i64, lo: i64, hi: i64) -> (r: i64)
    requires
        lo <= hi,
    ensures
        r == if v < lo { lo as int } else if v > hi { hi as int } else { v as int },
        lo <= r <= hi,
{
    if v < lo {
        lo
    } else if v > hi {
        hi
    } else {
        v
    }
}

} // verus!
