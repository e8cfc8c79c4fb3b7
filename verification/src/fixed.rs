//! Fixed-point scalar arithmetic.
//!
//! A scalar is an `i64` counting units of `1 / SCALE`. Products are taken in
//! `i128`, where a product of two `i64` values can never overflow, and are
//! brought back to `i64` by saturation at the representation's bounds, so
//! every operation is total. The contracts state each result exactly.

use vstd::prelude::*;

verus! {

/// Number of fixed-point units in one world unit (or one second).
pub const SCALE: i64 = 65536;

pub const I64_MAX: i64 = 0x7fff_ffff_ffff_ffff;
pub const I64_MIN: i64 = -0x7fff_ffff_ffff_ffff - 1;

/// Saturation of an unbounded integer into the `i64` range.
pub open spec fn sat_spec(x: int) -> int {
    if x > I64_MAX as int {
        I64_MAX as int
    } else if x < I64_MIN as int {
        I64_MIN as int
    } else {
        x
    }
}

/// Truncating division (rounding toward zero), for a positive divisor.
pub open spec fn tdiv_spec(a: int, b: int) -> int
    recommends
        b > 0,
{
    if a >= 0 {
        a / b
    } else {
        -((-a) / b)
    }
}

/// The nonnegative integer square root: the greatest `r` with `r * r <= n`.
pub open spec fn isqrt_spec(n: int) -> int
    decreases n,
{
    if n < 1 {
        0
    } else {
        let r = isqrt_spec(n - 1);
        if (r + 1) * (r + 1) <= n {
            r + 1
        } else {
            r
        }
    }
}

/// `isqrt_spec(n)` is the greatest integer whose square does not exceed `n`.
pub proof fn lemma_isqrt_bounds(n: int)
    requires
        n >= 0,
    ensures
        0 <= isqrt_spec(n),
        isqrt_spec(n) * isqrt_spec(n) <= n,
        n < (isqrt_spec(n) + 1) * (isqrt_spec(n) + 1),
    decreases n,
{
    if n == 0 {
    } else {
        lemma_isqrt_bounds(n - 1);
        let r = isqrt_spec(n - 1);
        assert((r + 1) * (r + 1) < (r + 2) * (r + 2)) by (nonlinear_arith)
            requires
                r >= 0,
        ;
    }
}

/// Saturate an `i128` into the `i64` range.
pub fn sat64(x: i128) -> (r: i64)
    ensures
        r as int == sat_spec(x as int),
{
    if x > I64_MAX as i128 {
        I64_MAX
    } else if x < I64_MIN as i128 {
        I64_MIN
    } else {
        x as i64
    }
}

/// Clamp a scalar into a symmetric interval `[-bound, bound]`.
pub open spec fn clamp_spec(x: int, bound: int) -> int
    recommends
        bound >= 0,
{
    if x > bound {
        bound
    } else if x < -bound {
        -bound
    } else {
        x
    }
}

/// Clamp an `i128` into `[-bound, bound]` for a nonnegative `i64` bound.
pub fn clamp64(x: i128, bound: i64) -> (r: i64)
    requires
        bound >= 0,
    ensures
        r as int == clamp_spec(x as int, bound as int),
        -bound <= r <= bound,
{
    if x > bound as i128 {
        bound
    } else if x < -(bound as i128) {
        -bound
    } else {
        x as i64
    }
}

/// Truncating division of an `i128` by a positive divisor.
pub fn tdiv128(a: i128, b: i128) -> (r: i128)
    requires
        b > 0,
        a > -0x8000_0000_0000_0000_0000_0000_0000_0000,
    ensures
        r as int == tdiv_spec(a as int, b as int),
{
    if a >= 0 {
        let q: u128 = (a as u128) / (b as u128);
        q as i128
    } else {
        let q: u128 = ((-a) as u128) / (b as u128);
        proof {
            assert(q <= (-a) as u128) by (nonlinear_arith)
                requires
                    q == ((-a) as u128) / (b as u128),
                    b as u128 >= 1,
            ;
        }
        -(q as i128)
    }
}

/// Integer square root of a nonnegative `i128`, by bisection.
pub fn isqrt128(n: i128) -> (r: i128)
    requires
        n >= 0,
    ensures
        r as int == isqrt_spec(n as int),
        0 <= r,
        r * r <= n < (r + 1) * (r + 1),
{
    proof {
        lemma_isqrt_bounds(n as int);
    }
    let un: u128 = n as u128;
    let mut lo: u128 = 0;
    // 2^64 squared exceeds every i128 input, so the root is below it.
    let mut hi: u128 = 0x1_0000_0000_0000_0000;
    proof {
        assert((0x1_0000_0000_0000_0000 as int) * (0x1_0000_0000_0000_0000 as int)
            == 0x1_0000_0000_0000_0000_0000_0000_0000_0000) by (nonlinear_arith);
    }
    while lo + 1 < hi
        invariant
            un == n as int,
            0 <= lo < hi <= 0x1_0000_0000_0000_0000,
            lo * lo <= un,
            un < hi * hi,
        decreases hi - lo,
    {
        let mid: u128 = lo + (hi - lo) / 2;
        assert(lo < mid < hi);
        proof {
            assert(mid * mid < 0x1_0000_0000_0000_0000 * 0x1_0000_0000_0000_0000)
                by (nonlinear_arith)
                requires
                    0 <= mid < 0x1_0000_0000_0000_0000,
            ;
            assert((0x1_0000_0000_0000_0000 as int) * (0x1_0000_0000_0000_0000 as int)
                == 0x1_0000_0000_0000_0000_0000_0000_0000_0000) by (nonlinear_arith);
        }
        let sq: u128 = mid * mid;
        if sq <= un {
            lo = mid;
        } else {
            hi = mid;
        }
    }
    proof {
        let s = isqrt_spec(n as int);
        assert(lo as int == s) by (nonlinear_arith)
            requires
                0 <= lo,
                lo * lo <= (n as int),
                (n as int) < (lo + 1) * (lo + 1),
                0 <= s,
                s * s <= (n as int),
                (n as int) < (s + 1) * (s + 1),
        ;
    }
    lo as i128
}

/// The exact product of two scalars, in `i128` where it cannot overflow.
pub fn mul64(a: i64, b: i64) -> (r: i128)
    ensures
        r as int == a as int * b as int,
        -0x4000_0000_0000_0000_0000_0000_0000_0000 <= r as int
            <= 0x4000_0000_0000_0000_0000_0000_0000_0000,
{
    proof {
        lemma_mul64_bounds(a as int, b as int);
    }
    (a as i128) * (b as i128)
}

/// A product of two values of the `i64` range stays within `2^126` in size.
pub proof fn lemma_mul64_bounds(a: int, b: int)
    requires
        -0x8000_0000_0000_0000 <= a <= 0x7fff_ffff_ffff_ffff,
        -0x8000_0000_0000_0000 <= b <= 0x7fff_ffff_ffff_ffff,
    ensures
        -0x4000_0000_0000_0000_0000_0000_0000_0000 <= a * b
            <= 0x4000_0000_0000_0000_0000_0000_0000_0000,
{
    let m: int = 0x8000_0000_0000_0000;
    assert(m * m == 0x4000_0000_0000_0000_0000_0000_0000_0000);
    assert(a * b <= m * m && a * b >= -(m * m)) by (nonlinear_arith)
        requires
            -m <= a <= m,
            -m <= b <= m,
    ;
}

/// A product of two values within `[-(2^63 - 1), 2^63 - 1]` stays strictly
/// within `2^126`, so a sum of two such products fits in `i128`.
pub proof fn lemma_mul63_bounds(a: int, b: int)
    requires
        -0x7fff_ffff_ffff_ffff <= a <= 0x7fff_ffff_ffff_ffff,
        -0x7fff_ffff_ffff_ffff <= b <= 0x7fff_ffff_ffff_ffff,
    ensures
        -0x3fff_ffff_ffff_ffff_0000_0000_0000_0001 <= a * b
            <= 0x3fff_ffff_ffff_ffff_0000_0000_0000_0001,
{
    let m: int = 0x7fff_ffff_ffff_ffff;
    assert(m * m == 0x3fff_ffff_ffff_ffff_0000_0000_0000_0001);
    assert(a * b <= m * m && a * b >= -(m * m)) by (nonlinear_arith)
        requires
            -m <= a <= m,
            -m <= b <= m,
    ;
}

/// The exact product of two moderate `i128` values: each factor within
/// `2^63` in size, so the product stays within `2^126`.
pub fn mul_i128(a: i128, b: i128) -> (r: i128)
    requires
        -0x8000_0000_0000_0000 <= a <= 0x8000_0000_0000_0000,
        -0x8000_0000_0000_0000 <= b <= 0x8000_0000_0000_0000,
    ensures
        r as int == a as int * b as int,
        -0x4000_0000_0000_0000_0000_0000_0000_0000 <= r as int
            <= 0x4000_0000_0000_0000_0000_0000_0000_0000,
{
    proof {
        let m: int = 0x8000_0000_0000_0000;
        assert(m * m == 0x4000_0000_0000_0000_0000_0000_0000_0000);
        assert(a * b <= m * m && a * b >= -(m * m)) by (nonlinear_arith)
            requires
                -m <= a <= m,
                -m <= b <= m,
        ;
    }
    a * b
}

/// A square is nonnegative.
pub proof fn lemma_square_nonneg(a: int)
    ensures
        a * a >= 0,
{
    assert(a * a >= 0) by (nonlinear_arith);
}

/// A product of a nonnegative value and a value bounded from below is
/// bounded from below by the product of the bounds.
pub proof fn lemma_mul_lower(a: int, e: int, ma: int, me: int)
    requires
        0 <= a <= ma,
        -me <= e,
        0 <= me,
    ensures
        a * e >= -(ma * me),
{
    assert(a * e >= -(ma * me)) by (nonlinear_arith)
        requires
            0 <= a <= ma,
            -me <= e,
            0 <= me,
    ;
}

/// A product is bounded in size by the product of the factors' bounds.
pub proof fn lemma_abs_mul_bound(a: int, b: int, ma: int, mb: int)
    requires
        -ma <= a <= ma,
        -mb <= b <= mb,
    ensures
        -(ma * mb) <= a * b <= ma * mb,
{
    assert(-(ma * mb) <= a * b <= ma * mb) by (nonlinear_arith)
        requires
            -ma <= a <= ma,
            -mb <= b <= mb,
    ;
}

} // verus!
