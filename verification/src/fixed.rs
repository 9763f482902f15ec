//! Fixed-point arithmetic in thousandths.
//!
//! Every scalar that the simulation keeps (a coordinate, a length, a time,
//! a ratio) is an integer that counts thousandths of its unit: `1500` is
//! one and a half. Where a value is made of several products or quotients,
//! they are held in finer units and rounded once, at the end, so that the
//! value is within a thousandth of the exact one; each contract says
//! whether it rounds down or to the nearest. The specifications are
//! written over `int`; the executable functions compute the same values in
//! machine integers without overflow.

use vstd::prelude::*;

verus! {

/// The fixed-point representation of 1.
pub const ONE: i32 = 1000;

/// Largest magnitude of a coordinate that the simulation keeps.
pub const COORD_LIMIT: i32 = 1_000_000_000;

/// Latest time that a clock of the simulation reaches; it stays there.
pub const TIME_LIMIT: i32 = 2_000_000_000;

/// `v` limited to the interval from `lo` to `hi`.
pub open spec fn clamp_int(v: int, lo: int, hi: int) -> int {
    if v < lo {
        lo
    } else if v > hi {
        hi
    } else {
        v
    }
}

/// The quotient of `n` by a positive `d`, rounded to the nearest whole
/// number; a quotient halfway between two is rounded up.
pub open spec fn round_div(n: int, d: int) -> int {
    (2 * n + d) / (2 * d)
}

/// A rounded quotient is within half a unit of the exact one.
pub proof fn lemma_round_div_nearest(n: int, d: int)
    requires
        0 < d,
    ensures
        2 * n - d < 2 * (d * round_div(n, d)) <= 2 * n + d,
{
    let q = round_div(n, d);
    vstd::arithmetic::div_mod::lemma_fundamental_div_mod(2 * n + d, 2 * d);
    vstd::arithmetic::div_mod::lemma_mod_bound(2 * n + d, 2 * d);
    assert((2 * d) * q == 2 * (d * q)) by (nonlinear_arith);
}

/// A rounded quotient has the sign of its dividend, or is 0.
pub proof fn lemma_round_div_sign(n: int, d: int)
    requires
        0 < d,
    ensures
        0 <= n ==> 0 <= round_div(n, d),
        n <= 0 ==> round_div(n, d) <= 0,
        n == 0 ==> round_div(n, d) == 0,
{
    let q = round_div(n, d);
    lemma_round_div_nearest(n, d);
    if 0 <= n && q < 0 {
        assert(d * q <= -d) by (nonlinear_arith)
            requires
                0 < d,
                q <= -1,
        ;
    }
    if n <= 0 && q > 0 {
        assert(d * q >= d) by (nonlinear_arith)
            requires
                0 < d,
                q >= 1,
        ;
    }
}

/// A whole multiple of the divisor is divided without rounding.
pub proof fn lemma_round_div_exact(k: int, d: int)
    requires
        0 < d,
    ensures
        round_div(k * d, d) == k,
{
    let q = round_div(k * d, d);
    lemma_round_div_nearest(k * d, d);
    if q > k {
        assert(d * q >= k * d + d) by (nonlinear_arith)
            requires
                0 < d,
                q >= k + 1,
        ;
    }
    if q < k {
        assert(d * q <= k * d - d) by (nonlinear_arith)
            requires
                0 < d,
                q <= k - 1,
        ;
    }
}

/// A rounded quotient of a number between `-k d` and `k d` lies between
/// `-k` and `k`.
pub proof fn lemma_round_div_bound(n: int, d: int, k: int)
    requires
        0 < d,
        0 <= k,
        -(k * d) <= n <= k * d,
    ensures
        -k <= round_div(n, d) <= k,
{
    let q = round_div(n, d);
    lemma_round_div_nearest(n, d);
    if q > k {
        assert(d * q >= k * d + d) by (nonlinear_arith)
            requires
                0 < d,
                q >= k + 1,
        ;
    }
    if q < -k {
        assert(d * q <= -(k * d) - d) by (nonlinear_arith)
            requires
                0 < d,
                q <= -k - 1,
        ;
    }
}

/// `r` is the integer square root of `n`, rounded down.
pub open spec fn is_sqrt_floor(n: int, r: int) -> bool {
    0 <= r && r * r <= n && n < (r + 1) * (r + 1)
}

/// The integer square root of `n`, rounded down (0 for a negative `n`).
pub open spec fn sqrt_floor(n: int) -> int {
    if n < 0 {
        0
    } else {
        choose|r: int| is_sqrt_floor(n, r)
    }
}

/// Two candidates for the rounded-down square root of one number are equal.
pub proof fn lemma_sqrt_floor_unique(n: int, r1: int, r2: int)
    requires
        is_sqrt_floor(n, r1),
        is_sqrt_floor(n, r2),
    ensures
        r1 == r2,
{
    if r1 < r2 {
        assert((r1 + 1) * (r1 + 1) <= r2 * r2) by (nonlinear_arith)
            requires
                0 <= r1,
                r1 + 1 <= r2,
        ;
    } else if r2 < r1 {
        assert((r2 + 1) * (r2 + 1) <= r1 * r1) by (nonlinear_arith)
            requires
                0 <= r2,
                r2 + 1 <= r1,
        ;
    }
}

/// A number `r` with `r * r <= n < (r + 1) * (r + 1)` is `sqrt_floor(n)`.
pub proof fn lemma_sqrt_floor_is(n: int, r: int)
    requires
        is_sqrt_floor(n, r),
    ensures
        sqrt_floor(n) == r,
{
    assert(r * r >= 0) by (nonlinear_arith);
    let c = choose|c: int| is_sqrt_floor(n, c);
    lemma_sqrt_floor_unique(n, r, c);
}

/// Every number that is not negative has a rounded-down square root.
pub proof fn lemma_sqrt_floor_exists(n: int)
    requires
        0 <= n,
    ensures
        is_sqrt_floor(n, sqrt_floor(n)),
    decreases n,
{
    if n == 0 {
        assert(is_sqrt_floor(0, 0));
    } else {
        lemma_sqrt_floor_exists(n - 1);
        let r = sqrt_floor(n - 1);
        if n < (r + 1) * (r + 1) {
            assert(is_sqrt_floor(n, r));
        } else {
            assert(n == (r + 1) * (r + 1));
            assert((r + 1) * (r + 1) < (r + 2) * (r + 2)) by (nonlinear_arith)
                requires
                    0 <= r,
            ;
            assert(is_sqrt_floor(n, r + 1));
        }
    }
}

/// Limits `v` to the interval from `lo` to `hi`.
pub fn clamp(v: i64, lo: i64, hi: i64) -> (r: i64)
    ensures
        r == clamp_int(v as int, lo as int, hi as int),
{
    if v < lo {
        lo
    } else if v > hi {
        hi
    } else {
        v
    }
}

/// Divides rounding down, also for a negative dividend.
pub fn div_floor(a: i64, b: i64) -> (q: i64)
    requires
        b > 0,
    ensures
        q == a as int / b as int,
{
    if a >= 0 {
        a / b
    } else {
        let n: i64 = -(a + 1);
        let k: i64 = n / b;
        proof {
            let ai = a as int;
            let bi = b as int;
            let ki = k as int;
            assert(ki == (-ai - 1) / bi);
            assert(ai / bi == -ki - 1) by (nonlinear_arith)
                requires
                    bi > 0,
                    ai < 0,
                    ki == (-ai - 1) / bi,
            ;
        }
        -k - 1
    }
}

/// Divides wide numbers rounding down, also for a negative dividend.
pub fn div_floor_wide(a: i128, b: i128) -> (q: i128)
    requires
        b > 0,
        a > i128::MIN,
    ensures
        q == a as int / b as int,
{
    if a >= 0 {
        a / b
    } else {
        let n: i128 = -(a + 1);
        let k: i128 = n / b;
        proof {
            let ai = a as int;
            let bi = b as int;
            let ki = k as int;
            assert(ki == (-ai - 1) / bi);
            assert(ai / bi == -ki - 1) by (nonlinear_arith)
                requires
                    bi > 0,
                    ai < 0,
                    ki == (-ai - 1) / bi,
            ;
        }
        -k - 1
    }
}

/// Divides by a positive number rounding to the nearest whole number.
pub fn div_round(n: i128, d: i128) -> (q: i128)
    requires
        0 < d <= 0x100_0000_0000_0000_0000_0000_0000_0000,
        -0x100_0000_0000_0000_0000_0000_0000_0000 <= n <= 0x100_0000_0000_0000_0000_0000_0000_0000,
    ensures
        q == round_div(n as int, d as int),
{
    div_floor_wide(2 * n + d, 2 * d)
}

/// The square of a number.
pub fn square(d: i64) -> (s: u128)
    ensures
        s == d * d,
{
    let m: u128 = if d < 0 {
        (-(d as i128)) as u128
    } else {
        d as u128
    };
    assert(m * m == d * d && m * m <= 0x4000_0000_0000_0000_0000_0000_0000_0000)
        by (nonlinear_arith)
        requires
            0 <= m <= 0x8000_0000_0000_0000,
            m == d || m == -d,
    ;
    m * m
}

/// The integer square root, rounded down.
pub fn isqrt(n: u128) -> (r: u64)
    ensures
        is_sqrt_floor(n as int, r as int),
        r == sqrt_floor(n as int),
{
    let mut lo: u128 = 0;
    let mut hi: u128 = 0x1_0000_0000_0000_0000;
    assert(0x1_0000_0000_0000_0000int * 0x1_0000_0000_0000_0000int
        == 0x1_0000_0000_0000_0000_0000_0000_0000_0000int) by (nonlinear_arith);
    while hi - lo > 1
        invariant
            lo < hi <= 0x1_0000_0000_0000_0000,
            lo * lo <= n,
            n < hi * hi,
        decreases hi - lo,
    {
        let mid: u128 = lo + (hi - lo) / 2;
        assert(mid * mid < 0x1_0000_0000_0000_0000_0000_0000_0000_0000int) by (nonlinear_arith)
            requires
                0 <= mid < 0x1_0000_0000_0000_0000int,
        ;
        if mid * mid <= n {
            lo = mid;
        } else {
            hi = mid;
        }
    }
    proof {
        lemma_sqrt_floor_is(n as int, lo as int);
    }
    lo as u64
}

} // verus!
