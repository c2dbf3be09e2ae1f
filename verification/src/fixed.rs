//! Fixed-point arithmetic shared by the analytics engines.
//!
//! A scalar is stored as an integer number of millionths: `1.0` is
//! [`SCALE`], `0.5` is `500_000`. Quotients round toward negative infinity
//! and square roots round down, so every operation has one exact result.

use vstd::prelude::*;
use vstd::arithmetic::div_mod::{
    lemma_fundamental_div_mod, lemma_fundamental_div_mod_converse, lemma_hoist_over_denominator,
};

verus! {

/// The fixed-point representation of `1.0`.
pub const SCALE: i64 = 1_000_000;

/// `r` is the square root of `n`, rounded down.
pub open spec fn is_sqrt_floor(n: int, r: int) -> bool {
    0 <= r && r * r <= n && n < (r + 1) * (r + 1)
}

/// The square root of `n`, rounded down (0 for negative `n`).
pub open spec fn sqrt_floor(n: int) -> int {
    if n < 0 {
        0
    } else {
        choose|r: int| is_sqrt_floor(n, r)
    }
}

/// `v` limited to the interval `[lo, hi]`.
pub open spec fn clamp(v: int, lo: int, hi: int) -> int {
    if v < lo {
        lo
    } else if v > hi {
        hi
    } else {
        v
    }
}

/// `v` limited to the unit interval `[0, SCALE]`.
pub open spec fn clamp_unit(v: int) -> int {
    clamp(v, 0, SCALE as int)
}

/// The absolute value of `v`.
pub open spec fn abs(v: int) -> int {
    if v < 0 {
        -v
    } else {
        v
    }
}

proof fn lemma_square_monotone(a: int, b: int)
    by (nonlinear_arith)
    requires
        0 <= a <= b,
    ensures
        a * a <= b * b,
{
}

/// Two rounded-down square roots of the same number are equal.
pub proof fn lemma_sqrt_floor_unique(n: int, r1: int, r2: int)
    requires
        is_sqrt_floor(n, r1),
        is_sqrt_floor(n, r2),
    ensures
        r1 == r2,
{
    if r1 < r2 {
        lemma_square_monotone(r1 + 1, r2);
    } else if r2 < r1 {
        lemma_square_monotone(r2 + 1, r1);
    }
}

/// Every non-negative number has a rounded-down square root.
pub proof fn lemma_sqrt_floor_exists(n: int)
    requires
        0 <= n,
    ensures
        is_sqrt_floor(n, sqrt_floor(n)),
    decreases n,
{
    if n == 0 {
        assert(is_sqrt_floor(0, 0));
    } else {
        lemma_sqrt_floor_exists(n - 1);
        let r = sqrt_floor(n - 1);
        if n < (r + 1) * (r + 1) {
            assert(is_sqrt_floor(n, r));
        } else {
            assert((r + 1) * (r + 1) == n);
            assert(n < (r + 2) * (r + 2)) by (nonlinear_arith)
                requires
                    (r + 1) * (r + 1) == n,
                    0 <= r,
            ;
            assert(is_sqrt_floor(n, r + 1));
        }
    }
}

/// A number whose square brackets `n` is its rounded-down square root.
pub proof fn lemma_sqrt_floor_is(n: int, r: int)
    requires
        is_sqrt_floor(n, r),
    ensures
        sqrt_floor(n) == r,
{
    assert(0 <= r * r) by (nonlinear_arith);
    lemma_sqrt_floor_exists(n);
    lemma_sqrt_floor_unique(n, r, sqrt_floor(n));
}

/// The rounded-down square root never decreases as its argument grows.
pub proof fn lemma_sqrt_floor_monotone(a: int, b: int)
    requires
        a <= b,
    ensures
        sqrt_floor(a) <= sqrt_floor(b),
{
    if a < 0 {
        if b >= 0 {
            lemma_sqrt_floor_exists(b);
        }
    } else {
        lemma_sqrt_floor_exists(a);
        lemma_sqrt_floor_exists(b);
        let ra = sqrt_floor(a);
        let rb = sqrt_floor(b);
        if rb < ra {
            lemma_square_monotone(rb + 1, ra);
        }
    }
}

/// The quotient of `a` by a positive `b`, rounded toward negative infinity.
pub fn div_floor(a: i128, b: i128) -> (q: i128)
    requires
        b > 0,
    ensures
        q == a as int / b as int,
{
    if a >= 0 {
        a / b
    } else {
        let below: i128 = -(a + 1);
        let q: i128 = below / b;
        let r: i128 = below % b;
        proof {
            assert(below == q * b + r && 0 <= r < b) by (nonlinear_arith)
                requires
                    q == below / b,
                    r == below % b,
                    b > 0,
                    below >= 0,
            ;
            assert(a == (-1 - q) * b + (b - 1 - r)) by (nonlinear_arith)
                requires
                    below == q * b + r,
                    below == -(a + 1),
            ;
            assert(0 <= q) by (nonlinear_arith)
                requires
                    q == below / b,
                    b > 0,
                    below >= 0,
            ;
            lemma_fundamental_div_mod_converse(a as int, b as int, -1 - q, b - 1 - r);
        }
        -1 - q
    }
}

/// The square root of `n`, rounded down.
pub fn isqrt(n: u128) -> (r: u64)
    ensures
        r == sqrt_floor(n as int),
        is_sqrt_floor(n as int, r as int),
{
    let mut lo: u128 = 0;
    let mut hi: u128 = if n < 0x1_0000_0000 {
        0x1_0000
    } else if n < 0x1_0000_0000_0000_0000 {
        0x1_0000_0000
    } else if n < 0x1_0000_0000_0000_0000_0000_0000 {
        0x1_0000_0000_0000
    } else {
        0x1_0000_0000_0000_0000
    };
    assert(n < hi * hi) by (nonlinear_arith)
        requires
            n <= u128::MAX,
            hi == 0x1_0000 && n < 0x1_0000_0000 || hi == 0x1_0000_0000 && n
                < 0x1_0000_0000_0000_0000 || hi == 0x1_0000_0000_0000 && n
                < 0x1_0000_0000_0000_0000_0000_0000 || hi == 0x1_0000_0000_0000_0000,
    ;
    while hi - lo > 1
        invariant
            lo < hi <= 0x1_0000_0000_0000_0000,
            lo * lo <= n,
            n < hi * hi,
        decreases hi - lo,
    {
        let mid: u128 = lo + (hi - lo) / 2;
        assert(mid * mid <= 0xFFFF_FFFF_FFFF_FFFF * 0xFFFF_FFFF_FFFF_FFFF) by (nonlinear_arith)
            requires
                0 <= mid <= 0xFFFF_FFFF_FFFF_FFFF,
        ;
        if mid * mid <= n {
            lo = mid;
        } else {
            hi = mid;
        }
    }
    proof {
        lemma_sqrt_floor_is(n as int, lo as int);
    }
    lo as u64
}

proof fn lemma_scaled_quotient(total: int, count: int, whole: int, rest: int)
    requires
        count > 0,
        total >= 0,
        whole == total / count,
        rest == total % count,
    ensures
        0 <= whole,
        0 <= rest < count,
        0 <= rest * 1_000_000 / count,
        whole * 1_000_000 + rest * 1_000_000 / count == total * 1_000_000 / count,
{
    lemma_fundamental_div_mod(total, count);
    assert(0 <= whole) by (nonlinear_arith)
        requires
            count > 0,
            0 <= total,
            whole == total / count,
    ;
    assert(0 <= rest * 1_000_000 / count) by (nonlinear_arith)
        requires
            count > 0,
            0 <= rest,
    ;
    assert(total * 1_000_000 == rest * 1_000_000 + (whole * 1_000_000) * count)
        by (nonlinear_arith)
        requires
            total == count * whole + rest,
    ;
    lemma_hoist_over_denominator(rest * 1_000_000, whole * 1_000_000, count as nat);
}

/// The scaled quotient of the sum of `count` 64-bit numbers fits in 128
/// bits.
pub proof fn lemma_scaled_quotient_fits(total: int, count: int)
    by (nonlinear_arith)
    requires
        count > 0,
        0 <= total <= count * 0xFFFF_FFFF_FFFF_FFFF,
    ensures
        0 <= total * 1_000_000 / count <= 0xFFFF_FFFF_FFFF_FFFF * 1_000_000,
{
}

/// The quotient of a whole number `total` by `count` as a fixed-point
/// scalar, rounded down; it must fit in 128 bits.
pub fn scaled_quotient(total: u128, count: u128) -> (q: u128)
    requires
        0 < count <= u64::MAX,
        total * SCALE / (count as int) <= u128::MAX,
    ensures
        q == total * SCALE / (count as int),
{
    let whole: u128 = total / count;
    let rest: u128 = total % count;
    proof {
        lemma_scaled_quotient(total as int, count as int, whole as int, rest as int);
        assert(rest * 1_000_000 <= 0xFFFF_FFFF_FFFF_FFFF * 1_000_000) by (nonlinear_arith)
            requires
                0 <= rest < count,
                count <= 0xFFFF_FFFF_FFFF_FFFF,
        ;
    }
    whole * 1_000_000 + rest * 1_000_000 / count
}

} // verus!
