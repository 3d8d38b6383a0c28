//! Saturating 128-bit arithmetic, plus integer square and cube roots.
//!
//! The engine never wants a panic or a wrap-around: like a
//! floating-point unit pinning an overflowing result to infinity, every
//! operation here clamps a result that would leave the `i128` range to
//! `i128::MAX` or `i128::MIN`. Division truncates toward zero, and a
//! divisor of exactly zero is replaced by `1`, the smallest positive
//! representable value, so that dividing stays total and finite.

use vstd::prelude::*;
use vstd::arithmetic::div_mod::{
    lemma_div_is_ordered, lemma_div_nonincreasing, lemma_div_pos_is_pos,
};
use vstd::arithmetic::mul::{lemma_mul_inequality, lemma_mul_strict_inequality};

verus! {

/// Clamp a mathematical integer into the `i128` range.
pub open spec fn clip128(x: int) -> i128 {
    if x > i128::MAX as int {
        i128::MAX
    } else if x < i128::MIN as int {
        i128::MIN
    } else {
        x as i128
    }
}

/// Division truncating toward zero, the rounding the hardware performs
/// on signed integers (`int` division in specifications rounds toward
/// negative infinity instead).
pub open spec fn tdiv(x: int, d: int) -> int
    recommends
        d != 0,
{
    if x == 0 {
        0
    } else if x > 0 && d > 0 {
        x / d
    } else if x < 0 && d < 0 {
        (x * -1) / (d * -1)
    } else if x < 0 {
        ((x * -1) / d) * -1
    } else {
        (x / (d * -1)) * -1
    }
}

/// Saturating addition.
pub open spec fn sadd(a: i128, b: i128) -> i128 {
    clip128(a + b)
}

/// Saturating subtraction.
pub open spec fn ssub(a: i128, b: i128) -> i128 {
    clip128(a - b)
}

/// Saturating multiplication.
pub open spec fn smul(a: i128, b: i128) -> i128 {
    clip128(a * b)
}

/// Saturating division: truncates toward zero, and a zero divisor is
/// replaced by `1` so the operation stays total.
pub open spec fn sdiv(a: i128, b: i128) -> i128 {
    clip128(tdiv(a as int, if b == 0 { 1 as int } else { b as int }))
}

pub fn sat_add(a: i128, b: i128) -> (r: i128)
    ensures
        r == sadd(a, b),
{
    match a.checked_add(b) {
        Some(v) => v,
        None => if b >= 0 {
            i128::MAX
        } else {
            i128::MIN
        },
    }
}

pub fn sat_sub(a: i128, b: i128) -> (r: i128)
    ensures
        r == ssub(a, b),
{
    match a.checked_sub(b) {
        Some(v) => v,
        None => if b < 0 {
            i128::MAX
        } else {
            i128::MIN
        },
    }
}

pub fn sat_mul(a: i128, b: i128) -> (r: i128)
    ensures
        r == smul(a, b),
{
    match a.checked_mul(b) {
        Some(v) => v,
        None => {
            proof {
                let ai = a as int;
                let bi = b as int;
                if ai == 0 || bi == 0 {
                    assert(ai * bi == 0) by (nonlinear_arith)
                        requires
                            ai == 0 || bi == 0,
                    ;
                }
                if ai > 0 && bi > 0 {
                    assert(ai * bi > 0) by (nonlinear_arith)
                        requires
                            ai > 0 && bi > 0,
                    ;
                }
                if ai < 0 && bi < 0 {
                    assert(ai * bi > 0) by (nonlinear_arith)
                        requires
                            ai < 0 && bi < 0,
                    ;
                }
                if ai > 0 && bi < 0 {
                    assert(ai * bi < 0) by (nonlinear_arith)
                        requires
                            ai > 0 && bi < 0,
                    ;
                }
                if ai < 0 && bi > 0 {
                    assert(ai * bi < 0) by (nonlinear_arith)
                        requires
                            ai < 0 && bi > 0,
                    ;
                }
            }
            if (a > 0) == (b > 0) {
                i128::MAX
            } else {
                i128::MIN
            }
        },
    }
}

/// Truncating division never falls below `i128::MIN`, so saturation on
/// division can only ever clamp upward (to `i128::MAX`).
proof fn lemma_tdiv_ge_min(x: int, d: int)
    requires
        i128::MIN as int <= x <= i128::MAX as int,
        d != 0,
    ensures
        tdiv(x, d) >= i128::MIN as int,
{
    if x == 0 {
    } else if x > 0 && d > 0 {
        lemma_div_pos_is_pos(x, d);
    } else if x < 0 && d < 0 {
        lemma_div_pos_is_pos(x * -1, d * -1);
    } else if x < 0 {
        lemma_div_nonincreasing(x * -1, d);
    } else {
        lemma_div_nonincreasing(x, d * -1);
    }
}

pub fn sat_div(a: i128, b: i128) -> (r: i128)
    ensures
        r == sdiv(a, b),
{
    let d: i128 = if b == 0 {
        1
    } else {
        b
    };
    match a.checked_div(d) {
        Some(v) => v,
        None => {
            proof {
                lemma_tdiv_ge_min(a as int, d as int);
            }
            i128::MAX
        },
    }
}

/// The floor of the square root of `n` (zero for negative `n`).
pub open spec fn sqrt_floor(n: int) -> int
    decreases n,
{
    if n <= 0 {
        0
    } else {
        let r = sqrt_floor(n - 1);
        if (r + 1) * (r + 1) <= n {
            r + 1
        } else {
            r
        }
    }
}

pub proof fn lemma_sqrt_floor_bounds(n: int)
    requires
        n >= 0,
    ensures
        sqrt_floor(n) >= 0,
        sqrt_floor(n) * sqrt_floor(n) <= n,
        (sqrt_floor(n) + 1) * (sqrt_floor(n) + 1) > n,
    decreases n,
{
    if n == 0 {
    } else {
        lemma_sqrt_floor_bounds(n - 1);
        let r0 = sqrt_floor(n - 1);
        if (r0 + 1) * (r0 + 1) <= n {
            assert((r0 + 2) * (r0 + 2) > n) by (nonlinear_arith)
                requires
                    r0 >= 0,
                    (r0 + 1) * (r0 + 1) > n - 1,
            ;
        }
    }
}

pub proof fn lemma_sqrt_unique(n: int, r: int)
    requires
        n >= 0,
        r >= 0,
        r * r <= n,
        (r + 1) * (r + 1) > n,
    ensures
        r == sqrt_floor(n),
{
    lemma_sqrt_floor_bounds(n);
    let s = sqrt_floor(n);
    if r < s {
        lemma_mul_inequality(r + 1, s, s);
        lemma_mul_inequality(s, s, s);
        assert((r + 1) * (r + 1) <= s * s) by (nonlinear_arith)
            requires
                0 <= r + 1 <= s,
        ;
    }
    if s < r {
        assert((s + 1) * (s + 1) <= r * r) by (nonlinear_arith)
            requires
                0 <= s + 1 <= r,
        ;
    }
}

/// The floor of the cube root of `n` (zero for negative `n`).
pub open spec fn cbrt_floor(n: int) -> int
    decreases n,
{
    if n <= 0 {
        0
    } else {
        let r = cbrt_floor(n - 1);
        if (r + 1) * (r + 1) * (r + 1) <= n {
            r + 1
        } else {
            r
        }
    }
}

pub proof fn lemma_cbrt_floor_bounds(n: int)
    requires
        n >= 0,
    ensures
        cbrt_floor(n) >= 0,
        cbrt_floor(n) * cbrt_floor(n) * cbrt_floor(n) <= n,
        (cbrt_floor(n) + 1) * (cbrt_floor(n) + 1) * (cbrt_floor(n) + 1) > n,
    decreases n,
{
    if n == 0 {
    } else {
        lemma_cbrt_floor_bounds(n - 1);
        let r0 = cbrt_floor(n - 1);
        if (r0 + 1) * (r0 + 1) * (r0 + 1) <= n {
            assert((r0 + 2) * (r0 + 2) * (r0 + 2) > n) by (nonlinear_arith)
                requires
                    r0 >= 0,
                    (r0 + 1) * (r0 + 1) * (r0 + 1) > n - 1,
            ;
        }
    }
}

pub proof fn lemma_cbrt_unique(n: int, r: int)
    requires
        n >= 0,
        r >= 0,
        r * r * r <= n,
        (r + 1) * (r + 1) * (r + 1) > n,
    ensures
        r == cbrt_floor(n),
{
    lemma_cbrt_floor_bounds(n);
    let s = cbrt_floor(n);
    if r < s {
        assert((r + 1) * (r + 1) * (r + 1) <= s * s * s) by (nonlinear_arith)
            requires
                0 <= r + 1 <= s,
        ;
    }
    if s < r {
        assert((s + 1) * (s + 1) * (s + 1) <= r * r * r) by (nonlinear_arith)
            requires
                0 <= s + 1 <= r,
        ;
    }
}

/// Monotonicity of the integer cube root.
pub proof fn lemma_cbrt_floor_monotone(a: int, b: int)
    requires
        a <= b,
    ensures
        cbrt_floor(a) <= cbrt_floor(b),
    decreases b - a,
{
    if a < b {
        lemma_cbrt_floor_monotone(a, b - 1);
    }
}

/// The floor of the square root, computed by binary search.
pub fn isqrt(n: i128) -> (r: i128)
    requires
        n >= 0,
    ensures
        r >= 0,
        r as int == sqrt_floor(n as int),
{
    let nn: u128 = n as u128;
    let mut lo: u128 = 0;
    let mut hi: u128 = 18446744073709551616;
    proof {
        assert((hi as int) * (hi as int) > nn as int) by (nonlinear_arith)
            requires
                hi == 18446744073709551616u128,
                nn as int <= i128::MAX as int,
        ;
    }
    while lo + 1 < hi
        invariant
            lo < hi <= 18446744073709551616u128,
            nn == n as u128,
            n >= 0,
            (lo as int) * (lo as int) <= nn as int,
            (hi as int) * (hi as int) > nn as int,
        decreases hi - lo,
    {
        let mid: u128 = lo + (hi - lo) / 2;
        proof {
            assert(lo < mid < hi);
            assert((mid as int) * (mid as int) <= u128::MAX as int) by (nonlinear_arith)
                requires
                    mid < 18446744073709551616u128,
            ;
        }
        if mid * mid <= nn {
            lo = mid;
        } else {
            hi = mid;
        }
    }
    proof {
        assert(((lo + 1) as int) * (((lo + 1)) as int) > nn as int) by {
            lemma_mul_inequality(hi as int, (lo + 1) as int, (lo + 1) as int);
            lemma_mul_inequality(hi as int, hi as int, (lo + 1) as int);
            assert(((lo + 1) as int) * ((lo + 1) as int) >= (hi as int) * (hi as int))
                by (nonlinear_arith)
                requires
                    lo + 1 >= hi,
                    hi >= 1,
            ;
        }
        lemma_sqrt_unique(n as int, lo as int);
    }
    lo as i128
}

/// The floor of the cube root, computed by binary search.
pub fn icbrt(n: i128) -> (r: i128)
    requires
        n >= 0,
    ensures
        r >= 0,
        r as int == cbrt_floor(n as int),
{
    let nn: u128 = n as u128;
    let mut lo: u128 = 0;
    let mut hi: u128 = 6000000000000;
    proof {
        assert((hi as int) * (hi as int) * (hi as int) > nn as int) by (nonlinear_arith)
            requires
                hi == 6000000000000u128,
                nn as int <= i128::MAX as int,
        ;
    }
    while lo + 1 < hi
        invariant
            lo < hi <= 6000000000000u128,
            nn == n as u128,
            n >= 0,
            (lo as int) * (lo as int) * (lo as int) <= nn as int,
            (hi as int) * (hi as int) * (hi as int) > nn as int,
        decreases hi - lo,
    {
        let mid: u128 = lo + (hi - lo) / 2;
        proof {
            assert(lo < mid < hi);
            assert((mid as int) * (mid as int) <= u128::MAX as int) by (nonlinear_arith)
                requires
                    mid < 6000000000000u128,
            ;
            assert((mid as int) * (mid as int) * (mid as int) <= u128::MAX as int)
                by (nonlinear_arith)
                requires
                    mid < 6000000000000u128,
            ;
        }
        if mid * mid * mid <= nn {
            lo = mid;
        } else {
            hi = mid;
        }
    }
    proof {
        assert(((lo + 1) as int) * ((lo + 1) as int) * ((lo + 1) as int) > nn as int)
            by (nonlinear_arith)
            requires
                lo + 1 >= hi,
                hi >= 1,
                (hi as int) * (hi as int) * (hi as int) > nn as int,
        ;
        lemma_cbrt_unique(n as int, lo as int);
    }
    lo as i128
}

} // verus!
