//! Fixed-point arithmetic for the simulation.
//!
//! Every coordinate, velocity component and rule parameter is an `i64`
//! holding a fixed-point value with denominator [`SCALE`]: the stored
//! number `n` stands for the real quantity `n / SCALE`. The module gives
//! the truncating division and integer square root that the steering
//! rules are defined with, together with the magnitude bounds that keep
//! every intermediate product inside `i128`.

use vstd::prelude::*;

verus! {

/// Denominator of the fixed-point representation: one world unit is
/// `SCALE` stored units.
pub const SCALE: i64 = 1000;

/// Largest magnitude a stored coordinate may take; positions saturate
/// here during integration.
pub const COORD_MAX: i64 = 1_000_000_000_000;

/// Largest magnitude a stored rule parameter or velocity component may
/// take.
pub const PARAM_MAX: i64 = 1_000_000;

/// Largest magnitude a velocity component can reach while a single
/// update is still in flight, before the speed clamp restores the
/// [`PARAM_MAX`] bound.
pub const VEL_RAW_MAX: i64 = 4_000_000_000_000_000;

/// Most agents a world may hold.
pub const AGENTS_MAX: usize = 1_000_000;

/// Largest world width or height, in whole world units.
pub const DIM_MAX: u32 = 1_000_000;

/// Magnitude of an integer.
pub open spec fn sabs(n: int) -> int {
    if n >= 0 {
        n
    } else {
        -n
    }
}

/// Division that rounds toward zero, as machine integer division does.
pub open spec fn tdiv(n: int, d: int) -> int
    recommends
        d > 0,
{
    if n >= 0 {
        n / d
    } else {
        -((-n) / d)
    }
}

/// `r` is the integer square root of `s`, rounded down.
pub open spec fn is_isqrt(s: int, r: int) -> bool {
    &&& 0 <= r
    &&& r * r <= s
    &&& s < (r + 1) * (r + 1)
}

/// The integer square root of `s`, rounded down.
pub open spec fn isqrt(s: int) -> int {
    choose|r: int| is_isqrt(s, r)
}

/// The integer square root of `s`, rounded up.
pub open spec fn isqrt_up(s: int) -> int {
    if isqrt(s) * isqrt(s) == s {
        isqrt(s)
    } else {
        isqrt(s) + 1
    }
}

/// No number has two distinct rounded-down square roots.
pub proof fn lemma_isqrt_unique(s: int, r1: int, r2: int)
    requires
        is_isqrt(s, r1),
        is_isqrt(s, r2),
    ensures
        r1 == r2,
{
    assert(r1 == r2) by (nonlinear_arith)
        requires
            0 <= r1,
            r1 * r1 <= s,
            s < (r1 + 1) * (r1 + 1),
            0 <= r2,
            r2 * r2 <= s,
            s < (r2 + 1) * (r2 + 1),
    {
    }
}

/// Every non-negative number has a rounded-down square root, and
/// [`isqrt`] denotes it.
pub proof fn lemma_isqrt_exists(s: int)
    requires
        s >= 0,
    ensures
        is_isqrt(s, isqrt(s)),
    decreases s,
{
    if s == 0 {
        assert(is_isqrt(0, 0)) by (nonlinear_arith);
    } else {
        lemma_isqrt_exists(s - 1);
        let r = isqrt(s - 1);
        if (r + 1) * (r + 1) <= s {
            assert(is_isqrt(s, r + 1)) by (nonlinear_arith)
                requires
                    0 <= r,
                    r * r <= s - 1,
                    s - 1 < (r + 1) * (r + 1),
                    (r + 1) * (r + 1) <= s,
            {
            }
        } else {
            assert(is_isqrt(s, r));
        }
    }
}

/// The rounded-up square root squares to at least its argument, and one
/// less than it squares to strictly less.
pub proof fn lemma_isqrt_up_bounds(s: int)
    requires
        s >= 1,
    ensures
        isqrt_up(s) >= 1,
        isqrt_up(s) * isqrt_up(s) >= s,
        (isqrt_up(s) - 1) * (isqrt_up(s) - 1) < s,
{
    lemma_isqrt_exists(s);
    let r = isqrt(s);
    if r * r == s {
        assert(r >= 1) by (nonlinear_arith)
            requires
                0 <= r,
                r * r == s,
                s >= 1,
        {
        }
        assert((r - 1) * (r - 1) < r * r) by (nonlinear_arith)
            requires
                r >= 1,
        {
        }
    } else {
        assert((isqrt_up(s) - 1) * (isqrt_up(s) - 1) < s);
    }
}

/// Integer square root, rounded down, by bisection.
pub fn isqrt_u128(s: u128) -> (r: u128)
    requires
        (s as int) < 85070591730234615865843651857942052864,  // 2^126
    ensures
        is_isqrt(s as int, r as int),
        r as int == isqrt(s as int),
{
    let mut lo: u128 = 0;
    let mut hi: u128 = 9223372036854775808;  // 2^63
    assert(9223372036854775808 * 9223372036854775808
        == 85070591730234615865843651857942052864int) by (nonlinear_arith);
    while lo + 1 < hi
        invariant
            0 <= lo < hi <= 9223372036854775808,
            (lo as int) * (lo as int) <= s as int,
            (s as int) < (hi as int) * (hi as int),
        decreases hi - lo,
    {
        let mid: u128 = lo + (hi - lo) / 2;
        assert(lo < mid < hi);
        assert(mid * mid <= 85070591730234615865843651857942052864int) by (nonlinear_arith)
            requires
                0 <= mid <= 9223372036854775808,
        {
        }
        if mid * mid <= s {
            lo = mid;
        } else {
            hi = mid;
        }
    }
    proof {
        assert(is_isqrt(s as int, lo as int));
        lemma_isqrt_exists(s as int);
        lemma_isqrt_unique(s as int, lo as int, isqrt(s as int));
    }
    lo
}

/// Division of an `i128` by a positive `i128`, rounded toward zero.
pub fn tdiv_i128(n: i128, d: i128) -> (q: i128)
    requires
        d > 0,
        n > i128::MIN,
    ensures
        q as int == tdiv(n as int, d as int),
{
    if n >= 0 {
        let q: u128 = (n as u128) / (d as u128);
        proof {
            vstd::arithmetic::div_mod::lemma_div_nonincreasing(n as int, d as int);
            vstd::arithmetic::div_mod::lemma_div_is_ordered_by_denominator(n as int, 1, d as int);
        }
        q as i128
    } else {
        let m: i128 = -n;
        let q: u128 = (m as u128) / (d as u128);
        proof {
            vstd::arithmetic::div_mod::lemma_div_nonincreasing(m as int, d as int);
            vstd::arithmetic::div_mod::lemma_div_is_ordered_by_denominator(m as int, 1, d as int);
        }
        -(q as i128)
    }
}

/// Multiplying by a truncated quotient never exceeds the dividend in
/// magnitude: `|tdiv(n, d)| * d <= |n|`.
pub proof fn lemma_tdiv_mul_le(n: int, d: int)
    requires
        d > 0,
    ensures
        n >= 0 ==> 0 <= tdiv(n, d) && tdiv(n, d) * d <= n,
        n < 0 ==> tdiv(n, d) <= 0 && tdiv(n, d) * d >= n,
{
    if n >= 0 {
        let q = n / d;
        vstd::arithmetic::div_mod::lemma_fundamental_div_mod(n, d);
        vstd::arithmetic::div_mod::lemma_div_pos_is_pos(n, d);
        vstd::arithmetic::div_mod::lemma_mod_bound(n, d);
        assert(q * d == d * q) by (nonlinear_arith);
    } else {
        let q = (-n) / d;
        vstd::arithmetic::div_mod::lemma_fundamental_div_mod(-n, d);
        vstd::arithmetic::div_mod::lemma_div_pos_is_pos(-n, d);
        vstd::arithmetic::div_mod::lemma_mod_bound(-n, d);
        assert(q * d == d * q) by (nonlinear_arith);
        assert((-q) * d == -(q * d)) by (nonlinear_arith);
    }
}

/// The loss of a truncated quotient is below one divisor:
/// `|n| - (d - 1) <= |tdiv(n, d)| * d`.
pub proof fn lemma_tdiv_mul_ge(n: int, d: int)
    requires
        d > 0,
    ensures
        n >= 0 ==> tdiv(n, d) * d >= n - (d - 1),
        n < 0 ==> tdiv(n, d) * d <= n + (d - 1),
{
    if n >= 0 {
        let q = n / d;
        vstd::arithmetic::div_mod::lemma_fundamental_div_mod(n, d);
        vstd::arithmetic::div_mod::lemma_mod_bound(n, d);
        assert(q * d == d * q) by (nonlinear_arith);
    } else {
        let q = (-n) / d;
        vstd::arithmetic::div_mod::lemma_fundamental_div_mod(-n, d);
        vstd::arithmetic::div_mod::lemma_mod_bound(-n, d);
        assert(q * d == d * q) by (nonlinear_arith);
        assert((-q) * d == -(q * d)) by (nonlinear_arith);
    }
}

/// A truncated quotient is bounded by any bound on the exact quotient:
/// if `|n| <= b * d` then `|tdiv(n, d)| <= b`.
pub proof fn lemma_tdiv_bound(n: int, d: int, b: int)
    requires
        d > 0,
        b >= 0,
        -(b * d) <= n <= b * d,
    ensures
        -b <= tdiv(n, d) <= b,
{
    lemma_tdiv_mul_le(n, d);
    if n >= 0 {
        assert(tdiv(n, d) <= b) by (nonlinear_arith)
            requires
                d > 0,
                b >= 0,
                tdiv(n, d) * d <= n,
                n <= b * d,
                tdiv(n, d) >= 0,
        {
        }
    } else {
        assert(-b <= tdiv(n, d)) by (nonlinear_arith)
            requires
                d > 0,
                b >= 0,
                tdiv(n, d) * d >= n,
                -(b * d) <= n,
                tdiv(n, d) <= 0,
        {
        }
    }
}

} // verus!
