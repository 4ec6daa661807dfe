//! Fixed-point arithmetic helpers shared by the whole engine.
//!
//! Scalars are `i64` values holding thousandths of a unit (`SCALE`
//! fractional steps per unit). Division rounds to the nearest step,
//! halves away from zero.

use vstd::prelude::*;

verus! {

/// Fractional steps per unit: a scalar of `1000` is one unit.
pub const SCALE: i64 = 1000;

/// Largest magnitude allowed for color components, opacities,
/// spectrum magnitudes and other unit-like scalars.
pub const VAL_LIMIT: i64 = 1_000_000_000;

/// Largest magnitude allowed for spatial coordinates.
pub const POS_LIMIT: i64 = 10_000_000;

/// Largest magnitude allowed for times and durations.
pub const TIME_LIMIT: i64 = 1_000_000_000;

/// Division of `n` by `d`, rounded to the nearest integer with
/// halves away from zero.
pub open spec fn spec_rdiv(n: int, d: int) -> int
    recommends
        d > 0,
{
    if n >= 0 {
        (n + d / 2) / d
    } else {
        -(((-n) + d / 2) / d)
    }
}

/// `v` forced into `[lo, hi]`.
pub open spec fn spec_clamp(v: int, lo: int, hi: int) -> int
    recommends
        lo <= hi,
{
    if v < lo {
        lo
    } else if v > hi {
        hi
    } else {
        v
    }
}

/// Linear interpolation from `a` to `b` by the fraction `t / SCALE`.
pub open spec fn spec_lerp(a: int, b: int, t: int) -> int {
    a + spec_rdiv((b - a) * t, SCALE as int)
}

proof fn lemma_div_pos_bounds(n: int, d: int)
    requires
        0 <= n,
        1 <= d,
    ensures
        0 <= n / d <= n,
{
    vstd::arithmetic::div_mod::lemma_div_pos_is_pos(n, d);
    vstd::arithmetic::div_mod::lemma_div_nonincreasing(n, d);
}

/// Rounded division stays within `[0, n]` for non-negative `n`.
pub proof fn lemma_rdiv_bounds(n: int, d: int)
    requires
        0 <= n,
        1 <= d,
    ensures
        0 <= spec_rdiv(n, d) <= n,
{
    lemma_div_pos_bounds(n + d / 2, d);
    assert(n + d / 2 < d * (n + 1)) by (nonlinear_arith)
        requires
            0 <= n && 1 <= d,
    ;
    vstd::arithmetic::div_mod::lemma_multiply_divide_lt(n + d / 2, d, n + 1);
}

/// Rounded division of `n` by `d` with halves away from zero.
pub fn rdiv64(n: i64, d: i64) -> (r: i64)
    requires
        1 <= d <= 0x4000_0000_0000_0000,
        -0x4000_0000_0000_0000 <= n <= 0x4000_0000_0000_0000,
    ensures
        r == spec_rdiv(n as int, d as int),
{
    let du: u64 = d as u64;
    if n >= 0 {
        let nu: u64 = n as u64;
        let q: u64 = (nu + du / 2) / du;
        proof {
            lemma_div_pos_bounds(n + d / 2, d as int);
        }
        q as i64
    } else {
        let m: u64 = (-n) as u64;
        let q: u64 = (m + du / 2) / du;
        proof {
            lemma_div_pos_bounds(-n + d / 2, d as int);
        }
        -(q as i64)
    }
}

/// `v` forced into `[lo, hi]`.
pub fn clamp64(v: i64, lo: i64, hi: i64) -> (r: i64)
    requires
        lo <= hi,
    ensures
        r == spec_clamp(v as int, lo as int, hi as int),
{
    if v < lo {
        lo
    } else if v > hi {
        hi
    } else {
        v
    }
}

/// Linear interpolation from `a` to `b` by the fraction `t / SCALE`,
/// for operands small enough that the intermediate product fits.
pub fn lerp64(a: i64, b: i64, t: i64) -> (r: i64)
    requires
        -0x2_0000_0000_0000 <= a <= 0x2_0000_0000_0000,
        -0x2_0000_0000_0000 <= b <= 0x2_0000_0000_0000,
        -0x1000 <= t <= 0x1000,
    ensures
        r == spec_lerp(a as int, b as int, t as int),
{
    let diff: i64 = b - a;
    proof {
        assert(-0x4000_0000_0000_0000 <= diff * t <= 0x4000_0000_0000_0000) by (nonlinear_arith)
            requires
                -0x4_0000_0000_0000 <= diff <= 0x4_0000_0000_0000 && -0x1000 <= t <= 0x1000,
        ;
    }
    let scaled: i64 = rdiv64(diff * t, SCALE);
    proof {
        if diff * t >= 0 {
            lemma_rdiv_bounds(diff * t, SCALE as int);
        } else {
            lemma_rdiv_bounds(-(diff * t), SCALE as int);
        }
    }
    a + scaled
}

/// Interpolating by a zero fraction returns the first endpoint.
pub proof fn lemma_lerp_zero(a: int, b: int)
    ensures
        spec_lerp(a, b, 0) == a,
{
    assert((b - a) * 0 == 0);
    lemma_rdiv_bounds(0, SCALE as int);
}

/// Interpolating by a full fraction returns the second endpoint.
pub proof fn lemma_lerp_full(a: int, b: int)
    ensures
        spec_lerp(a, b, SCALE as int) == b,
{
    let d = b - a;
    if d >= 0 {
        assert((d * SCALE + SCALE / 2) / (SCALE as int) == d + (SCALE as int / 2) / (
        SCALE as int)) by {
            vstd::arithmetic::div_mod::lemma_hoist_over_denominator(
                SCALE as int / 2,
                d,
                SCALE as nat,
            );
        }
        assert((SCALE as int / 2) / (SCALE as int) == 0) by {
            vstd::arithmetic::div_mod::lemma_basic_div(SCALE as int / 2, SCALE as int);
        }
    } else {
        assert(-(d * SCALE) == (-d) * SCALE) by (nonlinear_arith);
        assert(((-d) * SCALE + SCALE / 2) / (SCALE as int) == -d + (SCALE as int / 2) / (
        SCALE as int)) by {
            vstd::arithmetic::div_mod::lemma_hoist_over_denominator(
                SCALE as int / 2,
                -d,
                SCALE as nat,
            );
        }
        assert((SCALE as int / 2) / (SCALE as int) == 0) by {
            vstd::arithmetic::div_mod::lemma_basic_div(SCALE as int / 2, SCALE as int);
        }
    }
}

/// The integer square root: the largest `r` with `r * r <= x`.
pub open spec fn spec_isqrt(x: nat) -> nat
    decreases x,
{
    if x == 0 {
        0
    } else {
        let r = spec_isqrt((x - 1) as nat);
        if (r + 1) * (r + 1) <= x {
            r + 1
        } else {
            r
        }
    }
}

/// The integer square root is bracketed by the two neighbouring squares.
pub proof fn lemma_isqrt_bounds(x: nat)
    ensures
        spec_isqrt(x) * spec_isqrt(x) <= x,
        x < (spec_isqrt(x) + 1) * (spec_isqrt(x) + 1),
    decreases x,
{
    if x == 0 {
        assert(spec_isqrt(0) == 0);
        assert(0 < (0 + 1) * (0 + 1)) by (nonlinear_arith);
    } else {
        lemma_isqrt_bounds((x - 1) as nat);
        let r = spec_isqrt((x - 1) as nat);
        if (r + 1) * (r + 1) <= x {
            assert(spec_isqrt(x) == r + 1);
            assert(x - 1 < (r + 1) * (r + 1));
            assert(x == (r + 1) * (r + 1));
            assert((r + 1) * (r + 1) < (r + 2) * (r + 2)) by (nonlinear_arith)
                requires
                    r >= 0,
            ;
            assert(spec_isqrt(x) * spec_isqrt(x) <= x);
            assert(x < (spec_isqrt(x) + 1) * (spec_isqrt(x) + 1));
        } else {
            assert(spec_isqrt(x) == r);
            assert(spec_isqrt(x) * spec_isqrt(x) <= x);
            assert(x < (spec_isqrt(x) + 1) * (spec_isqrt(x) + 1));
        }
    }
}

/// Any value bracketed by two neighbouring squares is the integer
/// square root.
pub proof fn lemma_isqrt_unique(x: nat, r: nat)
    requires
        r * r <= x,
        x < (r + 1) * (r + 1),
    ensures
        r == spec_isqrt(x),
{
    lemma_isqrt_bounds(x);
    let s = spec_isqrt(x);
    if r < s {
        assert((r + 1) * (r + 1) <= s * s) by (nonlinear_arith)
            requires
                r + 1 <= s,
        ;
    }
    if s < r {
        assert((s + 1) * (s + 1) <= r * r) by (nonlinear_arith)
            requires
                s + 1 <= r,
        ;
    }
}

/// The integer square root: the largest `r` with `r * r <= x`.
pub fn isqrt64(x: u64) -> (r: u64)
    requires
        x < 0x100_0000_0000_0000,
    ensures
        r * r <= x < (r + 1) * (r + 1),
        r == spec_isqrt(x as nat),
        r < 0x1000_0000,
{
    let mut lo: u64 = 0;
    let mut hi: u64 = 0x1000_0000;
    while lo + 1 < hi
        invariant
            lo < hi <= 0x1000_0000,
            lo * lo <= x,
            x < hi * hi,
        decreases hi - lo,
    {
        let mid: u64 = lo + (hi - lo) / 2;
        proof {
            assert(mid * mid <= 0x1000_0000 * 0x1000_0000) by (nonlinear_arith)
                requires
                    0 <= mid <= 0x1000_0000,
            ;
        }
        if mid * mid <= x {
            lo = mid;
        } else {
            hi = mid;
        }
    }
    proof {
        lemma_isqrt_unique(x as nat, lo as nat);
    }
    lo
}

} // verus!
