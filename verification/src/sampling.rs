//! Smoothed sampling of a series at a fractional position.
//!
//! `sample_windowed` reads a series at a position given as a fraction
//! of its length, either by plain linear interpolation or, for wider
//! windows, by a Gaussian-weighted mean around the position. The
//! Gaussian weight is a fixed-point approximation: a cubic polynomial
//! on each unit interval, scaled by `e^{-1} ~ 368/1000` per whole
//! unit of the exponent.

use crate::math::{clamp64, lerp64, rdiv64, spec_clamp, spec_lerp, spec_rdiv, SCALE, VAL_LIMIT};
use vstd::prelude::*;

verus! {

/// About `1000 * e^{-r/1000}` for `r` in `[0, 1000]`: a clamped cubic
/// Taylor polynomial.
pub open spec fn spec_exp_unit(r: int) -> int {
    spec_clamp(
        1000 - r + spec_rdiv(r * r, 2000) - spec_rdiv(r * r * r, 6_000_000),
        0,
        1000,
    )
}

/// `v` scaled by `e^{-1} ~ 368/1000`, `k` times.
pub open spec fn spec_exp_steps(v: int, k: int) -> int
    decreases k,
{
    if k <= 0 {
        v
    } else {
        spec_exp_steps(spec_rdiv(v * 368, 1000), k - 1)
    }
}

/// About `1000 * e^{-x/1000}` for `x >= 0`; zero from 14 units on.
pub open spec fn spec_exp_decay(x: int) -> int {
    if x >= 14_000 {
        0
    } else {
        spec_exp_steps(spec_exp_unit(x % 1000), x / 1000)
    }
}

/// Scaling by `368/1000` keeps a value within `[0, 1000]`.
proof fn lemma_exp_step_bounds(v: int)
    requires
        0 <= v <= 1000,
    ensures
        0 <= spec_rdiv(v * 368, 1000) <= 1000,
{
    crate::math::lemma_rdiv_bounds(v * 368, 1000);
    assert(v * 368 + 500 < 1000 * 1001) by (nonlinear_arith)
        requires
            0 <= v <= 1000,
    ;
    vstd::arithmetic::div_mod::lemma_multiply_divide_lt(v * 368 + 500, 1000, 1001);
}

/// The scaled-down exponential stays within `[0, 1000]`.
pub proof fn lemma_exp_steps_bounds(v: int, k: int)
    requires
        0 <= v <= 1000,
    ensures
        0 <= spec_exp_steps(v, k) <= 1000,
    decreases k,
{
    if k > 0 {
        lemma_exp_step_bounds(v);
        lemma_exp_steps_bounds(spec_rdiv(v * 368, 1000), k - 1);
    }
}

/// The decaying exponential stays within `[0, 1000]`.
pub proof fn lemma_exp_decay_bounds(x: int)
    requires
        0 <= x,
    ensures
        0 <= spec_exp_decay(x) <= 1000,
{
    if x < 14_000 {
        vstd::arithmetic::div_mod::lemma_mod_division_less_than_divisor(x, 1000);
        vstd::arithmetic::div_mod::lemma_mod_bound(x, 1000);
        lemma_exp_steps_bounds(spec_exp_unit(x % 1000), x / 1000);
    }
}

/// About `1000 * e^{-x/1000}` for a non-negative fixed-point `x`.
pub fn exp_decay(x: i64) -> (r: i64)
    requires
        0 <= x,
    ensures
        r == spec_exp_decay(x as int),
        0 <= r <= 1000,
{
    proof {
        lemma_exp_decay_bounds(x as int);
    }
    if x >= 14_000 {
        return 0;
    }
    let xu: u64 = x as u64;
    let k: u64 = xu / 1000;
    let rm: i64 = (xu % 1000) as i64;
    proof {
        vstd::arithmetic::div_mod::lemma_mod_bound(x as int, 1000);
        assert(0 <= rm * rm <= 1_000_000 && 0 <= rm * rm * rm <= 1_000_000_000)
            by (nonlinear_arith)
            requires
                0 <= rm <= 999,
        ;
        crate::math::lemma_rdiv_bounds(rm as int * rm as int, 2000);
        crate::math::lemma_rdiv_bounds(rm as int * rm as int * rm as int, 6_000_000);
    }
    let cubic: i64 = 1000 - rm + rdiv64(rm * rm, 2000) - rdiv64(rm * rm * rm, 6_000_000);
    let mut v: i64 = clamp64(cubic, 0, 1000);
    let mut j: u64 = 0;
    while j < k
        invariant
            0 <= v <= 1000,
            0 <= j <= k,
            spec_exp_steps(v as int, k - j) == spec_exp_steps(spec_exp_unit(x as int % 1000), k as int),
        decreases k - j,
    {
        proof {
            lemma_exp_step_bounds(v as int);
        }
        v = rdiv64(v * 368, 1000);
        j += 1;
    }
    v
}

/// The smoothing width in milli-samples: a fraction of the series
/// when at most one unit, an absolute sample count beyond that;
/// negative widths count as none.
pub open spec fn spec_window_samples(window: int, n: int) -> int {
    if window <= SCALE {
        (if window < 0 {
            0int
        } else {
            window
        }) * n
    } else {
        window
    }
}

/// The Gaussian weight of series index `i` for a read centered at
/// milli-index `pos` with width `sigma` milli-samples.
pub open spec fn spec_gauss_weight(pos: int, sigma: int, i: int) -> int {
    let dx = i * 1000 - pos;
    spec_exp_decay(spec_rdiv(dx * dx * 1000, 2 * sigma * sigma))
}

/// The total Gaussian weight over indices `[start, end]`.
pub open spec fn spec_gauss_wsum(pos: int, sigma: int, start: int, end: int) -> int
    decreases end - start + 1,
{
    if start > end {
        0
    } else {
        spec_gauss_weight(pos, sigma, end) + spec_gauss_wsum(pos, sigma, start, end - 1)
    }
}

/// The Gaussian-weighted sum of `v` over indices `[start, end]`.
pub open spec fn spec_gauss_vsum(v: Seq<i64>, pos: int, sigma: int, start: int, end: int) -> int
    decreases end - start + 1,
{
    if start > end {
        0
    } else {
        spec_gauss_weight(pos, sigma, end) * (v[end] as int) + spec_gauss_vsum(v, pos, sigma, start, end - 1)
    }
}

/// The series read at the fraction `factor` with smoothing width
/// `window`: zero when empty, the sole element when singleton, linear
/// interpolation for a narrow window, and otherwise the
/// Gaussian-weighted mean around the position.
pub open spec fn spec_sample_windowed(v: Seq<i64>, factor: int, window: int) -> int {
    let n = v.len() as int;
    if n == 0 {
        0
    } else if n == 1 {
        v[0] as int
    } else {
        let f = spec_clamp(factor, 0, SCALE as int);
        let pos = f * (n - 1);
        let win = spec_window_samples(window, n);
        if win <= 500 {
            let i0 = pos / 1000;
            let i1 = if i0 + 1 < n {
                i0 + 1
            } else {
                n - 1
            };
            spec_lerp(v[i0] as int, v[i1] as int, pos - i0 * 1000)
        } else {
            let radius = (win + 1999) / 2000;
            let sigma = (if win / 2 >= 1000 {
                win / 2
            } else {
                1000int
            }) / 3;
            let start = if pos / 1000 - radius >= 0 {
                pos / 1000 - radius
            } else {
                0
            };
            let end = if (pos + 999) / 1000 + radius <= n - 1 {
                (pos + 999) / 1000 + radius
            } else {
                n - 1
            };
            let wsum = spec_gauss_wsum(pos, sigma, start, end);
            if wsum > 0 {
                spec_rdiv(spec_gauss_vsum(v, pos, sigma, start, end), wsum)
            } else {
                0
            }
        }
    }
}

/// Reads `vector` at the position `factor` (a fraction of the series
/// in thousandths), smoothing over about `window` around it.
pub fn sample_windowed(vector: &Vec<i64>, factor: i64, window: i64) -> (r: i64)
    requires
        vector@.len() <= 100_000,
        forall|i: int| 0 <= i < vector@.len() ==> -VAL_LIMIT <= #[trigger] vector@[i] <= VAL_LIMIT,
        window <= 1_000_000,
    ensures
        r == spec_sample_windowed(vector@, factor as int, window as int),
        -VAL_LIMIT <= r <= VAL_LIMIT,
{
    let n: usize = vector.len();
    if n == 0 {
        return 0;
    }
    if n == 1 {
        return vector[0];
    }
    let f: i64 = clamp64(factor, 0, SCALE);
    proof {
        assert(0 <= f * ((n - 1) as int) <= 1000 * 100_000 && (f <= 1000 && (n - 1) as int <= (
        100_000 - 1) as int ==> f * ((n - 1) as int) <= 1000 * (n - 1))) by (nonlinear_arith)
            requires
                0 <= f <= 1000 && 1 <= (n - 1) as int <= 100_000,
        ;
    }
    let pos: i64 = f * ((n - 1) as i64);
    let win: i64 = if window <= SCALE {
        let clamped: i64 = if window < 0 {
            0
        } else {
            window
        };
        proof {
            assert(0 <= clamped * (n as int) <= 1000 * 100_000) by (nonlinear_arith)
                requires
                    0 <= clamped <= 1000 && 0 <= n as int <= 100_000,
            ;
        }
        clamped * (n as i64)
    } else {
        window
    };
    if win <= 500 {
        let i0: usize = ((pos as u64) / 1000) as usize;
        proof {
            assert(0 <= pos / 1000 < n) by {
                assert(0 <= pos <= 1000 * (n - 1));
                vstd::arithmetic::div_mod::lemma_div_pos_is_pos(pos as int, 1000);
                vstd::arithmetic::div_mod::lemma_multiply_divide_lt(pos as int, 1000, n as int);
            }
        }
        let i1: usize = if i0 + 1 < n {
            i0 + 1
        } else {
            n - 1
        };
        let t: i64 = pos - (i0 as i64) * 1000;
        proof {
            vstd::arithmetic::div_mod::lemma_fundamental_div_mod(pos as int, 1000);
            vstd::arithmetic::div_mod::lemma_mod_division_less_than_divisor(pos as int, 1000);
            vstd::arithmetic::div_mod::lemma_mod_bound(pos as int, 1000);
            crate::color::lemma_lerp_between(vector@[i0 as int] as int, vector@[i1 as int] as int, t as int);
        }
        return lerp64(vector[i0], vector[i1], t);
    }
    let radius: i64 = (((win as u64) + 1999) / 2000) as i64;
    let based: u64 = if (win as u64) / 2 >= 1000 {
        (win as u64) / 2
    } else {
        1000
    };
    let sigma: i64 = (based / 3) as i64;
    let floor_pos: i64 = ((pos as u64) / 1000) as i64;
    let ceil_pos: i64 = (((pos as u64) + 999) / 1000) as i64;
    let start: i64 = if floor_pos - radius >= 0 {
        floor_pos - radius
    } else {
        0
    };
    let end: i64 = if ceil_pos + radius <= (n - 1) as i64 {
        ceil_pos + radius
    } else {
        (n - 1) as i64
    };
    proof {
        vstd::arithmetic::div_mod::lemma_div_pos_is_pos(pos as int, 1000);
        vstd::arithmetic::div_mod::lemma_div_nonincreasing(pos as int, 1000);
        vstd::arithmetic::div_mod::lemma_div_pos_is_pos(pos as int + 999, 1000);
        vstd::arithmetic::div_mod::lemma_div_nonincreasing(pos as int + 999, 1000);
        vstd::arithmetic::div_mod::lemma_div_pos_is_pos(win as int + 1999, 2000);
        vstd::arithmetic::div_mod::lemma_fundamental_div_mod(pos as int, 1000);
        vstd::arithmetic::div_mod::lemma_mod_bound(pos as int, 1000);
        vstd::arithmetic::div_mod::lemma_fundamental_div_mod(pos as int + 999, 1000);
        vstd::arithmetic::div_mod::lemma_mod_bound(pos as int + 999, 1000);
        assert((win as int + 1999) / 2000 <= 50_001) by {
            vstd::arithmetic::div_mod::lemma_multiply_divide_lt(win as int + 1999, 2000, 50_002);
        }
        assert(floor_pos * 1000 <= pos);
        assert(ceil_pos * 1000 <= pos + 999);
    }
    if start > end {
        return 0;
    }
    let mut wsum: i64 = 0;
    let mut vsum: i64 = 0;
    let mut i: i64 = start;
    while i <= end
        invariant
            n == vector@.len(),
            2 <= n <= 100_000,
            forall|j: int| 0 <= j < vector@.len() ==> -VAL_LIMIT <= #[trigger] vector@[j]
                <= VAL_LIMIT,
            0 <= start <= i <= end + 1,
            end < n,
            0 <= pos <= 1000 * (n - 1),
            1 <= sigma <= 200_000_000,
            1 <= radius <= 50_001,
            start as int * 1000 >= pos - (radius * 1000 + 2000),
            end as int * 1000 <= pos + (radius * 1000 + 2000),
            wsum == spec_gauss_wsum(pos as int, sigma as int, start as int, i - 1),
            vsum == spec_gauss_vsum(vector@, pos as int, sigma as int, start as int, i - 1),
            0 <= wsum <= (i - start) * 1000,
            -wsum * VAL_LIMIT <= vsum <= wsum * VAL_LIMIT,
        decreases end + 1 - i,
    {
        let dx: i64 = i * 1000 - pos;
        proof {
            assert(-52_010_000 <= dx <= 52_010_000);
            assert(0 <= dx * dx <= 52_010_000 * 52_010_000) by (nonlinear_arith)
                requires
                    -52_010_000 <= dx <= 52_010_000,
            ;
            assert(dx * dx * 1000 <= 52_010_000 * 52_010_000 * 1000) by (nonlinear_arith)
                requires
                    0 <= dx * dx <= 52_010_000 * 52_010_000,
            ;
            assert(2 <= 2 * sigma * sigma <= 2 * 200_000_000 * 200_000_000) by (nonlinear_arith)
                requires
                    1 <= sigma <= 200_000_000,
            ;
        }
        let exponent: i64 = rdiv64(dx * dx * 1000, 2 * sigma * sigma);
        proof {
            crate::math::lemma_rdiv_bounds(dx as int * dx as int * 1000, 2 * sigma as int
                * sigma as int);
        }
        let w: i64 = exp_decay(exponent);
        let value: i64 = vector[i as usize];
        wsum = wsum + w;
        proof {
            assert(-1000 * VAL_LIMIT <= w * value <= 1000 * VAL_LIMIT && (0 <= w <= 1000
                && -VAL_LIMIT <= value <= VAL_LIMIT ==> -w * VAL_LIMIT <= w * value <= w
                * VAL_LIMIT)) by (nonlinear_arith)
                requires
                    0 <= w <= 1000 && -VAL_LIMIT <= value <= VAL_LIMIT,
            ;
        }
        vsum = vsum + w * value;
        i += 1;
        proof {
            assert(wsum == spec_gauss_wsum(pos as int, sigma as int, start as int, i - 1));
            assert(vsum == spec_gauss_vsum(vector@, pos as int, sigma as int, start as int, i
                - 1));
        }
    }
    if wsum > 0 {
        proof {
            crate::math::lemma_rdiv_bounds(
                if vsum >= 0 {
                    vsum as int
                } else {
                    -vsum as int
                },
                wsum as int,
            );
            if vsum >= 0 {
                assert(vsum + wsum / 2 < wsum * (VAL_LIMIT + 1)) by (nonlinear_arith)
                    requires
                        0 <= vsum <= wsum * VAL_LIMIT && 1 <= wsum,
                ;
                vstd::arithmetic::div_mod::lemma_multiply_divide_lt(
                    vsum as int + wsum as int / 2,
                    wsum as int,
                    VAL_LIMIT as int + 1,
                );
            } else {
                assert(-vsum + wsum / 2 < wsum * (VAL_LIMIT + 1)) by (nonlinear_arith)
                    requires
                        -(wsum * VAL_LIMIT) <= vsum < 0 && 1 <= wsum,
                ;
                vstd::arithmetic::div_mod::lemma_multiply_divide_lt(
                    -vsum as int + wsum as int / 2,
                    wsum as int,
                    VAL_LIMIT as int + 1,
                );
            }
        }
        rdiv64(vsum, wsum)
    } else {
        0
    }
}

} // verus!
