//! Linear-RGBA colors and the per-track blending kernels.
//!
//! Components hold thousandths of a unit: full brightness is `SCALE`.
//! `Mix`, `Add`, `Subtract` and `Multiply` act per component; `Add`,
//! `Subtract` and `Multiply` saturate at `VAL_LIMIT` so that blending
//! never leaves the representable range.

use crate::math::{
    clamp64, lerp64, rdiv64, spec_clamp, spec_lerp, spec_rdiv, SCALE, VAL_LIMIT,
};
use vstd::prelude::*;

verus! {

/// A linear-RGBA color in fixed-point thousandths.
#[derive(Clone, Copy, Debug, PartialEq, Eq, Structural)]
pub struct Color {
    pub red: i64,
    pub green: i64,
    pub blue: i64,
    pub alpha: i64,
}

/// How one track's colors are folded into the colors beneath it.
#[derive(Clone, Copy, Debug, PartialEq, Eq, Structural)]
pub enum ColorBlendingMode {
    Add,
    Mix,
    Subtract,
    Multiply,
}

impl Color {
    /// Every component is within the representable range.
    pub open spec fn in_range(self) -> bool {
        &&& -VAL_LIMIT <= self.red <= VAL_LIMIT
        &&& -VAL_LIMIT <= self.green <= VAL_LIMIT
        &&& -VAL_LIMIT <= self.blue <= VAL_LIMIT
        &&& -VAL_LIMIT <= self.alpha <= VAL_LIMIT
    }

    /// The fully transparent zero color.
    pub fn none() -> (c: Color)
        ensures
            c == spec_none(),
    {
        Color { red: 0, green: 0, blue: 0, alpha: 0 }
    }

    /// Opaque black.
    pub fn black() -> (c: Color)
        ensures
            c == spec_black(),
    {
        Color { red: 0, green: 0, blue: 0, alpha: SCALE }
    }

    /// Opaque white.
    pub fn white() -> (c: Color)
        ensures
            c == spec_white(),
    {
        Color { red: SCALE, green: SCALE, blue: SCALE, alpha: SCALE }
    }
}

/// The fully transparent zero color.
pub open spec fn spec_none() -> Color {
    Color { red: 0, green: 0, blue: 0, alpha: 0 }
}

/// Opaque black.
pub open spec fn spec_black() -> Color {
    Color { red: 0, green: 0, blue: 0, alpha: SCALE as int as i64 }
}

/// Opaque white.
pub open spec fn spec_white() -> Color {
    Color {
        red: SCALE as int as i64,
        green: SCALE as int as i64,
        blue: SCALE as int as i64,
        alpha: SCALE as int as i64,
    }
}

/// One `Mix` component: linear interpolation from `a` to `b`.
pub open spec fn spec_mix_component(a: int, b: int, factor: int) -> int {
    spec_lerp(a, b, factor)
}

/// One `Add` component: `a + b * factor`, saturated.
pub open spec fn spec_add_component(a: int, b: int, factor: int) -> int {
    spec_clamp(a + spec_rdiv(b * factor, SCALE as int), -VAL_LIMIT as int, VAL_LIMIT as int)
}

/// One `Subtract` component: `a - b * factor`, saturated.
pub open spec fn spec_subtract_component(a: int, b: int, factor: int) -> int {
    spec_clamp(a - spec_rdiv(b * factor, SCALE as int), -VAL_LIMIT as int, VAL_LIMIT as int)
}

/// One `Multiply` component: interpolation from `a` toward `a * b`.
pub open spec fn spec_multiply_component(a: int, b: int, factor: int) -> int {
    spec_lerp(
        a,
        spec_clamp(spec_rdiv(a * b, SCALE as int), -VAL_LIMIT as int, VAL_LIMIT as int),
        factor,
    )
}

/// One component blended under `mode`.
pub open spec fn spec_blend_component(a: int, b: int, factor: int, mode: ColorBlendingMode) -> int {
    match mode {
        ColorBlendingMode::Mix => spec_mix_component(a, b, factor),
        ColorBlendingMode::Add => spec_add_component(a, b, factor),
        ColorBlendingMode::Subtract => spec_subtract_component(a, b, factor),
        ColorBlendingMode::Multiply => spec_multiply_component(a, b, factor),
    }
}

/// `b` blended over `a` under `mode` by `factor`, per component.
pub open spec fn spec_blend(a: Color, b: Color, factor: int, mode: ColorBlendingMode) -> Color {
    Color {
        red: spec_blend_component(a.red as int, b.red as int, factor, mode) as i64,
        green: spec_blend_component(a.green as int, b.green as int, factor, mode) as i64,
        blue: spec_blend_component(a.blue as int, b.blue as int, factor, mode) as i64,
        alpha: spec_blend_component(a.alpha as int, b.alpha as int, factor, mode) as i64,
    }
}

/// One blended component stays in range when its inputs are.
pub proof fn lemma_blend_component_in_range(a: int, b: int, factor: int, mode: ColorBlendingMode)
    requires
        -VAL_LIMIT <= a <= VAL_LIMIT,
        -VAL_LIMIT <= b <= VAL_LIMIT,
        0 <= factor <= SCALE,
    ensures
        -VAL_LIMIT <= spec_blend_component(a, b, factor, mode) <= VAL_LIMIT,
{
    lemma_lerp_between(a, b, factor);
    match mode {
        ColorBlendingMode::Mix => {},
        ColorBlendingMode::Add => {},
        ColorBlendingMode::Subtract => {},
        ColorBlendingMode::Multiply => {
            let m = spec_clamp(spec_rdiv(a * b, SCALE as int), -VAL_LIMIT as int, VAL_LIMIT as int);
            lemma_lerp_between(a, m, factor);
        },
    }
}

/// Interpolating with a fraction in `[0, 1]` lands between the two
/// endpoints.
pub proof fn lemma_lerp_between(a: int, b: int, t: int)
    requires
        0 <= t <= SCALE,
    ensures
        a <= b ==> a <= spec_lerp(a, b, t) <= b,
        b <= a ==> b <= spec_lerp(a, b, t) <= a,
{
    if a <= b {
        crate::math::lemma_rdiv_bounds((b - a) * t, SCALE as int);
        assert((b - a) * t <= (b - a) * SCALE) by (nonlinear_arith)
            requires
                0 <= t <= SCALE && 0 <= b - a,
        ;
        assert(spec_rdiv((b - a) * t, SCALE as int) <= b - a) by {
            if spec_rdiv((b - a) * t, SCALE as int) > b - a {
                assert((b - a) * t + SCALE / 2 < SCALE * ((b - a) + 1)) by (nonlinear_arith)
                    requires
                        (b - a) * t <= (b - a) * SCALE && 0 <= b - a,
                ;
                vstd::arithmetic::div_mod::lemma_multiply_divide_lt(
                    (b - a) * t + SCALE as int / 2,
                    SCALE as int,
                    b - a + 1,
                );
            }
        }
    } else {
        let n = (b - a) * t;
        assert((b - a) * t <= 0) by (nonlinear_arith)
            requires
                b - a < 0 && 0 <= t,
        ;
        crate::math::lemma_rdiv_bounds(-n, SCALE as int);
        assert(-((b - a) * t) <= (a - b) * SCALE) by (nonlinear_arith)
            requires
                0 <= t <= SCALE && 0 < a - b,
        ;
        assert(spec_rdiv(-n, SCALE as int) <= a - b) by {
            if spec_rdiv(-n, SCALE as int) > a - b {
                assert(-((b - a) * t) + SCALE / 2 < SCALE * ((a - b) + 1)) by (nonlinear_arith)
                    requires
                        -((b - a) * t) <= (a - b) * SCALE && 0 < a - b,
                ;
                vstd::arithmetic::div_mod::lemma_multiply_divide_lt(
                    -n + SCALE as int / 2,
                    SCALE as int,
                    a - b + 1,
                );
            }
        }
    }
}

fn scaled_term(b: i64, factor: i64) -> (r: i64)
    requires
        -VAL_LIMIT <= b <= VAL_LIMIT,
        0 <= factor <= SCALE,
    ensures
        r == spec_rdiv(b as int * factor as int, SCALE as int),
        -VAL_LIMIT <= r <= VAL_LIMIT,
{
    proof {
        assert(-0x4000_0000_0000_0000 <= b * factor <= 0x4000_0000_0000_0000) by (nonlinear_arith)
            requires
                -VAL_LIMIT <= b <= VAL_LIMIT && 0 <= factor <= SCALE,
        ;
        assert(-(VAL_LIMIT * SCALE) <= b * factor <= VAL_LIMIT * SCALE) by (nonlinear_arith)
            requires
                -VAL_LIMIT <= b <= VAL_LIMIT && 0 <= factor <= SCALE,
        ;
        if b * factor >= 0 {
            crate::math::lemma_rdiv_bounds(b as int * factor as int, SCALE as int);
            vstd::arithmetic::div_mod::lemma_multiply_divide_lt(
                b as int * factor as int + SCALE as int / 2,
                SCALE as int,
                VAL_LIMIT as int + 1,
            );
        } else {
            crate::math::lemma_rdiv_bounds(-(b as int * factor as int), SCALE as int);
            vstd::arithmetic::div_mod::lemma_multiply_divide_lt(
                -(b as int * factor as int) + SCALE as int / 2,
                SCALE as int,
                VAL_LIMIT as int + 1,
            );
        }
    }
    rdiv64(b * factor, SCALE)
}

fn blend_component(a: i64, b: i64, factor: i64, mode: ColorBlendingMode) -> (r: i64)
    requires
        -VAL_LIMIT <= a <= VAL_LIMIT,
        -VAL_LIMIT <= b <= VAL_LIMIT,
        0 <= factor <= SCALE,
    ensures
        r == spec_blend_component(a as int, b as int, factor as int, mode),
        -VAL_LIMIT <= r <= VAL_LIMIT,
{
    proof {
        lemma_blend_component_in_range(a as int, b as int, factor as int, mode);
    }
    match mode {
        ColorBlendingMode::Mix => lerp64(a, b, factor),
        ColorBlendingMode::Add => {
            let scaled: i64 = scaled_term(b, factor);
            clamp64(a + scaled, -VAL_LIMIT, VAL_LIMIT)
        },
        ColorBlendingMode::Subtract => {
            let scaled: i64 = scaled_term(b, factor);
            clamp64(a - scaled, -VAL_LIMIT, VAL_LIMIT)
        },
        ColorBlendingMode::Multiply => {
            proof {
                assert(-0x4000_0000_0000_0000 <= a * b <= 0x4000_0000_0000_0000)
                    by (nonlinear_arith)
                    requires
                        -VAL_LIMIT <= a <= VAL_LIMIT && -VAL_LIMIT <= b <= VAL_LIMIT,
                ;
            }
            let product: i64 = rdiv64(a * b, SCALE);
            let bounded: i64 = clamp64(product, -VAL_LIMIT, VAL_LIMIT);
            lerp64(a, bounded, factor)
        },
    }
}

/// `color_2` blended over `color_1` under `blending_mode` by `factor`.
pub fn blend_colors(color_1: &Color, color_2: &Color, factor: i64, blending_mode: ColorBlendingMode) -> (r: Color)
    requires
        color_1.in_range(),
        color_2.in_range(),
        0 <= factor <= SCALE,
    ensures
        r == spec_blend(*color_1, *color_2, factor as int, blending_mode),
        r.in_range(),
{
    Color {
        red: blend_component(color_1.red, color_2.red, factor, blending_mode),
        green: blend_component(color_1.green, color_2.green, factor, blending_mode),
        blue: blend_component(color_1.blue, color_2.blue, factor, blending_mode),
        alpha: blend_component(color_1.alpha, color_2.alpha, factor, blending_mode),
    }
}

/// `Mix` with factor `0` leaves the base color unchanged, whatever is
/// blended over it.
pub proof fn lemma_mix_zero_identity(a: Color, b: Color)
    ensures
        spec_blend(a, b, 0, ColorBlendingMode::Mix) == a,
{
    assert(spec_rdiv((b.red - a.red) * 0, SCALE as int) == 0);
    assert(spec_rdiv((b.green - a.green) * 0, SCALE as int) == 0);
    assert(spec_rdiv((b.blue - a.blue) * 0, SCALE as int) == 0);
    assert(spec_rdiv((b.alpha - a.alpha) * 0, SCALE as int) == 0);
}

/// `Add`ing the transparent zero color changes nothing, at any factor.
pub proof fn lemma_add_none_identity(a: Color, factor: int)
    requires
        a.in_range(),
    ensures
        spec_blend(a, spec_none(), factor, ColorBlendingMode::Add) == a,
{
    assert(spec_rdiv(0 * factor, SCALE as int) == 0);
}

/// `Mix` with a full factor replaces the base color entirely.
pub proof fn lemma_mix_full_replaces(a: Color, b: Color)
    ensures
        spec_blend(a, b, SCALE as int, ColorBlendingMode::Mix) == b,
{
    crate::math::lemma_lerp_full(a.red as int, b.red as int);
    crate::math::lemma_lerp_full(a.green as int, b.green as int);
    crate::math::lemma_lerp_full(a.blue as int, b.blue as int);
    crate::math::lemma_lerp_full(a.alpha as int, b.alpha as int);
}

/// Bands are well-formed: stop positions strictly increase and stay
/// bounded, and every stop color is in range.
pub open spec fn color_bands_wf(bands: Seq<(i64, Color)>) -> bool {
    &&& forall|i: int, j: int| 0 <= i < j < bands.len() ==> (#[trigger] bands[i]).0 < (
    #[trigger] bands[j]).0
    &&& forall|i: int|
        0 <= i < bands.len() ==> -VAL_LIMIT <= (#[trigger] bands[i]).0 <= VAL_LIMIT && bands[i].1.in_range()
}

/// The color read from a band ramp at `value`: the nearest stop color
/// outside the ramp, a mix of the surrounding stops inside it, and
/// the transparent zero color when there are no stops at all.
pub open spec fn spec_color_bands(bands: Seq<(i64, Color)>, value: int) -> Color
    decreases bands.len(),
{
    if bands.len() == 0 {
        spec_none()
    } else if value <= bands[0].0 {
        bands[0].1
    } else if bands.len() == 1 {
        bands[0].1
    } else if value <= bands[1].0 {
        spec_blend(
            bands[0].1,
            bands[1].1,
            spec_rdiv((value - bands[0].0) * SCALE, bands[1].0 - bands[0].0),
            ColorBlendingMode::Mix,
        )
    } else {
        spec_color_bands(bands.drop_first(), value)
    }
}

/// Interpolates between several color bands from a normalized value.
pub fn interpolate_color_bands(color_bands: &Vec<(i64, Color)>, value: i64) -> (r: Color)
    requires
        color_bands_wf(color_bands@),
        -VAL_LIMIT <= value <= VAL_LIMIT,
    ensures
        r == spec_color_bands(color_bands@, value as int),
        r.in_range(),
{
    proof {
        lemma_color_bands_in_range(color_bands@, value as int);
    }
    let ghost s = color_bands@;
    let n: usize = color_bands.len();
    if n == 0 {
        return Color::none();
    }
    let mut i: usize = 0;
    while i < n
        invariant
            s == color_bands@,
            color_bands_wf(s),
            n == s.len(),
            0 <= i <= n,
            -VAL_LIMIT <= value <= VAL_LIMIT,
            forall|j: int| 0 <= j < i ==> value > (#[trigger] s[j]).0,
            i > 0 ==> spec_color_bands(s, value as int) == spec_color_bands(
                s.skip(i - 1),
                value as int,
            ),
        decreases n - i,
    {
        if value <= color_bands[i].0 {
            if i == 0 {
                return color_bands[0].1;
            }
            let band_1 = &color_bands[i - 1];
            let band_2 = &color_bands[i];
            proof {
                assert(s.skip(i - 1)[0] == s[i - 1]);
                assert(s.skip(i - 1)[1] == s[i as int]);
            }
            let num: i64 = (value - band_1.0) * SCALE;
            let den: i64 = band_2.0 - band_1.0;
            proof {
                crate::math::lemma_rdiv_bounds(num as int, den as int);
                assert(num + den / 2 < den * (SCALE + 1)) by (nonlinear_arith)
                    requires
                        0 < num <= den * SCALE && 1 <= den,
                ;
                assert(0 < num <= den * SCALE) by (nonlinear_arith)
                    requires
                        num == (value - band_1.0) * SCALE && 0 < value - band_1.0 <= den,
                ;
                vstd::arithmetic::div_mod::lemma_multiply_divide_lt(
                    num as int + den as int / 2,
                    den as int,
                    SCALE as int + 1,
                );
            }
            let normalized: i64 = rdiv64(num, den);
            return blend_colors(&band_1.1, &band_2.1, normalized, ColorBlendingMode::Mix);
        }
        proof {
            if i == 0 {
                assert(s.skip(0) =~= s);
            } else {
                assert(s.skip(i - 1).drop_first() =~= s.skip(i as int));
                assert(s.skip(i - 1)[0] == s[i - 1]);
                assert(s.skip(i - 1).len() >= 2);
                assert(s.skip(i - 1)[1] == s[i as int]);
                assert(spec_color_bands(s.skip(i - 1), value as int) == spec_color_bands(
                    s.skip(i as int),
                    value as int,
                ));
            }
        }
        i += 1;
    }
    proof {
        assert(s.skip(n - 1)[0] == s[n - 1]);
        assert(s.skip(n - 1).len() == 1);
    }
    color_bands[n - 1].1
}

/// The band read always lands within the representable color range.
proof fn lemma_color_bands_in_range(bands: Seq<(i64, Color)>, value: int)
    requires
        color_bands_wf(bands),
    ensures
        spec_color_bands(bands, value).in_range(),
    decreases bands.len(),
{
    if bands.len() == 0 {
    } else if value <= bands[0].0 {
    } else if bands.len() == 1 {
    } else if value <= bands[1].0 {
        let u = spec_rdiv((value - bands[0].0) * SCALE, bands[1].0 - bands[0].0);
        let den = bands[1].0 - bands[0].0;
        assert(0 < (value - bands[0].0) * SCALE <= den * SCALE) by (nonlinear_arith)
            requires
                0 < value - bands[0].0 <= den && den >= 1,
        ;
        crate::math::lemma_rdiv_bounds((value - bands[0].0) * SCALE, den);
        assert((value - bands[0].0) * SCALE + den / 2 < den * (SCALE + 1)) by (nonlinear_arith)
            requires
                0 < (value - bands[0].0) * SCALE <= den * SCALE && 1 <= den,
        ;
        vstd::arithmetic::div_mod::lemma_multiply_divide_lt(
            (value - bands[0].0) * SCALE + den / 2,
            den,
            SCALE as int + 1,
        );
        lemma_blend_component_in_range(bands[0].1.red as int, bands[1].1.red as int, u, ColorBlendingMode::Mix);
        lemma_blend_component_in_range(bands[0].1.green as int, bands[1].1.green as int, u, ColorBlendingMode::Mix);
        lemma_blend_component_in_range(bands[0].1.blue as int, bands[1].1.blue as int, u, ColorBlendingMode::Mix);
        lemma_blend_component_in_range(bands[0].1.alpha as int, bands[1].1.alpha as int, u, ColorBlendingMode::Mix);
    } else {
        lemma_color_bands_in_range(bands.drop_first(), value);
    }
}

} // verus!
