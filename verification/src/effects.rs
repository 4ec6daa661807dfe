//! The effect catalog: animated, parameterized functions of position
//! producing colors, refreshed from keyframes and, for the
//! audio-reactive variant, from the rolling spectrum window.

use crate::color::{
    blend_colors, color_bands_wf, interpolate_color_bands, spec_black, spec_blend,
    spec_color_bands, Color, ColorBlendingMode,
};
use crate::keyframes::{
    channel_is_color, channel_is_float, channel_is_vec3, get_color_value, get_float_value,
    get_vec3_value, keyframes_wf, spec_channel_color, spec_channel_float, spec_channel_vec3,
    Keyframes,
};
use crate::math::{rdiv64, spec_isqrt, spec_rdiv, SCALE, TIME_LIMIT, VAL_LIMIT};
use crate::sampling::{sample_windowed, spec_sample_windowed};
use crate::spectrum::{spec_average_range, RecentFftData, SpectrumData};
use crate::vec3::{spec_dist_sq, spec_dot, Vec3};
use std::collections::VecDeque;
use vstd::prelude::*;

verus! {

/// One authored effect: the groups it addresses, its live parameters,
/// and the keyframes that animate them.
pub struct Effect {
    pub groups: Vec<u32>,
    pub info: EffectInfo,
    pub keyframes: Keyframes,
}

/// The per-tick context every effect update may read.
pub struct EffectUpdateCommonInfo<'a> {
    pub recent_fft_data: &'a RecentFftData,
}

/// An effect's live parameters, color- or vector-valued.
pub enum EffectInfo {
    ColorEffectInfo(ColorEffectInfo),
    Vec3EffectInfo(Vec3EffectInfo),
}

/// The color-valued effect variants.
pub enum ColorEffectInfo {
    ColorFillEffect(ColorFillEffect),
    ColorShockwaveEffect(ColorShockwaveEffect),
    ColorFrequencyCascadeEffect(ColorFrequencyCascadeEffect),
}

/// The vector-valued effect variants; none exist yet.
#[derive(Clone, Copy, Debug, PartialEq, Eq, Structural)]
pub enum Vec3EffectInfo {
    Vec3EffectReserved,
}

/// A solid color everywhere.
#[derive(Clone, Copy, Debug, PartialEq, Eq, Structural)]
pub struct ColorFillEffect {
    pub color: Color,
}

impl ColorFillEffect {
    /// The fill's color is representable.
    pub open spec fn wf(self) -> bool {
        self.color.in_range()
    }

    /// The keyframes this effect accepts: well-formed, with a
    /// color-typed `"color"` channel.
    pub open spec fn keyframes_ok(kfs: Seq<crate::keyframes::Keyframe>) -> bool {
        &&& keyframes_wf(kfs)
        &&& channel_is_color(kfs, "color"@)
    }

    /// Pulls the fill color from the `"color"` channel, keeping the
    /// current color where the channel is silent.
    pub fn update(&mut self, keyframes: &Keyframes, current_time: i64)
        requires
            old(self).wf(),
            Self::keyframes_ok(keyframes.keyframes@),
            -TIME_LIMIT <= current_time <= TIME_LIMIT,
        ensures
            final (self).wf(),
            final (self).color == spec_channel_color(
                keyframes.keyframes@,
                "color"@,
                current_time as int,
                old(self).color,
            ),
    {
        let key: String = "color".to_owned();
        self.color = get_color_value(&keyframes.keyframes, &key, current_time, &self.color);
    }

    /// The fill's value at any position: its color.
    pub fn get_value(&self, _position: &Vec3) -> (r: Color)
        ensures
            r == self.color,
    {
        self.color
    }
}

/// An expanding ring of light: full strength over a flat band around
/// the radius, falling off linearly over `head` outward and `tail`
/// inward.
#[derive(Clone, Copy, Debug, PartialEq, Eq, Structural)]
pub struct ColorShockwaveEffect {
    pub color: Color,
    pub center: Vec3,
    pub radius: i64,
    pub flat: i64,
    pub head: i64,
    pub tail: i64,
}

/// How strongly the shockwave illuminates a point at distance `d`
/// from its center, in thousandths.
pub open spec fn spec_influence(d: int, radius: int, flat: int, head: int, tail: int) -> int {
    let half = spec_rdiv(flat, 2);
    if radius - half < d && d < radius + half {
        SCALE as int
    } else if radius + half <= d && d < radius + half + head {
        spec_rdiv((radius + half + head - d) * SCALE, head)
    } else if radius - half - tail < d && d < radius - half {
        spec_rdiv((d - (radius - half - tail)) * SCALE, tail)
    } else {
        0
    }
}

/// The shockwave's color at distance `d`: its color mixed toward
/// opaque black by the complement of the influence.
pub open spec fn spec_shockwave_color(color: Color, d: int, radius: int, flat: int, head: int, tail: int) -> Color {
    spec_blend(
        color,
        spec_black(),
        SCALE - spec_influence(d, radius, flat, head, tail),
        ColorBlendingMode::Mix,
    )
}

/// The influence is a fraction: within `[0, 1]` in thousandths.
pub proof fn lemma_influence_range(d: int, radius: int, flat: int, head: int, tail: int)
    requires
        -VAL_LIMIT <= radius <= VAL_LIMIT,
        -VAL_LIMIT <= flat <= VAL_LIMIT,
        -VAL_LIMIT <= head <= VAL_LIMIT,
        -VAL_LIMIT <= tail <= VAL_LIMIT,
        0 <= d <= 0x4000_0000,
    ensures
        0 <= spec_influence(d, radius, flat, head, tail) <= SCALE,
{
    let half = spec_rdiv(flat, 2);
    assert(-VAL_LIMIT <= half <= VAL_LIMIT) by {
        if flat >= 0 {
            crate::math::lemma_rdiv_bounds(flat, 2);
        } else {
            crate::math::lemma_rdiv_bounds(-flat, 2);
        }
    }
    if radius - half < d && d < radius + half {
    } else if radius + half <= d && d < radius + half + head {
        let num = (radius + half + head - d) * SCALE;
        assert(0 < radius + half + head - d <= head);
        assert(0 < num <= head * SCALE) by (nonlinear_arith)
            requires
                num == (radius + half + head - d) * SCALE && 0 < radius + half + head - d
                    <= head,
        ;
        crate::math::lemma_rdiv_bounds(num, head);
        assert(num + head / 2 < head * (SCALE + 1)) by (nonlinear_arith)
            requires
                0 < num <= head * SCALE && 1 <= head,
        ;
        vstd::arithmetic::div_mod::lemma_multiply_divide_lt(num + head / 2, head, SCALE as int + 1);
    } else if radius - half - tail < d && d < radius - half {
        let num = (d - (radius - half - tail)) * SCALE;
        assert(0 < d - (radius - half - tail) <= tail);
        assert(0 < num <= tail * SCALE) by (nonlinear_arith)
            requires
                num == (d - (radius - half - tail)) * SCALE && 0 < d - (radius - half - tail)
                    <= tail,
        ;
        crate::math::lemma_rdiv_bounds(num, tail);
        assert(num + tail / 2 < tail * (SCALE + 1)) by (nonlinear_arith)
            requires
                0 < num <= tail * SCALE && 1 <= tail,
        ;
        vstd::arithmetic::div_mod::lemma_multiply_divide_lt(num + tail / 2, tail, SCALE as int + 1);
    } else {
    }
}

/// At the envelope's extremes the shockwave hands back exactly black
/// or exactly its own color.
pub proof fn lemma_shockwave_extremes(color: Color, d: int, radius: int, flat: int, head: int, tail: int)
    ensures
        spec_influence(d, radius, flat, head, tail) == 0 ==> spec_shockwave_color(
            color,
            d,
            radius,
            flat,
            head,
            tail,
        ) == spec_black(),
        spec_influence(d, radius, flat, head, tail) == SCALE ==> spec_shockwave_color(
            color,
            d,
            radius,
            flat,
            head,
            tail,
        ) == color,
{
    if spec_influence(d, radius, flat, head, tail) == 0 {
        crate::color::lemma_mix_full_replaces(color, spec_black());
    }
    if spec_influence(d, radius, flat, head, tail) == SCALE {
        crate::color::lemma_mix_zero_identity(color, spec_black());
    }
}

/// The shockwave's color at distance `distance` from its center.
pub fn get_shockwave_color_value(
    color: &Color,
    distance: i64,
    radius: i64,
    flat: i64,
    head: i64,
    tail: i64,
) -> (r: Color)
    requires
        color.in_range(),
        0 <= distance <= 0x4000_0000,
        -VAL_LIMIT <= radius <= VAL_LIMIT,
        -VAL_LIMIT <= flat <= VAL_LIMIT,
        -VAL_LIMIT <= head <= VAL_LIMIT,
        -VAL_LIMIT <= tail <= VAL_LIMIT,
    ensures
        r == spec_shockwave_color(*color, distance as int, radius as int, flat as int, head as int, tail as int),
        r.in_range(),
{
    proof {
        lemma_influence_range(
            distance as int,
            radius as int,
            flat as int,
            head as int,
            tail as int,
        );
    }
    let half: i64 = rdiv64(flat, 2);
    proof {
        if flat >= 0 {
            crate::math::lemma_rdiv_bounds(flat as int, 2);
        } else {
            crate::math::lemma_rdiv_bounds(-flat as int, 2);
        }
    }
    let mut influence: i64 = 0;
    if radius - half < distance && distance < radius + half {
        influence = SCALE;
    } else if radius + half <= distance && distance < radius + half + head {
        proof {
            assert(0 < (radius + half + head - distance) * SCALE <= 4_000_000_000_000)
                by (nonlinear_arith)
                requires
                    0 < radius + half + head - distance <= head <= VAL_LIMIT,
            ;
        }
        influence = rdiv64((radius + half + head - distance) * SCALE, head);
    } else if radius - half - tail < distance && distance < radius - half {
        proof {
            assert(0 < (distance - (radius - half - tail)) * SCALE <= 4_000_000_000_000)
                by (nonlinear_arith)
                requires
                    0 < distance - (radius - half - tail) <= tail <= VAL_LIMIT,
            ;
        }
        influence = rdiv64((distance - (radius - half - tail)) * SCALE, tail);
    }
    blend_colors(color, &Color::black(), SCALE - influence, ColorBlendingMode::Mix)
}

impl ColorShockwaveEffect {
    /// Every parameter is representable.
    pub open spec fn wf(self) -> bool {
        &&& self.color.in_range()
        &&& self.center.in_range()
        &&& -VAL_LIMIT <= self.radius <= VAL_LIMIT
        &&& -VAL_LIMIT <= self.flat <= VAL_LIMIT
        &&& -VAL_LIMIT <= self.head <= VAL_LIMIT
        &&& -VAL_LIMIT <= self.tail <= VAL_LIMIT
    }

    /// The keyframes this effect accepts: well-formed, each of its
    /// channels carrying the matching payload kind.
    pub open spec fn keyframes_ok(kfs: Seq<crate::keyframes::Keyframe>) -> bool {
        &&& keyframes_wf(kfs)
        &&& channel_is_color(kfs, "color"@)
        &&& channel_is_vec3(kfs, "center"@)
        &&& channel_is_float(kfs, "radius"@)
        &&& channel_is_float(kfs, "flat"@)
        &&& channel_is_float(kfs, "head"@)
        &&& channel_is_float(kfs, "tail"@)
    }

    /// Pulls every parameter from its namesake channel.
    pub fn update(&mut self, keyframes: &Keyframes, current_time: i64)
        requires
            old(self).wf(),
            Self::keyframes_ok(keyframes.keyframes@),
            -TIME_LIMIT <= current_time <= TIME_LIMIT,
        ensures
            final (self).wf(),
            ({
                let kfs = keyframes.keyframes@;
                let t = current_time as int;
                &&& final (self).color == spec_channel_color(kfs, "color"@, t, old(self).color)
                &&& final (self).center == spec_channel_vec3(kfs, "center"@, t, old(self).center)
                &&& final (self).radius == spec_channel_float(
                    kfs,
                    "radius"@,
                    t,
                    old(self).radius as int,
                )
                &&& final (self).flat == spec_channel_float(kfs, "flat"@, t, old(self).flat as int)
                &&& final (self).head == spec_channel_float(kfs, "head"@, t, old(self).head as int)
                &&& final (self).tail == spec_channel_float(kfs, "tail"@, t, old(self).tail as int)
            }),
    {
        let color_key: String = "color".to_owned();
        let center_key: String = "center".to_owned();
        let radius_key: String = "radius".to_owned();
        let flat_key: String = "flat".to_owned();
        let head_key: String = "head".to_owned();
        let tail_key: String = "tail".to_owned();
        self.color = get_color_value(&keyframes.keyframes, &color_key, current_time, &self.color);
        self.center = get_vec3_value(
            &keyframes.keyframes,
            &center_key,
            current_time,
            &self.center,
        );
        self.radius = get_float_value(&keyframes.keyframes, &radius_key, current_time, self.radius);
        self.flat = get_float_value(&keyframes.keyframes, &flat_key, current_time, self.flat);
        self.head = get_float_value(&keyframes.keyframes, &head_key, current_time, self.head);
        self.tail = get_float_value(&keyframes.keyframes, &tail_key, current_time, self.tail);
    }

    /// The shockwave's color at `position`.
    pub fn get_value(&self, position: &Vec3) -> (r: Color)
        requires
            self.wf(),
            position.in_range(),
        ensures
            r == spec_shockwave_color(
                self.color,
                spec_isqrt(spec_dist_sq(self.center, *position) as nat) as int,
                self.radius as int,
                self.flat as int,
                self.head as int,
                self.tail as int,
            ),
            r.in_range(),
    {
        let distance: i64 = self.center.distance(position);
        get_shockwave_color_value(&self.color, distance, self.radius, self.flat, self.head, self.tail)
    }
}

/// A cascade of recent audio measurements laid out along a
/// direction: each point samples the ring of past (frequency,
/// strength) pairs and reads its color from a band ramp.
pub struct ColorFrequencyCascadeEffect {
    /// The ring of past measurements, oldest first: a normalized
    /// frequency and a strength, both in thousandths.
    pub past_values: VecDeque<(i64, i64)>,
    /// The color ramp indexed by normalized frequency.
    pub color_bands: Vec<(i64, Color)>,
    /// The direction the cascade travels; its length sets the spatial
    /// period.
    pub scaled_direction: Vec3,
    /// The fixed ring length.
    pub buffer_size: usize,
    /// The smoothing width handed to the series sampler.
    pub window_size: i64,
}

/// The bass mean of one frame.
pub open spec fn spec_frame_lows(f: SpectrumData) -> int {
    spec_average_range(f, 20_000, 150_000)
}

/// The mean of one frame's low-mid and mid bands.
pub open spec fn spec_frame_mids(f: SpectrumData) -> int {
    spec_rdiv(spec_average_range(f, 150_000, 500_000) + spec_average_range(f, 500_000, 2_000_000), 2)
}

/// The mean of one frame's high-mid and treble bands.
pub open spec fn spec_frame_highs(f: SpectrumData) -> int {
    spec_rdiv(
        spec_average_range(f, 2_000_000, 4_000_000) + spec_average_range(f, 4_000_000, 20_000_000),
        2,
    )
}

/// The summed bass means of `frames[a..b]`.
pub open spec fn spec_lows_sum(frames: Seq<SpectrumData>, a: int, b: int) -> int
    decreases b - a,
{
    if a >= b {
        0
    } else {
        spec_frame_lows(frames[b - 1]) + spec_lows_sum(frames, a, b - 1)
    }
}

/// The summed mid means of `frames[a..b]`.
pub open spec fn spec_mids_sum(frames: Seq<SpectrumData>, a: int, b: int) -> int
    decreases b - a,
{
    if a >= b {
        0
    } else {
        spec_frame_mids(frames[b - 1]) + spec_mids_sum(frames, a, b - 1)
    }
}

/// The summed high means of `frames[a..b]`.
pub open spec fn spec_highs_sum(frames: Seq<SpectrumData>, a: int, b: int) -> int
    decreases b - a,
{
    if a >= b {
        0
    } else {
        spec_frame_highs(frames[b - 1]) + spec_highs_sum(frames, a, b - 1)
    }
}

/// The normalized frequency one tick pushes into the ring: the mean
/// of band volumes over `frames[a..b]`, compensated for usual
/// loudness, folded to a weight in thousandths; one half when there
/// is no signal.
pub open spec fn spec_cascade_average(frames: Seq<SpectrumData>, a: int, b: int) -> int {
    let count = b - a;
    let lows = if count > 0 {
        spec_rdiv(spec_lows_sum(frames, a, b), count)
    } else {
        0
    };
    let mids = if count > 0 {
        spec_rdiv(spec_mids_sum(frames, a, b), count)
    } else {
        0
    };
    let highs = if count > 0 {
        spec_rdiv(spec_highs_sum(frames, a, b), count)
    } else {
        0
    };
    let lows_comp = spec_rdiv(lows * 400, 1000);
    let mids_comp = mids;
    let highs_comp = 3 * highs;
    let total = lows_comp + mids_comp + highs_comp;
    if total == 0 {
        500
    } else {
        spec_rdiv((mids_comp + 2 * highs_comp) * SCALE, 2 * total)
    }
}

/// The strength one tick pushes into the ring: the overall band mean
/// of `frames[a..b]` against a nominal loudness of fifteen units,
/// clamped to a fraction.
pub open spec fn spec_cascade_intensity(frames: Seq<SpectrumData>, a: int, b: int) -> int {
    let count = b - a;
    let lows = if count > 0 {
        spec_rdiv(spec_lows_sum(frames, a, b), count)
    } else {
        0
    };
    let mids = if count > 0 {
        spec_rdiv(spec_mids_sum(frames, a, b), count)
    } else {
        0
    };
    let highs = if count > 0 {
        spec_rdiv(spec_highs_sum(frames, a, b), count)
    } else {
        0
    };
    let overall = spec_rdiv(lows + mids + highs, 3);
    crate::math::spec_clamp(spec_rdiv(overall, 15), 0, SCALE as int)
}

/// The projection of `p` onto the cascade direction, in thousandths
/// of the direction's length.
pub open spec fn spec_cascade_scaled(p: Vec3, d: Vec3) -> int {
    spec_rdiv(spec_dot(p, d) * SCALE, spec_dot(d, d))
}

/// A triangle wave of period two units over the magnitude of
/// `scaled`, in thousandths.
pub open spec fn spec_triangle(scaled: int) -> int {
    let a = if scaled >= 0 {
        scaled
    } else {
        -scaled
    };
    let m = a % 2000;
    if m >= 1000 {
        2000 - m
    } else {
        m
    }
}

/// The cascade's color at `p`: the ring sampled at the triangle-wave
/// position, colored by the band ramp and scaled in alpha by the
/// sampled strength.
pub open spec fn spec_cascade_value(e: ColorFrequencyCascadeEffect, p: Vec3) -> Color {
    let tri = spec_triangle(spec_cascade_scaled(p, e.scaled_direction));
    let freqs = e.past_values@.map_values(|pv: (i64, i64)| pv.0);
    let strengths = e.past_values@.map_values(|pv: (i64, i64)| pv.1);
    let freq = spec_sample_windowed(freqs, tri, e.window_size as int);
    let strength = spec_sample_windowed(strengths, tri, e.window_size as int);
    let c = spec_color_bands(e.color_bands@, freq);
    Color {
        red: c.red,
        green: c.green,
        blue: c.blue,
        alpha: crate::math::spec_clamp(
            spec_rdiv(c.alpha as int * strength, SCALE as int),
            -VAL_LIMIT as int,
            VAL_LIMIT as int,
        ) as i64,
    }
}

impl ColorFrequencyCascadeEffect {
    /// The ring is full-length with fractional entries, the ramp and
    /// direction are usable, and the smoothing width is bounded.
    pub open spec fn wf(self) -> bool {
        &&& 1 <= self.buffer_size <= 100_000
        &&& self.past_values@.len() == self.buffer_size
        &&& forall|i: int|
            0 <= i < self.past_values@.len() ==> 0 <= (#[trigger] self.past_values@[i]).0 <= SCALE
                && 0 <= self.past_values@[i].1 <= SCALE
        &&& color_bands_wf(self.color_bands@)
        &&& self.scaled_direction.in_range()
        &&& spec_dot(self.scaled_direction, self.scaled_direction) > 0
        &&& 0 <= self.window_size <= 1_000_000
    }

    /// A cascade with a zeroed ring of `buffer_size` entries.
    pub fn new(
        color_bands: Vec<(i64, Color)>,
        scaled_direction: Vec3,
        buffer_size: usize,
        window_size: i64,
    ) -> (r: ColorFrequencyCascadeEffect)
        requires
            color_bands_wf(color_bands@),
            scaled_direction.in_range(),
            spec_dot(scaled_direction, scaled_direction) > 0,
            1 <= buffer_size <= 100_000,
            0 <= window_size <= 1_000_000,
        ensures
            r.wf(),
            r.color_bands == color_bands,
            r.scaled_direction == scaled_direction,
            r.buffer_size == buffer_size,
            r.window_size == window_size,
            r.past_values@ == Seq::new(buffer_size as nat, |i: int| (0i64, 0i64)),
    {
        let mut past_values: VecDeque<(i64, i64)> = VecDeque::new();
        let mut i: usize = 0;
        while i < buffer_size
            invariant
                0 <= i <= buffer_size,
                past_values@ =~= Seq::new(i as nat, |j: int| (0i64, 0i64)),
            decreases buffer_size - i,
        {
            past_values.push_back((0, 0));
            proof {
                assert(past_values@ =~= Seq::new((i + 1) as nat, |j: int| (0i64, 0i64)));
            }
            i += 1;
        }
        ColorFrequencyCascadeEffect {
            past_values,
            color_bands,
            scaled_direction,
            buffer_size,
            window_size,
        }
    }

    /// Folds the frames of the latest tick into one (frequency,
    /// strength) pair and rotates it into the ring.
    pub fn update(&mut self, recent: &RecentFftData)
        requires
            old(self).wf(),
            recent.wf(),
            recent.frames().len() <= 2_000_000,
        ensures
            final (self).wf(),
            ({
                let a = recent.frames().len() - recent.new_count();
                let b = recent.frames().len() as int;
                &&& final (self).past_values@ == old(self).past_values@.drop_first().push(
                    (
                        spec_cascade_average(recent.frames(), a, b) as i64,
                        spec_cascade_intensity(recent.frames(), a, b) as i64,
                    ),
                )
                &&& final (self).color_bands@ == old(self).color_bands@
                &&& final (self).scaled_direction == old(self).scaled_direction
                &&& final (self).buffer_size == old(self).buffer_size
                &&& final (self).window_size == old(self).window_size
            }),
    {
        let total: usize = recent.len();
        let new_count: usize = recent.new_frame_count();
        let ghost a = total - new_count;
        let mut lsum: i64 = 0;
        let mut msum: i64 = 0;
        let mut hsum: i64 = 0;
        let mut i: usize = total - new_count;
        while i < total
            invariant
                recent.wf(),
                recent.frames().len() <= 2_000_000,
                total == recent.frames().len(),
                new_count == recent.new_count(),
                a == total - new_count,
                a <= i <= total,
                lsum == spec_lows_sum(recent.frames(), a as int, i as int),
                msum == spec_mids_sum(recent.frames(), a as int, i as int),
                hsum == spec_highs_sum(recent.frames(), a as int, i as int),
                0 <= lsum <= (i - a) * VAL_LIMIT,
                0 <= msum <= (i - a) * VAL_LIMIT,
                0 <= hsum <= (i - a) * VAL_LIMIT,
            decreases total - i,
        {
            let frame = recent.frame_at(i);
            let lows = frame.bass();
            let mids_pair: i64 = rdiv64(frame.low_mid() + frame.mid(), 2);
            let highs_pair: i64 = rdiv64(frame.high_mid() + frame.treble(), 2);
            proof {
                crate::math::lemma_rdiv_bounds(
                    spec_average_range(recent.frames()[i as int], 150_000, 500_000)
                        + spec_average_range(recent.frames()[i as int], 500_000, 2_000_000),
                    2,
                );
                crate::math::lemma_rdiv_bounds(
                    spec_average_range(recent.frames()[i as int], 2_000_000, 4_000_000)
                        + spec_average_range(recent.frames()[i as int], 4_000_000, 20_000_000),
                    2,
                );
            }
            lsum = lsum + lows;
            msum = msum + mids_pair;
            hsum = hsum + highs_pair;
            i += 1;
        }
        let count: i64 = new_count as i64;
        let lows: i64 = if count > 0 {
            mean_of_sum(lsum, count)
        } else {
            0
        };
        let mids: i64 = if count > 0 {
            mean_of_sum(msum, count)
        } else {
            0
        };
        let highs: i64 = if count > 0 {
            mean_of_sum(hsum, count)
        } else {
            0
        };
        proof {
            crate::math::lemma_rdiv_bounds(lows as int + mids as int + highs as int, 3);
            vstd::arithmetic::div_mod::lemma_multiply_divide_lt(
                lows as int + mids as int + highs as int + 1,
                3,
                VAL_LIMIT as int + 1,
            );
        }
        let overall: i64 = rdiv64(lows + mids + highs, 3);
        proof {
            crate::math::lemma_rdiv_bounds(overall as int, 15);
        }
        let intensity: i64 = crate::math::clamp64(rdiv64(overall, 15), 0, SCALE);
        proof {
            crate::math::lemma_rdiv_bounds(lows as int * 400, 1000);
            assert(0 <= lows * 400 <= 400_000_000_000) by (nonlinear_arith)
                requires
                    0 <= lows <= VAL_LIMIT,
            ;
        }
        let lows_comp: i64 = rdiv64(lows * 400, 1000);
        let mids_comp: i64 = mids;
        let highs_comp: i64 = 3 * highs;
        let total_weight: i64 = lows_comp + mids_comp + highs_comp;
        let average: i64 = if total_weight == 0 {
            500
        } else {
            proof {
                assert(0 < (mids_comp + 2 * highs_comp) * SCALE + 2 * total_weight) by {
                    assert(mids_comp + 2 * highs_comp >= 0);
                    assert((mids_comp + 2 * highs_comp) * SCALE >= 0) by (nonlinear_arith)
                        requires
                            mids_comp + 2 * highs_comp >= 0,
                    ;
                }
                assert((mids_comp + 2 * highs_comp) * SCALE <= 7_000_000_000_000)
                    by (nonlinear_arith)
                    requires
                        0 <= mids_comp <= VAL_LIMIT && 0 <= highs_comp <= 3 * VAL_LIMIT,
                ;
                crate::math::lemma_rdiv_bounds(
                    (mids_comp as int + 2 * highs_comp as int) * SCALE,
                    2 * total_weight as int,
                );
                assert((mids_comp + 2 * highs_comp) * SCALE + (2 * total_weight) / 2 < (2
                    * total_weight) * (SCALE + 1)) by (nonlinear_arith)
                    requires
                        0 <= mids_comp + 2 * highs_comp <= 2 * total_weight && 1
                            <= total_weight,
                ;
                vstd::arithmetic::div_mod::lemma_multiply_divide_lt(
                    (mids_comp as int + 2 * highs_comp as int) * SCALE + (2
                        * total_weight as int) / 2,
                    2 * total_weight as int,
                    SCALE as int + 1,
                );
            }
            rdiv64((mids_comp + 2 * highs_comp) * SCALE, 2 * total_weight)
        };
        let popped = self.past_values.pop_front();
        proof {
            assert(popped is Some);
        }
        self.past_values.push_back((average, intensity));
    }

    /// The cascade's color at `position`.
    pub fn get_value(&self, position: &Vec3) -> (r: Color)
        requires
            self.wf(),
            position.in_range(),
        ensures
            r == spec_cascade_value(*self, *position),
            r.in_range(),
    {
        let num: i64 = position.dot(&self.scaled_direction);
        let den: i64 = self.scaled_direction.dot(&self.scaled_direction);
        proof {
            assert(-0x4000_0000_0000_0000 <= num * SCALE <= 0x4000_0000_0000_0000)
                by (nonlinear_arith)
                requires
                    -0x2_0000_0000_0000 <= num <= 0x2_0000_0000_0000,
            ;
        }
        let scaled: i64 = rdiv64(num * SCALE, den);
        let scaled_abs: u64 = if scaled >= 0 {
            scaled as u64
        } else {
            (-scaled) as u64
        };
        let m: i64 = (scaled_abs % 2000) as i64;
        let tri: i64 = if m >= 1000 {
            2000 - m
        } else {
            m
        };
        let n: usize = self.past_values.len();
        let mut freqs: Vec<i64> = Vec::new();
        let mut strengths: Vec<i64> = Vec::new();
        let mut i: usize = 0;
        while i < n
            invariant
                self.wf(),
                n == self.past_values@.len(),
                0 <= i <= n,
                freqs@ =~= self.past_values@.take(i as int).map_values(|pv: (i64, i64)| pv.0),
                strengths@ =~= self.past_values@.take(i as int).map_values(
                    |pv: (i64, i64)| pv.1,
                ),
            decreases n - i,
        {
            let pair: (i64, i64) = self.past_values[i];
            freqs.push(pair.0);
            strengths.push(pair.1);
            proof {
                assert(self.past_values@.take(i + 1).map_values(|pv: (i64, i64)| pv.0)
                    =~= self.past_values@.take(i as int).map_values(|pv: (i64, i64)| pv.0).push(
                    self.past_values@[i as int].0,
                ));
                assert(self.past_values@.take(i + 1).map_values(|pv: (i64, i64)| pv.1)
                    =~= self.past_values@.take(i as int).map_values(|pv: (i64, i64)| pv.1).push(
                    self.past_values@[i as int].1,
                ));
            }
            i += 1;
        }
        proof {
            assert(self.past_values@.take(n as int) =~= self.past_values@);
            assert(forall|j: int|
                0 <= j < freqs@.len() ==> -VAL_LIMIT <= #[trigger] freqs@[j] <= VAL_LIMIT);
            assert(forall|j: int|
                0 <= j < strengths@.len() ==> -VAL_LIMIT <= #[trigger] strengths@[j]
                    <= VAL_LIMIT);
        }
        let freq: i64 = sample_windowed(&freqs, tri, self.window_size);
        let strength: i64 = sample_windowed(&strengths, tri, self.window_size);
        let color: Color = interpolate_color_bands(&self.color_bands, freq);
        proof {
            assert(-0x4000_0000_0000_0000 <= color.alpha * strength <= 0x4000_0000_0000_0000)
                by (nonlinear_arith)
                requires
                    -VAL_LIMIT <= color.alpha <= VAL_LIMIT && -VAL_LIMIT <= strength
                        <= VAL_LIMIT,
            ;
        }
        let alpha: i64 = crate::math::clamp64(
            rdiv64(color.alpha * strength, SCALE),
            -VAL_LIMIT,
            VAL_LIMIT,
        );
        Color { red: color.red, green: color.green, blue: color.blue, alpha }
    }
}

/// The color a color effect shows at position `p`.
pub open spec fn spec_color_effect_value(e: ColorEffectInfo, p: Vec3) -> Color {
    match e {
        ColorEffectInfo::ColorFillEffect(f) => f.color,
        ColorEffectInfo::ColorShockwaveEffect(s) => spec_shockwave_color(
            s.color,
            spec_isqrt(spec_dist_sq(s.center, p) as nat) as int,
            s.radius as int,
            s.flat as int,
            s.head as int,
            s.tail as int,
        ),
        ColorEffectInfo::ColorFrequencyCascadeEffect(c) => spec_cascade_value(c, p),
    }
}

impl ColorEffectInfo {
    /// The live parameters of the variant are representable.
    pub open spec fn wf(self) -> bool {
        match self {
            ColorEffectInfo::ColorFillEffect(f) => f.wf(),
            ColorEffectInfo::ColorShockwaveEffect(s) => s.wf(),
            ColorEffectInfo::ColorFrequencyCascadeEffect(c) => c.wf(),
        }
    }

    /// The keyframes the variant accepts.
    pub open spec fn keyframes_ok(self, kfs: Seq<crate::keyframes::Keyframe>) -> bool {
        match self {
            ColorEffectInfo::ColorFillEffect(_) => ColorFillEffect::keyframes_ok(kfs),
            ColorEffectInfo::ColorShockwaveEffect(_) => ColorShockwaveEffect::keyframes_ok(kfs),
            ColorEffectInfo::ColorFrequencyCascadeEffect(_) => keyframes_wf(kfs),
        }
    }

    /// Refreshes the variant's parameters from its keyframes and, for
    /// the audio-reactive variant, from the latest spectrum frames.
    pub fn update(
        &mut self,
        keyframes: &Keyframes,
        current_time: i64,
        common_info: &EffectUpdateCommonInfo,
    )
        requires
            old(self).wf(),
            old(self).keyframes_ok(keyframes.keyframes@),
            -TIME_LIMIT <= current_time <= TIME_LIMIT,
            common_info.recent_fft_data.wf(),
            common_info.recent_fft_data.frames().len() <= 2_000_000,
        ensures
            final (self).wf(),
            ({
                let kfs = keyframes.keyframes@;
                let t = current_time as int;
                let a = common_info.recent_fft_data.frames().len()
                    - common_info.recent_fft_data.new_count();
                let b = common_info.recent_fft_data.frames().len() as int;
                &&& (*old(self)) is ColorFillEffect ==> (*final(self)) is ColorFillEffect && final (
                self)->ColorFillEffect_0.color == spec_channel_color(
                    kfs,
                    "color"@,
                    t,
                    (*old(self))->ColorFillEffect_0.color,
                )
                &&& (*old(self)) is ColorShockwaveEffect ==> (*final(self)) is ColorShockwaveEffect && {
                    let before = (*old(self))->ColorShockwaveEffect_0;
                    let after = (*final(self))->ColorShockwaveEffect_0;
                    &&& after.color == spec_channel_color(kfs, "color"@, t, before.color)
                    &&& after.center == spec_channel_vec3(kfs, "center"@, t, before.center)
                    &&& after.radius == spec_channel_float(kfs, "radius"@, t, before.radius as int)
                    &&& after.flat == spec_channel_float(kfs, "flat"@, t, before.flat as int)
                    &&& after.head == spec_channel_float(kfs, "head"@, t, before.head as int)
                    &&& after.tail == spec_channel_float(kfs, "tail"@, t, before.tail as int)
                }
                &&& (*old(self)) is ColorFrequencyCascadeEffect ==> (*final(self)) is ColorFrequencyCascadeEffect && {
                    let before = (*old(self))->ColorFrequencyCascadeEffect_0;
                    let after = (*final(self))->ColorFrequencyCascadeEffect_0;
                    &&& after.past_values@ == before.past_values@.drop_first().push(
                        (
                            spec_cascade_average(common_info.recent_fft_data.frames(), a, b) as i64,
                            spec_cascade_intensity(common_info.recent_fft_data.frames(), a, b) as i64,
                        ),
                    )
                    &&& after.color_bands@ == before.color_bands@
                    &&& after.scaled_direction == before.scaled_direction
                    &&& after.buffer_size == before.buffer_size
                    &&& after.window_size == before.window_size
                }
            }),
    {
        match self {
            ColorEffectInfo::ColorFillEffect(f) => f.update(keyframes, current_time),
            ColorEffectInfo::ColorShockwaveEffect(s) => s.update(keyframes, current_time),
            ColorEffectInfo::ColorFrequencyCascadeEffect(c) => c.update(
                common_info.recent_fft_data,
            ),
        }
    }

    /// The variant's color at `position`.
    pub fn get_value(&self, position: &Vec3) -> (r: Color)
        requires
            self.wf(),
            position.in_range(),
        ensures
            r == spec_color_effect_value(*self, *position),
            r.in_range(),
    {
        match self {
            ColorEffectInfo::ColorFillEffect(f) => f.get_value(position),
            ColorEffectInfo::ColorShockwaveEffect(s) => s.get_value(position),
            ColorEffectInfo::ColorFrequencyCascadeEffect(c) => c.get_value(position),
        }
    }
}

impl EffectInfo {
    /// The live parameters are representable.
    pub open spec fn wf(self) -> bool {
        match self {
            EffectInfo::ColorEffectInfo(c) => c.wf(),
            EffectInfo::Vec3EffectInfo(_) => true,
        }
    }

    /// The keyframes the carried variant accepts.
    pub open spec fn keyframes_ok(self, kfs: Seq<crate::keyframes::Keyframe>) -> bool {
        match self {
            EffectInfo::ColorEffectInfo(c) => c.keyframes_ok(kfs),
            EffectInfo::Vec3EffectInfo(_) => true,
        }
    }

    /// Refreshes the carried variant; vector effects carry nothing to
    /// refresh yet.
    pub fn update(
        &mut self,
        keyframes: &Keyframes,
        current_time: i64,
        common_info: &EffectUpdateCommonInfo,
    )
        requires
            old(self).wf(),
            old(self).keyframes_ok(keyframes.keyframes@),
            -TIME_LIMIT <= current_time <= TIME_LIMIT,
            common_info.recent_fft_data.wf(),
            common_info.recent_fft_data.frames().len() <= 2_000_000,
        ensures
            final (self).wf(),
            (*old(self)) is Vec3EffectInfo ==> *final(self) == *old(self),
            (*old(self)) is ColorEffectInfo ==> (*final(self)) is ColorEffectInfo,
            ({
                let kfs = keyframes.keyframes@;
                let t = current_time as int;
                let a = common_info.recent_fft_data.frames().len()
                    - common_info.recent_fft_data.new_count();
                let b = common_info.recent_fft_data.frames().len() as int;
                (*old(self)) is ColorEffectInfo ==> {
                    let before = (*old(self))->ColorEffectInfo_0;
                    let after = (*final(self))->ColorEffectInfo_0;
                    &&& before is ColorFillEffect ==> after is ColorFillEffect && after->ColorFillEffect_0.color == spec_channel_color(
                        kfs,
                        "color"@,
                        t,
                        before->ColorFillEffect_0.color,
                    )
                    &&& before is ColorShockwaveEffect ==> after is ColorShockwaveEffect && {
                        let sb = before->ColorShockwaveEffect_0;
                        let sa = after->ColorShockwaveEffect_0;
                        &&& sa.color == spec_channel_color(kfs, "color"@, t, sb.color)
                        &&& sa.center == spec_channel_vec3(kfs, "center"@, t, sb.center)
                        &&& sa.radius == spec_channel_float(kfs, "radius"@, t, sb.radius as int)
                        &&& sa.flat == spec_channel_float(kfs, "flat"@, t, sb.flat as int)
                        &&& sa.head == spec_channel_float(kfs, "head"@, t, sb.head as int)
                        &&& sa.tail == spec_channel_float(kfs, "tail"@, t, sb.tail as int)
                    }
                    &&& before is ColorFrequencyCascadeEffect ==> after is ColorFrequencyCascadeEffect
                        && {
                        let cb = before->ColorFrequencyCascadeEffect_0;
                        let ca = after->ColorFrequencyCascadeEffect_0;
                        &&& ca.past_values@ == cb.past_values@.drop_first().push(
                            (
                                spec_cascade_average(
                                    common_info.recent_fft_data.frames(),
                                    a,
                                    b,
                                ) as i64,
                                spec_cascade_intensity(
                                    common_info.recent_fft_data.frames(),
                                    a,
                                    b,
                                ) as i64,
                            ),
                        )
                        &&& ca.color_bands@ == cb.color_bands@
                        &&& ca.scaled_direction == cb.scaled_direction
                        &&& ca.buffer_size == cb.buffer_size
                        &&& ca.window_size == cb.window_size
                    }
                }
            }),
    {
        match self {
            EffectInfo::ColorEffectInfo(c) => c.update(keyframes, current_time, common_info),
            EffectInfo::Vec3EffectInfo(_) => {},
        }
    }
}

/// The two parameter sets are of the same variant.
pub open spec fn spec_same_variant(a: EffectInfo, b: EffectInfo) -> bool {
    match (a, b) {
        (EffectInfo::ColorEffectInfo(ca), EffectInfo::ColorEffectInfo(cb)) => match (ca, cb) {
            (ColorEffectInfo::ColorFillEffect(_), ColorEffectInfo::ColorFillEffect(_)) => true,
            (
                ColorEffectInfo::ColorShockwaveEffect(_),
                ColorEffectInfo::ColorShockwaveEffect(_),
            ) => true,
            (
                ColorEffectInfo::ColorFrequencyCascadeEffect(_),
                ColorEffectInfo::ColorFrequencyCascadeEffect(_),
            ) => true,
            _ => false,
        },
        (EffectInfo::Vec3EffectInfo(_), EffectInfo::Vec3EffectInfo(_)) => true,
        _ => false,
    }
}

/// The two parameter sets agree field by field, containers compared
/// by contents.
pub open spec fn effect_info_view_eq(a: EffectInfo, b: EffectInfo) -> bool {
    match (a, b) {
        (EffectInfo::ColorEffectInfo(ca), EffectInfo::ColorEffectInfo(cb)) => match (ca, cb) {
            (ColorEffectInfo::ColorFillEffect(x), ColorEffectInfo::ColorFillEffect(y)) => x == y,
            (
                ColorEffectInfo::ColorShockwaveEffect(x),
                ColorEffectInfo::ColorShockwaveEffect(y),
            ) => x == y,
            (
                ColorEffectInfo::ColorFrequencyCascadeEffect(x),
                ColorEffectInfo::ColorFrequencyCascadeEffect(y),
            ) => {
                &&& x.past_values@ == y.past_values@
                &&& x.color_bands@ == y.color_bands@
                &&& x.scaled_direction == y.scaled_direction
                &&& x.buffer_size == y.buffer_size
                &&& x.window_size == y.window_size
            },
            _ => false,
        },
        (EffectInfo::Vec3EffectInfo(x), EffectInfo::Vec3EffectInfo(y)) => x == y,
        _ => false,
    }
}

/// `after` is `before` refreshed at time `t` from the keyframes
/// `kfs`, the audio-reactive variant fed the last `newc` of `frames`.
pub open spec fn spec_effect_updated_rel(
    before: EffectInfo,
    after: EffectInfo,
    kfs: Seq<crate::keyframes::Keyframe>,
    t: int,
    frames: Seq<SpectrumData>,
    newc: int,
) -> bool {
    let a = frames.len() - newc;
    let b = frames.len() as int;
    match (before, after) {
        (EffectInfo::ColorEffectInfo(cb), EffectInfo::ColorEffectInfo(ca)) => match (cb, ca) {
            (ColorEffectInfo::ColorFillEffect(x), ColorEffectInfo::ColorFillEffect(y)) => y.color
                == spec_channel_color(kfs, "color"@, t, x.color),
            (
                ColorEffectInfo::ColorShockwaveEffect(x),
                ColorEffectInfo::ColorShockwaveEffect(y),
            ) => {
                &&& y.color == spec_channel_color(kfs, "color"@, t, x.color)
                &&& y.center == spec_channel_vec3(kfs, "center"@, t, x.center)
                &&& y.radius == spec_channel_float(kfs, "radius"@, t, x.radius as int)
                &&& y.flat == spec_channel_float(kfs, "flat"@, t, x.flat as int)
                &&& y.head == spec_channel_float(kfs, "head"@, t, x.head as int)
                &&& y.tail == spec_channel_float(kfs, "tail"@, t, x.tail as int)
            },
            (
                ColorEffectInfo::ColorFrequencyCascadeEffect(x),
                ColorEffectInfo::ColorFrequencyCascadeEffect(y),
            ) => {
                &&& y.past_values@ == x.past_values@.drop_first().push(
                    (
                        spec_cascade_average(frames, a, b) as i64,
                        spec_cascade_intensity(frames, a, b) as i64,
                    ),
                )
                &&& y.color_bands@ == x.color_bands@
                &&& y.scaled_direction == x.scaled_direction
                &&& y.buffer_size == x.buffer_size
                &&& y.window_size == x.window_size
            },
            _ => false,
        },
        (EffectInfo::Vec3EffectInfo(x), EffectInfo::Vec3EffectInfo(y)) => x == y,
        _ => false,
    }
}

/// The variant refreshes from keyframes alone, never from live
/// audio.
pub open spec fn effect_non_reactive(i: EffectInfo) -> bool {
    match i {
        EffectInfo::ColorEffectInfo(c) => !(c is ColorFrequencyCascadeEffect),
        EffectInfo::Vec3EffectInfo(_) => true,
    }
}

/// A refresh never changes which variant an effect is.
pub proof fn lemma_rel_same_variant(
    before: EffectInfo,
    after: EffectInfo,
    kfs: Seq<crate::keyframes::Keyframe>,
    t: int,
    frames: Seq<SpectrumData>,
    newc: int,
)
    requires
        spec_effect_updated_rel(before, after, kfs, t, frames, newc),
    ensures
        spec_same_variant(after, before),
        spec_same_variant(before, after),
{
}

/// Refreshing twice at one time is the same as refreshing once, for
/// every variant that does not consume live audio.
pub proof fn lemma_effect_update_idempotent(
    b0: EffectInfo,
    b1: EffectInfo,
    b2: EffectInfo,
    kfs: Seq<crate::keyframes::Keyframe>,
    t: int,
    frames1: Seq<SpectrumData>,
    newc1: int,
    frames2: Seq<SpectrumData>,
    newc2: int,
)
    requires
        spec_effect_updated_rel(b0, b1, kfs, t, frames1, newc1),
        spec_effect_updated_rel(b1, b2, kfs, t, frames2, newc2),
        effect_non_reactive(b1),
    ensures
        effect_info_view_eq(b2, b1),
{
    match (b0, b1) {
        (EffectInfo::ColorEffectInfo(c0), EffectInfo::ColorEffectInfo(c1)) => {
            match (c0, c1) {
                (ColorEffectInfo::ColorFillEffect(x0), ColorEffectInfo::ColorFillEffect(x1)) => {
                    crate::keyframes::lemma_channel_color_idempotent(kfs, "color"@, t, x0.color);
                },
                (
                    ColorEffectInfo::ColorShockwaveEffect(x0),
                    ColorEffectInfo::ColorShockwaveEffect(x1),
                ) => {
                    crate::keyframes::lemma_channel_color_idempotent(kfs, "color"@, t, x0.color);
                    crate::keyframes::lemma_channel_vec3_idempotent(kfs, "center"@, t, x0.center);
                    crate::keyframes::lemma_channel_float_idempotent(
                        kfs,
                        "radius"@,
                        t,
                        x0.radius as int,
                    );
                    crate::keyframes::lemma_channel_float_idempotent(
                        kfs,
                        "flat"@,
                        t,
                        x0.flat as int,
                    );
                    crate::keyframes::lemma_channel_float_idempotent(
                        kfs,
                        "head"@,
                        t,
                        x0.head as int,
                    );
                    crate::keyframes::lemma_channel_float_idempotent(
                        kfs,
                        "tail"@,
                        t,
                        x0.tail as int,
                    );
                },
                _ => {},
            }
        },
        _ => {},
    }
}

/// Whether two parameter sets are of the same variant.
pub fn same_variant(a: &EffectInfo, b: &EffectInfo) -> (r: bool)
    ensures
        r == spec_same_variant(*a, *b),
{
    match (a, b) {
        (EffectInfo::ColorEffectInfo(ca), EffectInfo::ColorEffectInfo(cb)) => match (ca, cb) {
            (ColorEffectInfo::ColorFillEffect(_), ColorEffectInfo::ColorFillEffect(_)) => true,
            (
                ColorEffectInfo::ColorShockwaveEffect(_),
                ColorEffectInfo::ColorShockwaveEffect(_),
            ) => true,
            (
                ColorEffectInfo::ColorFrequencyCascadeEffect(_),
                ColorEffectInfo::ColorFrequencyCascadeEffect(_),
            ) => true,
            _ => false,
        },
        (EffectInfo::Vec3EffectInfo(_), EffectInfo::Vec3EffectInfo(_)) => true,
        _ => false,
    }
}

/// A contents-equal copy of an effect's parameters.
pub fn copy_effect_info(e: &EffectInfo) -> (r: EffectInfo)
    ensures
        effect_info_view_eq(r, *e),
        spec_same_variant(r, *e),
{
    match e {
        EffectInfo::ColorEffectInfo(c) => EffectInfo::ColorEffectInfo(
            match c {
                ColorEffectInfo::ColorFillEffect(f) => ColorEffectInfo::ColorFillEffect(*f),
                ColorEffectInfo::ColorShockwaveEffect(s) => ColorEffectInfo::ColorShockwaveEffect(
                    *s,
                ),
                ColorEffectInfo::ColorFrequencyCascadeEffect(cc) => {
                    let mut past_values: VecDeque<(i64, i64)> = VecDeque::new();
                    let mut i: usize = 0;
                    let n: usize = cc.past_values.len();
                    while i < n
                        invariant
                            n == cc.past_values@.len(),
                            0 <= i <= n,
                            past_values@ =~= cc.past_values@.take(i as int),
                        decreases n - i,
                    {
                        past_values.push_back(cc.past_values[i]);
                        proof {
                            assert(past_values@ =~= cc.past_values@.take(i + 1));
                        }
                        i += 1;
                    }
                    let mut color_bands: Vec<(i64, Color)> = Vec::new();
                    let mut j: usize = 0;
                    let m: usize = cc.color_bands.len();
                    while j < m
                        invariant
                            m == cc.color_bands@.len(),
                            0 <= j <= m,
                            color_bands@ =~= cc.color_bands@.take(j as int),
                        decreases m - j,
                    {
                        color_bands.push(cc.color_bands[j]);
                        proof {
                            assert(color_bands@ =~= cc.color_bands@.take(j + 1));
                        }
                        j += 1;
                    }
                    proof {
                        assert(past_values@ =~= cc.past_values@);
                        assert(color_bands@ =~= cc.color_bands@);
                    }
                    ColorEffectInfo::ColorFrequencyCascadeEffect(
                        ColorFrequencyCascadeEffect {
                            past_values,
                            color_bands,
                            scaled_direction: cc.scaled_direction,
                            buffer_size: cc.buffer_size,
                            window_size: cc.window_size,
                        },
                    )
                },
            },
        ),
        EffectInfo::Vec3EffectInfo(v) => EffectInfo::Vec3EffectInfo(*v),
    }
}

/// The mean of a sum of `count` fractional measurements.
fn mean_of_sum(sum: i64, count: i64) -> (r: i64)
    requires
        1 <= count <= 2_000_000,
        0 <= sum <= count * VAL_LIMIT,
    ensures
        r == spec_rdiv(sum as int, count as int),
        0 <= r <= VAL_LIMIT,
{
    proof {
        crate::math::lemma_rdiv_bounds(sum as int, count as int);
        assert(sum + count / 2 < count * (VAL_LIMIT + 1)) by (nonlinear_arith)
            requires
                0 <= sum <= count * VAL_LIMIT && 1 <= count,
        ;
        vstd::arithmetic::div_mod::lemma_multiply_divide_lt(
            sum as int + count as int / 2,
            count as int,
            VAL_LIMIT as int + 1,
        );
    }
    rdiv64(sum, count)
}

} // verus!
