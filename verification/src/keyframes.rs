//! Keyframes and piecewise interpolation of scalars, colors and
//! vectors over time.
//!
//! A channel is the set of keyframes sharing one string key. At time
//! `t` the channel's value interpolates between the last keyframe at
//! or before `t` and the first one after it.

use crate::color::Color;
use crate::math::{lerp64, rdiv64, spec_lerp, spec_rdiv, SCALE, TIME_LIMIT, VAL_LIMIT};
use crate::vec3::Vec3;
use vstd::prelude::*;

verus! {

/// How the gap up to a keyframe is filled.
#[derive(Clone, Copy, Debug, PartialEq, Eq, Structural)]
pub enum InterpolationType {
    LINEAR,
    CONSTANT,
}

/// The payload of one keyframe.
#[derive(Clone, Copy, Debug, PartialEq, Eq, Structural)]
pub enum KeyframeValue {
    FloatKeyframe(i64),
    ColorKeyframe(Color),
    Vec3Keyframe(Vec3),
}

/// One authored keyframe on a named channel.
pub struct Keyframe {
    pub time: i64,
    pub interpolation: InterpolationType,
    pub key: String,
    pub value: KeyframeValue,
}

/// The keyframes attached to one effect.
pub struct Keyframes {
    pub keyframes: Vec<Keyframe>,
}

/// The keyframe's time and payload are within representable bounds.
pub open spec fn keyframe_wf(k: Keyframe) -> bool {
    &&& -TIME_LIMIT <= k.time <= TIME_LIMIT
    &&& match k.value {
        KeyframeValue::FloatKeyframe(v) => -VAL_LIMIT <= v <= VAL_LIMIT,
        KeyframeValue::ColorKeyframe(c) => c.in_range(),
        KeyframeValue::Vec3Keyframe(v) => v.in_range(),
    }
}

/// Every keyframe is in bounds and, per channel, times strictly
/// increase in authoring order.
pub open spec fn keyframes_wf(s: Seq<Keyframe>) -> bool {
    &&& forall|i: int| 0 <= i < s.len() ==> keyframe_wf(#[trigger] s[i])
    &&& forall|i: int, j: int|
        0 <= i < j < s.len() && (#[trigger] s[i]).key@ == (#[trigger] s[j]).key@ ==> s[i].time
            < s[j].time
}

/// Every keyframe on channel `key` carries a scalar payload.
pub open spec fn channel_is_float(s: Seq<Keyframe>, key: Seq<char>) -> bool {
    forall|i: int|
        0 <= i < s.len() && (#[trigger] s[i]).key@ == key ==> s[i].value is FloatKeyframe
}

/// Every keyframe on channel `key` carries a color payload.
pub open spec fn channel_is_color(s: Seq<Keyframe>, key: Seq<char>) -> bool {
    forall|i: int|
        0 <= i < s.len() && (#[trigger] s[i]).key@ == key ==> s[i].value is ColorKeyframe
}

/// Every keyframe on channel `key` carries a vector payload.
pub open spec fn channel_is_vec3(s: Seq<Keyframe>, key: Seq<char>) -> bool {
    forall|i: int|
        0 <= i < s.len() && (#[trigger] s[i]).key@ == key ==> s[i].value is Vec3Keyframe
}

/// The last keyframe on channel `key` at or before time `t`.
pub open spec fn spec_start(s: Seq<Keyframe>, key: Seq<char>, t: int) -> Option<Keyframe>
    decreases s.len(),
{
    if s.len() == 0 {
        None
    } else if s.last().key@ == key && s.last().time <= t {
        Some(s.last())
    } else {
        spec_start(s.drop_last(), key, t)
    }
}

/// The first keyframe on channel `key` after time `t`.
pub open spec fn spec_end(s: Seq<Keyframe>, key: Seq<char>, t: int) -> Option<Keyframe>
    decreases s.len(),
{
    if s.len() == 0 {
        None
    } else if s.first().key@ == key && s.first().time > t {
        Some(s.first())
    } else {
        spec_end(s.drop_first(), key, t)
    }
}

/// The interpolation fraction of `t` between keyframes `s` and `e`,
/// in thousandths.
pub open spec fn spec_fraction(s: Keyframe, e: Keyframe, t: int) -> int {
    spec_rdiv((t - s.time) * SCALE, e.time - s.time)
}

/// One interpolated scalar: `start` held, or interpolated toward
/// `end`, by the fraction `u`.
pub open spec fn spec_interp_scalar(start: int, end: int, u: int, interp: InterpolationType) -> int {
    match interp {
        InterpolationType::CONSTANT => start,
        InterpolationType::LINEAR => spec_lerp(start, end, u),
    }
}

/// A color interpolated component-wise.
pub open spec fn spec_interp_color(start: Color, end: Color, u: int, interp: InterpolationType) -> Color {
    Color {
        red: spec_interp_scalar(start.red as int, end.red as int, u, interp) as i64,
        green: spec_interp_scalar(start.green as int, end.green as int, u, interp) as i64,
        blue: spec_interp_scalar(start.blue as int, end.blue as int, u, interp) as i64,
        alpha: spec_interp_scalar(start.alpha as int, end.alpha as int, u, interp) as i64,
    }
}

/// A vector interpolated component-wise.
pub open spec fn spec_interp_vec3(start: Vec3, end: Vec3, u: int, interp: InterpolationType) -> Vec3 {
    Vec3 {
        x: spec_interp_scalar(start.x as int, end.x as int, u, interp) as i64,
        y: spec_interp_scalar(start.y as int, end.y as int, u, interp) as i64,
        z: spec_interp_scalar(start.z as int, end.z as int, u, interp) as i64,
    }
}

/// The value of scalar channel `key` at time `t`, with `default` when
/// the channel has no keyframe on either side.
pub open spec fn spec_channel_float(s: Seq<Keyframe>, key: Seq<char>, t: int, default: int) -> int {
    match (spec_start(s, key, t), spec_end(s, key, t)) {
        (Option::None, Option::None) => default,
        (Option::Some(start), Option::None) => start.value->FloatKeyframe_0 as int,
        (Option::None, Option::Some(end)) => end.value->FloatKeyframe_0 as int,
        (Option::Some(start), Option::Some(end)) => spec_interp_scalar(
            start.value->FloatKeyframe_0 as int,
            end.value->FloatKeyframe_0 as int,
            spec_fraction(start, end, t),
            end.interpolation,
        ),
    }
}

/// The value of color channel `key` at time `t`.
pub open spec fn spec_channel_color(s: Seq<Keyframe>, key: Seq<char>, t: int, default: Color) -> Color {
    match (spec_start(s, key, t), spec_end(s, key, t)) {
        (Option::None, Option::None) => default,
        (Option::Some(start), Option::None) => start.value->ColorKeyframe_0,
        (Option::None, Option::Some(end)) => end.value->ColorKeyframe_0,
        (Option::Some(start), Option::Some(end)) => spec_interp_color(
            start.value->ColorKeyframe_0,
            end.value->ColorKeyframe_0,
            spec_fraction(start, end, t),
            end.interpolation,
        ),
    }
}

/// The value of vector channel `key` at time `t`.
pub open spec fn spec_channel_vec3(s: Seq<Keyframe>, key: Seq<char>, t: int, default: Vec3) -> Vec3 {
    match (spec_start(s, key, t), spec_end(s, key, t)) {
        (Option::None, Option::None) => default,
        (Option::Some(start), Option::None) => start.value->Vec3Keyframe_0,
        (Option::None, Option::Some(end)) => end.value->Vec3Keyframe_0,
        (Option::Some(start), Option::Some(end)) => spec_interp_vec3(
            start.value->Vec3Keyframe_0,
            end.value->Vec3Keyframe_0,
            spec_fraction(start, end, t),
            end.interpolation,
        ),
    }
}

/// A found start keyframe lies on the channel, at or before `t`, and
/// within the sequence.
proof fn lemma_start_props(s: Seq<Keyframe>, key: Seq<char>, t: int)
    ensures
        spec_start(s, key, t) matches Some(k0) ==> k0.key@ == key && k0.time <= t && exists|i: int|
            0 <= i < s.len() && #[trigger] s[i] == k0,
    decreases s.len(),
{
    if s.len() > 0 {
        if s.last().key@ == key && s.last().time <= t {
            assert(s[s.len() - 1] == s.last());
        } else {
            lemma_start_props(s.drop_last(), key, t);
            match spec_start(s, key, t) {
                Some(k0) => {
                    let i = choose|i: int|
                        0 <= i < s.drop_last().len() && #[trigger] s.drop_last()[i] == k0;
                    assert(s[i] == k0);
                },
                None => {},
            }
        }
    }
}

/// A found end keyframe lies on the channel, after `t`, and within
/// the sequence.
proof fn lemma_end_props(s: Seq<Keyframe>, key: Seq<char>, t: int)
    ensures
        spec_end(s, key, t) matches Some(k0) ==> k0.key@ == key && k0.time > t && exists|i: int|
            0 <= i < s.len() && #[trigger] s[i] == k0,
    decreases s.len(),
{
    if s.len() > 0 {
        if s.first().key@ == key && s.first().time > t {
            assert(s[0] == s.first());
        } else {
            lemma_end_props(s.drop_first(), key, t);
            match spec_end(s, key, t) {
                Some(k0) => {
                    let i = choose|i: int|
                        0 <= i < s.drop_first().len() && #[trigger] s.drop_first()[i] == k0;
                    assert(s[i + 1] == k0);
                },
                None => {},
            }
        }
    }
}

/// When every channel keyframe from `i` on lies after `t`, the prefix
/// before `i` decides the start keyframe.
proof fn lemma_start_prefix(s: Seq<Keyframe>, key: Seq<char>, t: int, i: int)
    requires
        0 <= i <= s.len(),
        forall|j: int| i <= j < s.len() && (#[trigger] s[j]).key@ == key ==> s[j].time > t,
    ensures
        spec_start(s, key, t) == spec_start(s.take(i), key, t),
    decreases s.len(),
{
    if i == s.len() {
        assert(s.take(i) =~= s);
    } else {
        let shorter = s.take(s.len() - 1);
        assert(s.drop_last() =~= shorter);
        lemma_start_prefix(shorter, key, t, i);
        assert(shorter.take(i) =~= s.take(i));
    }
}

/// When no channel keyframe before `i` lies after `t`, the suffix
/// from `i` decides the end keyframe.
proof fn lemma_end_skip(s: Seq<Keyframe>, key: Seq<char>, t: int, i: int)
    requires
        0 <= i <= s.len(),
        forall|j: int| 0 <= j < i && (#[trigger] s[j]).key@ == key ==> s[j].time <= t,
    ensures
        spec_end(s, key, t) == spec_end(s.skip(i), key, t),
    decreases i,
{
    if i == 0 {
        assert(s.skip(0) =~= s);
    } else {
        assert(s.drop_first() =~= s.skip(1));
        lemma_end_skip(s.skip(1), key, t, i - 1);
        assert(s.skip(1).skip(i - 1) =~= s.skip(i));
    }
}

/// The channel keyframe at `i` is the start keyframe when every later
/// channel keyframe lies after `t`.
proof fn lemma_start_finds(s: Seq<Keyframe>, key: Seq<char>, t: int, i: int)
    requires
        0 <= i < s.len(),
        s[i].key@ == key,
        s[i].time <= t,
        forall|j: int| i < j < s.len() && (#[trigger] s[j]).key@ == key ==> s[j].time > t,
    ensures
        spec_start(s, key, t) == Some(s[i]),
    decreases s.len(),
{
    if i == s.len() - 1 {
        assert(s.last() == s[i]);
    } else {
        if s.last().key@ == key && s.last().time <= t {
            assert(s[s.len() - 1] == s.last());
        } else {
            lemma_start_finds(s.drop_last(), key, t, i);
            assert(s.drop_last()[i] == s[i]);
        }
    }
}

/// The channel keyframe at `i` is the end keyframe when every earlier
/// channel keyframe lies at or before `t`.
proof fn lemma_end_finds(s: Seq<Keyframe>, key: Seq<char>, t: int, i: int)
    requires
        0 <= i < s.len(),
        s[i].key@ == key,
        s[i].time > t,
        forall|j: int| 0 <= j < i && (#[trigger] s[j]).key@ == key ==> s[j].time <= t,
    ensures
        spec_end(s, key, t) == Some(s[i]),
    decreases s.len(),
{
    if i == 0 {
        assert(s.first() == s[0]);
    } else {
        assert(s.drop_first() =~= s.skip(1));
        lemma_end_finds(s.drop_first(), key, t, i - 1);
        assert(s.drop_first()[i - 1] == s[i]);
    }
}

/// With no channel keyframe at or before `t` there is no start
/// keyframe.
proof fn lemma_start_none(s: Seq<Keyframe>, key: Seq<char>, t: int)
    requires
        forall|j: int| 0 <= j < s.len() && (#[trigger] s[j]).key@ == key ==> s[j].time > t,
    ensures
        spec_start(s, key, t) is None,
    decreases s.len(),
{
    if s.len() > 0 {
        assert(s[s.len() - 1] == s.last());
        lemma_start_prefix(s, key, t, 0);
        assert(s.take(0) =~= Seq::<Keyframe>::empty());
    }
}

/// With no channel keyframe after `t` there is no end keyframe.
proof fn lemma_end_none(s: Seq<Keyframe>, key: Seq<char>, t: int)
    requires
        forall|j: int| 0 <= j < s.len() && (#[trigger] s[j]).key@ == key ==> s[j].time <= t,
    ensures
        spec_end(s, key, t) is None,
    decreases s.len(),
{
    lemma_end_skip(s, key, t, s.len() as int);
    assert(s.skip(s.len() as int) =~= Seq::<Keyframe>::empty());
}

/// Finds the last channel keyframe at or before `time` and the first
/// one after it.
fn get_surrounding_keyframes<'a>(keyframes: &'a Vec<Keyframe>, key: &String, time: i64) -> (r: (
    Option<&'a Keyframe>,
    Option<&'a Keyframe>,
))
    requires
        keyframes_wf(keyframes@),
    ensures
        match r.0 {
            Some(k) => spec_start(keyframes@, key@, time as int) == Some(*k),
            None => spec_start(keyframes@, key@, time as int) is None,
        },
        match r.1 {
            Some(k) => spec_end(keyframes@, key@, time as int) == Some(*k),
            None => spec_end(keyframes@, key@, time as int) is None,
        },
{
    let ghost s = keyframes@;
    let ghost t = time as int;
    let mut start_idx: Option<usize> = None;
    let mut end_idx: Option<usize> = None;
    let mut i: usize = 0;
    let n: usize = keyframes.len();
    while i < n && end_idx.is_none()
        invariant
            keyframes_wf(s),
            s == keyframes@,
            t == time as int,
            n == keyframes.len(),
            0 <= i <= n,
            end_idx matches Some(j) ==> j < n && spec_end(s, key@, t) == Some(s[j as int]) && (
            match start_idx {
                Some(k) => k < n && spec_start(s, key@, t) == Some(s[k as int]),
                None => spec_start(s, key@, t) is None,
            }),
            end_idx is None ==> (forall|j: int|
                0 <= j < i && (#[trigger] s[j]).key@ == key@ ==> s[j].time <= t) && (
            match start_idx {
                Some(k) => k < i && spec_start(s.take(i as int), key@, t) == Some(s[k as int]),
                None => spec_start(s.take(i as int), key@, t) is None,
            }),
        decreases n - i + (if end_idx is None { 1int } else { 0int }),
    {
        let keyframe = &keyframes[i];
        if keyframe.key == *key {
            if keyframe.time > time {
                proof {
                    lemma_end_skip(s, key@, t, i as int);
                    assert(s.skip(i as int).first() == s[i as int]);
                    assert(s.skip(i as int).len() > 0);
                    assert(spec_end(s, key@, t) == Some(s[i as int]));
                    assert forall|j: int|
                        i <= j < s.len() && (#[trigger] s[j]).key@ == key@ implies s[j].time
                        > t by {
                        if j > i {
                            assert(s[i as int].time < s[j].time);
                        }
                    }
                    lemma_start_prefix(s, key@, t, i as int);
                }
                end_idx = Some(i);
            } else {
                start_idx = Some(i);
                proof {
                    let taken = s.take(i + 1);
                    assert(taken.drop_last() =~= s.take(i as int));
                    assert(taken.last() == s[i as int]);
                }
                i += 1;
            }
        } else {
            proof {
                let taken = s.take(i + 1);
                assert(taken.drop_last() =~= s.take(i as int));
                assert(taken.last() == s[i as int]);
            }
            i += 1;
        }
    }
    proof {
        if end_idx is None {
            lemma_end_none(s, key@, t);
            assert(s.take(n as int) =~= s);
        }
    }
    let start_ref: Option<&Keyframe> = match start_idx {
        Some(j) => Some(&keyframes[j]),
        None => None,
    };
    let end_ref: Option<&Keyframe> = match end_idx {
        Some(j) => Some(&keyframes[j]),
        None => None,
    };
    (start_ref, end_ref)
}

/// A scalar held at `start` or moved toward `end` by the fraction
/// `time` (in thousandths), as `interpolation` directs.
pub fn interpolate_float(start: i64, end: i64, time: i64, interpolation: InterpolationType) -> (r: i64)
    requires
        -VAL_LIMIT <= start <= VAL_LIMIT,
        -VAL_LIMIT <= end <= VAL_LIMIT,
        0 <= time <= SCALE,
    ensures
        r == spec_interp_scalar(start as int, end as int, time as int, interpolation),
        -VAL_LIMIT <= r <= VAL_LIMIT,
{
    proof {
        crate::color::lemma_lerp_between(start as int, end as int, time as int);
    }
    match interpolation {
        InterpolationType::CONSTANT => start,
        InterpolationType::LINEAR => lerp64(start, end, time),
    }
}

/// A color held at `start` or moved toward `end` component-wise.
pub fn interpolate_color(start: &Color, end: &Color, time: i64, interpolation: InterpolationType) -> (r: Color)
    requires
        start.in_range(),
        end.in_range(),
        0 <= time <= SCALE,
    ensures
        r == spec_interp_color(*start, *end, time as int, interpolation),
        r.in_range(),
{
    Color {
        red: interpolate_float(start.red, end.red, time, interpolation),
        green: interpolate_float(start.green, end.green, time, interpolation),
        blue: interpolate_float(start.blue, end.blue, time, interpolation),
        alpha: interpolate_float(start.alpha, end.alpha, time, interpolation),
    }
}

/// A vector held at `start` or moved toward `end` component-wise.
pub fn interpolate_vec3(start: &Vec3, end: &Vec3, time: i64, interpolation: InterpolationType) -> (r: Vec3)
    requires
        start.in_range(),
        end.in_range(),
        0 <= time <= SCALE,
    ensures
        r == spec_interp_vec3(*start, *end, time as int, interpolation),
        r.in_range(),
{
    proof {
        crate::color::lemma_lerp_between(start.x as int, end.x as int, time as int);
        crate::color::lemma_lerp_between(start.y as int, end.y as int, time as int);
        crate::color::lemma_lerp_between(start.z as int, end.z as int, time as int);
    }
    Vec3 {
        x: interpolate_scalar_pos(start.x, end.x, time, interpolation),
        y: interpolate_scalar_pos(start.y, end.y, time, interpolation),
        z: interpolate_scalar_pos(start.z, end.z, time, interpolation),
    }
}

/// One vector component interpolated within the spatial range.
fn interpolate_scalar_pos(start: i64, end: i64, time: i64, interpolation: InterpolationType) -> (r: i64)
    requires
        -crate::math::POS_LIMIT <= start <= crate::math::POS_LIMIT,
        -crate::math::POS_LIMIT <= end <= crate::math::POS_LIMIT,
        0 <= time <= SCALE,
    ensures
        r == spec_interp_scalar(start as int, end as int, time as int, interpolation),
        -crate::math::POS_LIMIT <= r <= crate::math::POS_LIMIT,
{
    proof {
        crate::color::lemma_lerp_between(start as int, end as int, time as int);
    }
    match interpolation {
        InterpolationType::CONSTANT => start,
        InterpolationType::LINEAR => lerp64(start, end, time),
    }
}

/// The interpolation fraction of `time` between `start_time` and
/// `end_time`, in thousandths.
fn fraction_between(start_time: i64, end_time: i64, time: i64) -> (u: i64)
    requires
        -TIME_LIMIT <= start_time <= TIME_LIMIT,
        -TIME_LIMIT <= end_time <= TIME_LIMIT,
        start_time <= time < end_time,
    ensures
        u == spec_rdiv((time - start_time) * SCALE, end_time - start_time),
        0 <= u <= SCALE,
{
    let num: i64 = (time - start_time) * SCALE;
    let den: i64 = end_time - start_time;
    proof {
        assert((time - start_time) * SCALE <= (end_time - start_time) * SCALE
            && 0 <= (time - start_time) * SCALE <= 0x4000_0000_0000_0000) by (nonlinear_arith)
            requires
                0 <= time - start_time <= end_time - start_time <= 2 * TIME_LIMIT,
        ;
        crate::math::lemma_rdiv_bounds(num as int, den as int);
        assert(num + den / 2 < den * (SCALE + 1)) by (nonlinear_arith)
            requires
                num <= den * SCALE && 1 <= den,
        ;
        vstd::arithmetic::div_mod::lemma_multiply_divide_lt(
            num as int + den as int / 2,
            den as int,
            SCALE as int + 1,
        );
    }
    rdiv64(num, den)
}

/// The value of scalar channel `key` at `time`, with `default` when
/// the channel has no keyframe on either side.
pub fn get_float_value(keyframes: &Vec<Keyframe>, key: &String, time: i64, default: i64) -> (r: i64)
    requires
        keyframes_wf(keyframes@),
        channel_is_float(keyframes@, key@),
        -TIME_LIMIT <= time <= TIME_LIMIT,
        -VAL_LIMIT <= default <= VAL_LIMIT,
    ensures
        r == spec_channel_float(keyframes@, key@, time as int, default as int),
        -VAL_LIMIT <= r <= VAL_LIMIT,
{
    proof {
        lemma_start_props(keyframes@, key@, time as int);
        lemma_end_props(keyframes@, key@, time as int);
    }
    let (start_opt, end_opt) = get_surrounding_keyframes(keyframes, key, time);
    match (start_opt, end_opt) {
        (None, None) => default,
        (Some(start), None) => {
            match start.value {
                KeyframeValue::FloatKeyframe(v) => v,
                _ => default,
            }
        },
        (None, Some(end)) => {
            match end.value {
                KeyframeValue::FloatKeyframe(v) => v,
                _ => default,
            }
        },
        (Some(start), Some(end)) => {
            match (start.value, end.value) {
                (KeyframeValue::FloatKeyframe(a), KeyframeValue::FloatKeyframe(b)) => {
                    let u: i64 = fraction_between(start.time, end.time, time);
                    interpolate_float(a, b, u, end.interpolation)
                },
                _ => default,
            }
        },
    }
}

/// The value of color channel `key` at `time`.
pub fn get_color_value(keyframes: &Vec<Keyframe>, key: &String, time: i64, default: &Color) -> (r: Color)
    requires
        keyframes_wf(keyframes@),
        channel_is_color(keyframes@, key@),
        -TIME_LIMIT <= time <= TIME_LIMIT,
        default.in_range(),
    ensures
        r == spec_channel_color(keyframes@, key@, time as int, *default),
        r.in_range(),
{
    proof {
        lemma_start_props(keyframes@, key@, time as int);
        lemma_end_props(keyframes@, key@, time as int);
    }
    let (start_opt, end_opt) = get_surrounding_keyframes(keyframes, key, time);
    match (start_opt, end_opt) {
        (None, None) => *default,
        (Some(start), None) => {
            match start.value {
                KeyframeValue::ColorKeyframe(c) => c,
                _ => *default,
            }
        },
        (None, Some(end)) => {
            match end.value {
                KeyframeValue::ColorKeyframe(c) => c,
                _ => *default,
            }
        },
        (Some(start), Some(end)) => {
            match (start.value, end.value) {
                (KeyframeValue::ColorKeyframe(a), KeyframeValue::ColorKeyframe(b)) => {
                    let u: i64 = fraction_between(start.time, end.time, time);
                    interpolate_color(&a, &b, u, end.interpolation)
                },
                _ => *default,
            }
        },
    }
}

/// The value of vector channel `key` at `time`.
pub fn get_vec3_value(keyframes: &Vec<Keyframe>, key: &String, time: i64, default: &Vec3) -> (r: Vec3)
    requires
        keyframes_wf(keyframes@),
        channel_is_vec3(keyframes@, key@),
        -TIME_LIMIT <= time <= TIME_LIMIT,
        default.in_range(),
    ensures
        r == spec_channel_vec3(keyframes@, key@, time as int, *default),
        r.in_range(),
{
    proof {
        lemma_start_props(keyframes@, key@, time as int);
        lemma_end_props(keyframes@, key@, time as int);
    }
    let (start_opt, end_opt) = get_surrounding_keyframes(keyframes, key, time);
    match (start_opt, end_opt) {
        (None, None) => *default,
        (Some(start), None) => {
            match start.value {
                KeyframeValue::Vec3Keyframe(v) => v,
                _ => *default,
            }
        },
        (None, Some(end)) => {
            match end.value {
                KeyframeValue::Vec3Keyframe(v) => v,
                _ => *default,
            }
        },
        (Some(start), Some(end)) => {
            match (start.value, end.value) {
                (KeyframeValue::Vec3Keyframe(a), KeyframeValue::Vec3Keyframe(b)) => {
                    let u: i64 = fraction_between(start.time, end.time, time);
                    interpolate_vec3(&a, &b, u, end.interpolation)
                },
                _ => *default,
            }
        },
    }
}

/// Reading a channel with its own value as the default returns that
/// value again: channel reads are idempotent in the default.
pub proof fn lemma_channel_float_idempotent(s: Seq<Keyframe>, key: Seq<char>, t: int, d: int)
    ensures
        spec_channel_float(s, key, t, spec_channel_float(s, key, t, d)) == spec_channel_float(
            s,
            key,
            t,
            d,
        ),
{
}

/// Reading a color channel with its own value as the default returns
/// that value again.
pub proof fn lemma_channel_color_idempotent(s: Seq<Keyframe>, key: Seq<char>, t: int, d: Color)
    ensures
        spec_channel_color(s, key, t, spec_channel_color(s, key, t, d)) == spec_channel_color(
            s,
            key,
            t,
            d,
        ),
{
}

/// Reading a vector channel with its own value as the default
/// returns that value again.
pub proof fn lemma_channel_vec3_idempotent(s: Seq<Keyframe>, key: Seq<char>, t: int, d: Vec3)
    ensures
        spec_channel_vec3(s, key, t, spec_channel_vec3(s, key, t, d)) == spec_channel_vec3(
            s,
            key,
            t,
            d,
        ),
{
}

/// Exactly at a keyframe's own time, the channel yields that
/// keyframe's value.
pub proof fn lemma_keyframe_endpoint_float(
    s: Seq<Keyframe>,
    key: Seq<char>,
    default: int,
    i: int,
)
    requires
        keyframes_wf(s),
        channel_is_float(s, key),
        0 <= i < s.len(),
        s[i].key@ == key,
    ensures
        spec_channel_float(s, key, s[i].time as int, default) == s[i].value->FloatKeyframe_0 as int,
{
    let t = s[i].time as int;
    assert forall|j: int| i < j < s.len() && (#[trigger] s[j]).key@ == key implies s[j].time
        > t by {
        assert(s[i].time < s[j].time);
    }
    lemma_start_finds(s, key, t, i);
    lemma_end_props(s, key, t);
    match spec_end(s, key, t) {
        Some(e) => {
            assert(spec_fraction(s[i], e, t) == spec_rdiv(0 * SCALE, e.time - s[i].time));
            assert(0 * SCALE == 0);
            assert(spec_rdiv(0, e.time - s[i].time) == 0) by {
                crate::math::lemma_rdiv_bounds(0, e.time - s[i].time);
            }
            assert(spec_lerp(
                s[i].value->FloatKeyframe_0 as int,
                e.value->FloatKeyframe_0 as int,
                0,
            ) == s[i].value->FloatKeyframe_0 as int) by {
                let d = e.value->FloatKeyframe_0 - s[i].value->FloatKeyframe_0;
                assert(d * 0 == 0);
                crate::math::lemma_rdiv_bounds(0, SCALE as int);
            }
        },
        None => {},
    }
}

/// Exactly at a keyframe's own time, a color channel yields that
/// keyframe's value.
pub proof fn lemma_keyframe_endpoint_color(
    s: Seq<Keyframe>,
    key: Seq<char>,
    default: Color,
    i: int,
)
    requires
        keyframes_wf(s),
        channel_is_color(s, key),
        0 <= i < s.len(),
        s[i].key@ == key,
    ensures
        spec_channel_color(s, key, s[i].time as int, default) == s[i].value->ColorKeyframe_0,
{
    let t = s[i].time as int;
    assert forall|j: int| i < j < s.len() && (#[trigger] s[j]).key@ == key implies s[j].time
        > t by {
        assert(s[i].time < s[j].time);
    }
    lemma_start_finds(s, key, t, i);
    lemma_end_props(s, key, t);
    match spec_end(s, key, t) {
        Some(e) => {
            assert(spec_fraction(s[i], e, t) == spec_rdiv(0 * SCALE, e.time - s[i].time));
            assert(0 * SCALE == 0);
            assert(spec_rdiv(0, e.time - s[i].time) == 0) by {
                crate::math::lemma_rdiv_bounds(0, e.time - s[i].time);
            }
            let a = s[i].value->ColorKeyframe_0;
            let b = e.value->ColorKeyframe_0;
            crate::math::lemma_lerp_zero(a.red as int, b.red as int);
            crate::math::lemma_lerp_zero(a.green as int, b.green as int);
            crate::math::lemma_lerp_zero(a.blue as int, b.blue as int);
            crate::math::lemma_lerp_zero(a.alpha as int, b.alpha as int);
        },
        None => {},
    }
}

/// Exactly at a keyframe's own time, a vector channel yields that
/// keyframe's value.
pub proof fn lemma_keyframe_endpoint_vec3(
    s: Seq<Keyframe>,
    key: Seq<char>,
    default: Vec3,
    i: int,
)
    requires
        keyframes_wf(s),
        channel_is_vec3(s, key),
        0 <= i < s.len(),
        s[i].key@ == key,
    ensures
        spec_channel_vec3(s, key, s[i].time as int, default) == s[i].value->Vec3Keyframe_0,
{
    let t = s[i].time as int;
    assert forall|j: int| i < j < s.len() && (#[trigger] s[j]).key@ == key implies s[j].time
        > t by {
        assert(s[i].time < s[j].time);
    }
    lemma_start_finds(s, key, t, i);
    lemma_end_props(s, key, t);
    match spec_end(s, key, t) {
        Some(e) => {
            assert(spec_fraction(s[i], e, t) == spec_rdiv(0 * SCALE, e.time - s[i].time));
            assert(0 * SCALE == 0);
            assert(spec_rdiv(0, e.time - s[i].time) == 0) by {
                crate::math::lemma_rdiv_bounds(0, e.time - s[i].time);
            }
            let a = s[i].value->Vec3Keyframe_0;
            let b = e.value->Vec3Keyframe_0;
            crate::math::lemma_lerp_zero(a.x as int, b.x as int);
            crate::math::lemma_lerp_zero(a.y as int, b.y as int);
            crate::math::lemma_lerp_zero(a.z as int, b.z as int);
        },
        None => {},
    }
}

/// Before the channel's first keyframe, a color channel yields that
/// first keyframe's value, and after its last keyframe the last
/// one's.
pub proof fn lemma_keyframe_edges_color(
    s: Seq<Keyframe>,
    key: Seq<char>,
    t: int,
    default: Color,
    i: int,
)
    requires
        keyframes_wf(s),
        channel_is_color(s, key),
        0 <= i < s.len(),
        s[i].key@ == key,
    ensures
        t < s[i].time && (forall|j: int| 0 <= j < i ==> (#[trigger] s[j]).key@ != key)
            ==> spec_channel_color(s, key, t, default) == s[i].value->ColorKeyframe_0,
        t > s[i].time && (forall|j: int| i < j < s.len() ==> (#[trigger] s[j]).key@ != key)
            ==> spec_channel_color(s, key, t, default) == s[i].value->ColorKeyframe_0,
{
    if t < s[i].time && (forall|j: int| 0 <= j < i ==> (#[trigger] s[j]).key@ != key) {
        assert forall|j: int| 0 <= j < s.len() && (#[trigger] s[j]).key@ == key implies s[j].time
            > t by {
            if j > i {
                assert(s[i].time < s[j].time);
            } else if j < i {
                assert(s[j].key@ != key);
            }
        }
        lemma_start_none(s, key, t);
        lemma_end_finds(s, key, t, i);
    }
    if t > s[i].time && (forall|j: int| i < j < s.len() ==> (#[trigger] s[j]).key@ != key) {
        assert forall|j: int| 0 <= j < s.len() && (#[trigger] s[j]).key@ == key implies s[j].time
            <= t by {
            if j < i {
                assert(s[j].time < s[i].time);
            } else if j > i {
                assert(s[j].key@ != key);
            }
        }
        lemma_end_none(s, key, t);
        lemma_start_finds(s, key, t, i);
    }
}

/// Before the channel's first keyframe, a vector channel yields that
/// first keyframe's value, and after its last keyframe the last
/// one's.
pub proof fn lemma_keyframe_edges_vec3(
    s: Seq<Keyframe>,
    key: Seq<char>,
    t: int,
    default: Vec3,
    i: int,
)
    requires
        keyframes_wf(s),
        channel_is_vec3(s, key),
        0 <= i < s.len(),
        s[i].key@ == key,
    ensures
        t < s[i].time && (forall|j: int| 0 <= j < i ==> (#[trigger] s[j]).key@ != key)
            ==> spec_channel_vec3(s, key, t, default) == s[i].value->Vec3Keyframe_0,
        t > s[i].time && (forall|j: int| i < j < s.len() ==> (#[trigger] s[j]).key@ != key)
            ==> spec_channel_vec3(s, key, t, default) == s[i].value->Vec3Keyframe_0,
{
    if t < s[i].time && (forall|j: int| 0 <= j < i ==> (#[trigger] s[j]).key@ != key) {
        assert forall|j: int| 0 <= j < s.len() && (#[trigger] s[j]).key@ == key implies s[j].time
            > t by {
            if j > i {
                assert(s[i].time < s[j].time);
            } else if j < i {
                assert(s[j].key@ != key);
            }
        }
        lemma_start_none(s, key, t);
        lemma_end_finds(s, key, t, i);
    }
    if t > s[i].time && (forall|j: int| i < j < s.len() ==> (#[trigger] s[j]).key@ != key) {
        assert forall|j: int| 0 <= j < s.len() && (#[trigger] s[j]).key@ == key implies s[j].time
            <= t by {
            if j < i {
                assert(s[j].time < s[i].time);
            } else if j > i {
                assert(s[j].key@ != key);
            }
        }
        lemma_end_none(s, key, t);
        lemma_start_finds(s, key, t, i);
    }
}

/// Before the channel's first keyframe, the channel yields that first
/// keyframe's value.
pub proof fn lemma_keyframe_before_first_float(
    s: Seq<Keyframe>,
    key: Seq<char>,
    t: int,
    default: int,
    i: int,
)
    requires
        keyframes_wf(s),
        channel_is_float(s, key),
        0 <= i < s.len(),
        s[i].key@ == key,
        t < s[i].time,
        forall|j: int| 0 <= j < i ==> (#[trigger] s[j]).key@ != key,
    ensures
        spec_channel_float(s, key, t, default) == s[i].value->FloatKeyframe_0 as int,
{
    assert forall|j: int| 0 <= j < s.len() && (#[trigger] s[j]).key@ == key implies s[j].time
        > t by {
        if j > i {
            assert(s[i].time < s[j].time);
        } else if j < i {
            assert(s[j].key@ != key);
        }
    }
    lemma_start_none(s, key, t);
    lemma_end_finds(s, key, t, i);
}

/// After the channel's last keyframe, the channel yields that last
/// keyframe's value.
pub proof fn lemma_keyframe_after_last_float(
    s: Seq<Keyframe>,
    key: Seq<char>,
    t: int,
    default: int,
    i: int,
)
    requires
        keyframes_wf(s),
        channel_is_float(s, key),
        0 <= i < s.len(),
        s[i].key@ == key,
        t > s[i].time,
        t <= TIME_LIMIT + 1,
        forall|j: int| i < j < s.len() ==> (#[trigger] s[j]).key@ != key,
    ensures
        spec_channel_float(s, key, t, default) == s[i].value->FloatKeyframe_0 as int,
{
    assert forall|j: int| 0 <= j < s.len() && (#[trigger] s[j]).key@ == key implies s[j].time
        <= t by {
        if j < i {
            assert(s[j].time < s[i].time);
        } else if j > i {
            assert(s[j].key@ != key);
        }
    }
    lemma_end_none(s, key, t);
    lemma_start_finds(s, key, t, i);
}

} // verus!
