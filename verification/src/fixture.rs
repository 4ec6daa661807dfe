//! Fixtures and the typed values the evaluator writes onto them.

use crate::color::{
    blend_colors, spec_blend, spec_black, spec_none, Color, ColorBlendingMode,
};
use crate::math::{clamp64, rdiv64, spec_clamp, spec_rdiv, SCALE};
use crate::vec3::{spec_vec3_zero, Vec3};
use vstd::prelude::*;

verus! {

/// The shape of value a fixture expects.
#[derive(Clone, Copy, Debug, PartialEq, Eq, Structural)]
pub enum FixtureType {
    Color,
    Vec3,
    Combined,
}

impl Default for FixtureType {
    /// Fixtures accept both value shapes unless narrowed.
    fn default() -> (r: Self)
        ensures
            r == FixtureType::Combined,
    {
        FixtureType::Combined
    }
}

/// The typed value evaluation produces for one fixture.
#[derive(Clone, Copy, Debug, PartialEq, Eq, Structural)]
pub enum FixtureInput {
    Color(Color),
    Vec3(Vec3),
    Combined(Color, Vec3),
}

/// The default input for a fixture of the given type: transparent
/// color, zero vector, or both.
pub open spec fn spec_default_input(t: FixtureType) -> FixtureInput {
    match t {
        FixtureType::Color => FixtureInput::Color(spec_none()),
        FixtureType::Vec3 => FixtureInput::Vec3(spec_vec3_zero()),
        FixtureType::Combined => FixtureInput::Combined(spec_none(), spec_vec3_zero()),
    }
}

impl FixtureType {
    /// The default input for this fixture type.
    pub fn get_default_input(&self) -> (r: FixtureInput)
        ensures
            r == spec_default_input(*self),
    {
        match self {
            FixtureType::Color => FixtureInput::Color(Color::none()),
            FixtureType::Vec3 => FixtureInput::Vec3(Vec3::zero()),
            FixtureType::Combined => FixtureInput::Combined(Color::none(), Vec3::zero()),
        }
    }
}

/// `other` may be merged into `self`: the shapes agree, or a combined
/// target absorbs a single-shape peer.
pub open spec fn spec_inputs_compatible(a: FixtureInput, b: FixtureInput) -> bool {
    match (a, b) {
        (FixtureInput::Color(_), FixtureInput::Color(_)) => true,
        (FixtureInput::Vec3(_), FixtureInput::Vec3(_)) => true,
        (FixtureInput::Combined(_, _), _) => true,
        _ => false,
    }
}

/// Both carried values are representable.
pub open spec fn spec_input_in_range(a: FixtureInput) -> bool {
    match a {
        FixtureInput::Color(c) => c.in_range(),
        FixtureInput::Vec3(v) => v.in_range(),
        FixtureInput::Combined(c, v) => c.in_range() && v.in_range(),
    }
}

/// `b` merged into `a`: colors blend under the track's mode, vector
/// parts pass through unchanged.
pub open spec fn spec_merge(a: FixtureInput, b: FixtureInput, factor: int, mode: ColorBlendingMode) -> FixtureInput {
    match (a, b) {
        (FixtureInput::Color(ac), FixtureInput::Color(bc)) => FixtureInput::Color(
            spec_blend(ac, bc, factor, mode),
        ),
        (FixtureInput::Combined(ac, av), FixtureInput::Color(bc)) => FixtureInput::Combined(
            spec_blend(ac, bc, factor, mode),
            av,
        ),
        _ => a,
    }
}

impl FixtureInput {
    /// Merges `other` into this input under the track's blend mode
    /// and opacity.
    pub fn merge(&mut self, other: &FixtureInput, factor: i64, color_blending_mode: ColorBlendingMode)
        requires
            spec_inputs_compatible(*old(self), *other),
            spec_input_in_range(*old(self)),
            spec_input_in_range(*other),
            0 <= factor <= SCALE,
        ensures
            *final (self) == spec_merge(*old(self), *other, factor as int, color_blending_mode),
            spec_input_in_range(*final (self)),
    {
        match (*self, *other) {
            (FixtureInput::Color(self_color), FixtureInput::Color(other_color)) => {
                *self = FixtureInput::Color(
                    blend_colors(&self_color, &other_color, factor, color_blending_mode),
                );
            },
            (
                FixtureInput::Combined(self_color, self_vec3),
                FixtureInput::Color(other_color),
            ) => {
                *self = FixtureInput::Combined(
                    blend_colors(&self_color, &other_color, factor, color_blending_mode),
                    self_vec3,
                );
            },
            _ => {},
        }
    }
}

/// Merges `other` into `inputs` pairwise.
pub fn merge_all(
    inputs: &mut Vec<FixtureInput>,
    other: &Vec<FixtureInput>,
    factor: i64,
    color_blending_mode: ColorBlendingMode,
)
    requires
        old(inputs)@.len() == other@.len(),
        forall|i: int|
            0 <= i < old(inputs)@.len() ==> spec_inputs_compatible(
                #[trigger] old(inputs)@[i],
                other@[i],
            ),
        forall|i: int| 0 <= i < old(inputs)@.len() ==> spec_input_in_range(#[trigger] old(inputs)@[i]),
        forall|i: int| 0 <= i < other@.len() ==> spec_input_in_range(#[trigger] other@[i]),
        0 <= factor <= SCALE,
    ensures
        final (inputs)@.len() == old(inputs)@.len(),
        forall|i: int|
            0 <= i < old(inputs)@.len() ==> final (inputs)@[i] == spec_merge(
                #[trigger] old(inputs)@[i],
                other@[i],
                factor as int,
                color_blending_mode,
            ),
        forall|i: int|
            0 <= i < final (inputs)@.len() ==> spec_input_in_range(#[trigger] final (inputs)@[i]),
{
    let n: usize = inputs.len();
    let mut i: usize = 0;
    while i < n
        invariant
            n == inputs@.len(),
            inputs@.len() == old(inputs)@.len(),
            other@.len() == old(inputs)@.len(),
            0 <= i <= n,
            forall|j: int|
                0 <= j < old(inputs)@.len() ==> spec_inputs_compatible(
                    #[trigger] old(inputs)@[j],
                    other@[j],
                ),
            forall|j: int|
                0 <= j < old(inputs)@.len() ==> spec_input_in_range(#[trigger] old(inputs)@[j]),
            forall|j: int| 0 <= j < other@.len() ==> spec_input_in_range(#[trigger] other@[j]),
            0 <= factor <= SCALE,
            forall|j: int| i <= j < n ==> inputs@[j] == #[trigger] old(inputs)@[j],
            forall|j: int|
                0 <= j < i ==> inputs@[j] == spec_merge(
                    #[trigger] old(inputs)@[j],
                    other@[j],
                    factor as int,
                    color_blending_mode,
                ),
            forall|j: int| 0 <= j < i ==> spec_input_in_range(#[trigger] inputs@[j]),
        decreases n - i,
    {
        let mut value: FixtureInput = inputs[i];
        proof {
            assert(value == old(inputs)@[i as int]);
            assert(spec_inputs_compatible(old(inputs)@[i as int], other@[i as int]));
            assert(spec_input_in_range(old(inputs)@[i as int]));
            assert(spec_input_in_range(other@[i as int]));
        }
        value.merge(&other[i], factor, color_blending_mode);
        inputs[i] = value;
        i += 1;
    }
}

/// An output target: the groups it belongs to, the value shape it
/// expects, and the value evaluation most recently produced for it.
pub struct Fixture {
    pub groups: Vec<u32>,
    pub input_type: FixtureType,
    pub pending_value: Option<FixtureInput>,
}

impl Fixture {
    /// A fixture with no pending value yet.
    pub fn new(groups: Vec<u32>, input_type: FixtureType) -> (r: Fixture)
        ensures
            r.groups == groups,
            r.input_type == input_type,
            r.pending_value is None,
    {
        Fixture { groups, input_type, pending_value: None }
    }
}

/// What the evaluator reads of a fixture: groups, expected shape, and
/// world position.
pub struct FixtureInfo {
    pub groups: Vec<u32>,
    pub input_type: FixtureType,
    pub position: Vec3,
}

/// The default inputs for a row of fixtures, element-wise by type.
pub fn get_default_inputs(fixtures: &Vec<FixtureInfo>) -> (r: Vec<FixtureInput>)
    ensures
        r@.len() == fixtures@.len(),
        forall|i: int|
            0 <= i < fixtures@.len() ==> r@[i] == spec_default_input(
                (#[trigger] fixtures@[i]).input_type,
            ),
{
    let n: usize = fixtures.len();
    let mut out: Vec<FixtureInput> = Vec::new();
    let mut i: usize = 0;
    while i < n
        invariant
            n == fixtures@.len(),
            0 <= i <= n,
            out@.len() == i,
            forall|j: int|
                0 <= j < i ==> out@[j] == spec_default_input(
                    (#[trigger] fixtures@[j]).input_type,
                ),
        decreases n - i,
    {
        out.push(fixtures[i].input_type.get_default_input());
        i += 1;
    }
    out
}

/// A color-channel fixture: the color most recently applied to it.
pub struct ColorFixture {
    pub color: Color,
}

/// The color part of a pending value, where one is carried.
pub open spec fn spec_pending_color(pending: FixtureInput) -> Option<Color> {
    match pending {
        FixtureInput::Color(c) => Some(c),
        FixtureInput::Combined(c, _) => Some(c),
        FixtureInput::Vec3(_) => None,
    }
}

/// The color a fixture actually shows: its color faded toward black
/// by how far its alpha falls short of full.
pub open spec fn spec_displayed_color(color: Color) -> Color {
    spec_blend(
        spec_black(),
        color,
        spec_clamp(color.alpha as int, 0, SCALE as int),
        ColorBlendingMode::Mix,
    )
}

/// Applies a pending color-carrying value to a color fixture and
/// returns the color it will actually show: the new color faded
/// toward black by its alpha.
pub fn apply_color_fixture_pending_value(fixture: &mut ColorFixture, pending: &FixtureInput) -> (shown: Color)
    requires
        old(fixture).color.in_range(),
        spec_input_in_range(*pending),
        spec_pending_color(*pending) is Some,
    ensures
        final (fixture).color == spec_pending_color(*pending).unwrap(),
        final (fixture).color.in_range(),
        shown == spec_displayed_color(final (fixture).color),
        shown.in_range(),
{
    match pending {
        FixtureInput::Color(color) => {
            fixture.color = *color;
        },
        FixtureInput::Combined(color, _vec3) => {
            fixture.color = *color;
        },
        FixtureInput::Vec3(_) => {},
    }
    let factor: i64 = clamp64(fixture.color.alpha, 0, SCALE);
    blend_colors(&Color::black(), &fixture.color, factor, ColorBlendingMode::Mix)
}

/// One DMX channel byte for a color component: the component as a
/// fraction of full, scaled to the 8-bit range and saturated.
pub fn component_to_dmx(component: i64) -> (b: u8)
    requires
        -crate::math::VAL_LIMIT <= component <= crate::math::VAL_LIMIT,
    ensures
        b == spec_clamp(spec_rdiv(component as int * 255, SCALE as int), 0, 255),
{
    proof {
        if component >= 0 {
            crate::math::lemma_rdiv_bounds(component as int * 255, SCALE as int);
        } else {
            crate::math::lemma_rdiv_bounds(-(component as int * 255), SCALE as int);
        }
        assert(-0x4000_0000_0000_0000 <= component * 255 <= 0x4000_0000_0000_0000)
            by (nonlinear_arith)
            requires
                -crate::math::VAL_LIMIT <= component <= crate::math::VAL_LIMIT,
        ;
    }
    let scaled: i64 = rdiv64(component * 255, SCALE);
    clamp64(scaled, 0, 255) as u8
}

} // verus!
