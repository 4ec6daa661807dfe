//! The evaluator: walks the active tree and produces one typed input
//! per fixture, blending track contributions in authored order.

use crate::active::{active_seq_wf, active_track_wf, ActiveSequence, ActiveTrack, SequenceTree};
use crate::effects::{spec_color_effect_value, ColorEffectInfo, EffectInfo};
use crate::fixture::{
    get_default_inputs, merge_all, spec_default_input, spec_input_in_range,
    spec_inputs_compatible, spec_merge, FixtureInfo, FixtureInput, FixtureType,
};
use crate::vec3::{spec_vec3_zero, Vec3};
use vstd::prelude::*;

verus! {

/// The default inputs for a row of fixtures, element-wise by type.
pub open spec fn spec_defaults(fx: Seq<FixtureInfo>) -> Seq<FixtureInput> {
    Seq::new(fx.len(), |i: int| spec_default_input(fx[i].input_type))
}

/// An input of the shape a fixture of type `t` expects.
pub open spec fn input_matches_type(inp: FixtureInput, t: FixtureType) -> bool {
    match t {
        FixtureType::Color => inp is Color,
        FixtureType::Vec3 => inp is Vec3,
        FixtureType::Combined => inp is Combined,
    }
}

/// What one live effect contributes for each fixture: its color
/// effect sampled at the fixture's position, or a zero vector for
/// the reserved vector variants.
pub open spec fn spec_effect_track_values(info: EffectInfo, fx: Seq<FixtureInfo>) -> Seq<
    FixtureInput,
> {
    Seq::new(
        fx.len(),
        |i: int|
            match info {
                EffectInfo::ColorEffectInfo(c) => FixtureInput::Color(
                    spec_color_effect_value(c, fx[i].position),
                ),
                EffectInfo::Vec3EffectInfo(_) => FixtureInput::Vec3(spec_vec3_zero()),
            },
    )
}

/// `incoming` merged into `acc` element-wise.
pub open spec fn spec_merge_rows(
    acc: Seq<FixtureInput>,
    incoming: Seq<FixtureInput>,
    factor: int,
    mode: crate::color::ColorBlendingMode,
) -> Seq<FixtureInput> {
    Seq::new(acc.len(), |i: int| spec_merge(acc[i], incoming[i], factor, mode))
}

/// The fixture row after folding in the first `k` children of `a`.
pub open spec fn spec_eval_children(a: ActiveSequence, fx: Seq<FixtureInfo>, k: int) -> Seq<
    FixtureInput,
>
    decreases a, k,
{
    if k <= 0 {
        spec_defaults(fx)
    } else {
        let prev = spec_eval_children(a, fx, k - 1);
        if 0 <= k - 1 < a.children@.len() {
            match a.children@[k - 1] {
                ActiveTrack::ActiveEffectTrack(at) => match at.current_info {
                    Some(info) => spec_merge_rows(
                        prev,
                        spec_effect_track_values(info, fx),
                        at.factor as int,
                        at.color_blending_mode,
                    ),
                    None => prev,
                },
                ActiveTrack::ActiveSequenceTrack(st) => match st.child {
                    Some(pair) => spec_merge_rows(
                        prev,
                        spec_eval_sequence(pair.1, fx),
                        st.factor as int,
                        st.color_blending_mode,
                    ),
                    None => prev,
                },
                ActiveTrack::ActiveTriggerTrack(_) => prev,
            }
        } else {
            prev
        }
    }
}

/// The fixture row an active sequence evaluates to.
pub open spec fn spec_eval_sequence(a: ActiveSequence, fx: Seq<FixtureInfo>) -> Seq<FixtureInput>
    decreases a, a.children@.len() + 1,
{
    spec_eval_children(a, fx, a.children@.len() as int)
}

/// Every effect track in the subtree contributes a shape every
/// fixture in the row accepts.
pub open spec fn tree_fixtures_compatible(a: ActiveSequence, fx: Seq<FixtureInfo>) -> bool
    decreases a,
{
    forall|i: int|
        0 <= i < a.children@.len() ==> match #[trigger] a.children@[i] {
            ActiveTrack::ActiveEffectTrack(at) => match at.current_info {
                Some(EffectInfo::ColorEffectInfo(_)) => forall|j: int|
                    0 <= j < fx.len() ==> ((#[trigger] fx[j].input_type) is Color || fx[j].input_type is Combined),
                Some(EffectInfo::Vec3EffectInfo(_)) => forall|j: int|
                    0 <= j < fx.len() ==> ((#[trigger] fx[j].input_type) is Vec3 || fx[j].input_type is Combined),
                None => true,
            },
            ActiveTrack::ActiveSequenceTrack(st) => match st.child {
                Some(pair) => tree_fixtures_compatible(pair.1, fx),
                None => true,
            },
            ActiveTrack::ActiveTriggerTrack(_) => true,
        }
}

/// Every fixture's position is representable.
pub open spec fn fixtures_wf(fx: Seq<FixtureInfo>) -> bool {
    forall|i: int| 0 <= i < fx.len() ==> (#[trigger] fx[i]).position.in_range()
}

/// Every stored effect is color-valued.
pub open spec fn effects_color_only(effects: crate::store::SimpleStore<crate::effects::Effect>) -> bool {
    forall|h: crate::store::SimpleHandle<crate::effects::Effect>|
        (#[trigger] effects.spec_get(h)) matches Some(e) ==> e.info is ColorEffectInfo
}

/// Every fixture in the row accepts color contributions.
pub open spec fn fixtures_accept_color(fx: Seq<FixtureInfo>) -> bool {
    forall|j: int|
        0 <= j < fx.len() ==> ((#[trigger] fx[j].input_type) is Color || fx[j].input_type is Combined)
}

/// A tree updated against a store of color-valued effects only
/// contributes shapes that color-accepting fixtures take.
pub proof fn lemma_updated_tree_compatible(
    base: Option<ActiveSequence>,
    new: ActiveSequence,
    seqs: crate::store::SimpleStore<crate::timeline::Sequence>,
    effects: crate::store::SimpleStore<crate::effects::Effect>,
    handle: crate::store::SimpleHandle<crate::timeline::Sequence>,
    t: int,
    frames: Seq<crate::spectrum::SpectrumData>,
    newc: int,
    fuel: nat,
    fx: Seq<FixtureInfo>,
)
    requires
        crate::active::seq_updated(base, new, seqs, effects, handle, t, frames, newc, fuel),
        crate::active::stores_wf(seqs, effects),
        effects_color_only(effects),
        fixtures_accept_color(fx),
    ensures
        tree_fixtures_compatible(new, fx),
    decreases fuel,
{
    match seqs.spec_get(new.original) {
        None => {},
        Some(sq) => {
            assert forall|i: int|
                0 <= i < new.children@.len() implies match #[trigger] new.children@[i] {
                ActiveTrack::ActiveEffectTrack(at) => match at.current_info {
                    Some(EffectInfo::ColorEffectInfo(_)) => forall|j: int|
                        0 <= j < fx.len() ==> ((#[trigger] fx[j].input_type) is Color || fx[j].input_type is Combined),
                    Some(EffectInfo::Vec3EffectInfo(_)) => forall|j: int|
                        0 <= j < fx.len() ==> ((#[trigger] fx[j].input_type) is Vec3 || fx[j].input_type is Combined),
                    None => true,
                },
                ActiveTrack::ActiveSequenceTrack(st) => match st.child {
                    Some(pair) => tree_fixtures_compatible(pair.1, fx),
                    None => true,
                },
                ActiveTrack::ActiveTriggerTrack(_) => true,
            } by {
                let reuse = match base {
                    Some(ob) => ob.children@.len() == sq.tracks@.len(),
                    None => false,
                };
                let base_i = if reuse {
                    Some(base.unwrap().children@[i])
                } else {
                    None
                };
                assert(crate::active::track_updated(
                    base_i,
                    new.children@[i],
                    sq.tracks@[i],
                    seqs,
                    effects,
                    t,
                    frames,
                    newc,
                    fuel,
                ));
                match sq.tracks@[i].contents {
                    crate::timeline::TrackContents::EffectTrack { effect_handle } => {
                        assert(effects.spec_get(effect_handle) matches Some(e) ==> e.info is ColorEffectInfo);
                        match effects.spec_get(effect_handle) {
                            Some(e) => {
                                let at = new.children@[i]->ActiveEffectTrack_0;
                                let base_info = match base_i {
                                    Some(ActiveTrack::ActiveEffectTrack(ob)) => match ob.current_info {
                                        Some(oi) => if crate::effects::spec_same_variant(
                                            oi,
                                            e.info,
                                        ) {
                                            oi
                                        } else {
                                            e.info
                                        },
                                        None => e.info,
                                    },
                                    _ => e.info,
                                };
                                assert(crate::effects::spec_effect_updated_rel(
                                    base_info,
                                    at.current_info.unwrap(),
                                    e.keyframes.keyframes@,
                                    t,
                                    frames,
                                    newc,
                                ));
                                assert(base_info is ColorEffectInfo);
                                assert(at.current_info.unwrap() is ColorEffectInfo);
                            },
                            None => {},
                        }
                    },
                    crate::timeline::TrackContents::SequenceTrack { clips } => {
                        match crate::timeline::spec_find_current(clips@, t) {
                            Some(clip) => {
                                if fuel > 0 {
                                    let st = new.children@[i]->ActiveSequenceTrack_0;
                                    match st.child {
                                        Some(pair) => {
                                            let old_sub = match base_i {
                                                Some(ActiveTrack::ActiveSequenceTrack(ob)) => match ob.child {
                                                    Some(p) => if p.0 == clip.time_segment {
                                                        Some(p.1)
                                                    } else {
                                                        None
                                                    },
                                                    None => None,
                                                },
                                                _ => None,
                                            };
                                            lemma_updated_tree_compatible(
                                                old_sub,
                                                pair.1,
                                                seqs,
                                                effects,
                                                clip.sequence_handle,
                                                t - clip.time_segment.start_time
                                                    + clip.time_segment.start_offset,
                                                frames,
                                                newc,
                                                (fuel - 1) as nat,
                                                fx,
                                            );
                                        },
                                        None => {},
                                    }
                                }
                            },
                            None => {},
                        }
                    },
                    crate::timeline::TrackContents::TriggerTrack { .. } => {},
                }
            }
        },
    }
}

/// An empty sequence, one with no tracks at all, evaluates to the
/// default input row.
pub proof fn lemma_empty_sequence_defaults(a: ActiveSequence, fx: Seq<FixtureInfo>)
    requires
        a.children@.len() == 0,
    ensures
        spec_eval_sequence(a, fx) == spec_defaults(fx),
{
}

/// Contents-equal trees fold their first `k` children to the same
/// row.
proof fn lemma_eval_children_view_eq(
    x: ActiveSequence,
    y: ActiveSequence,
    fx: Seq<FixtureInfo>,
    k: int,
)
    requires
        crate::active::active_seq_view_eq(x, y),
        k <= x.children@.len(),
    ensures
        spec_eval_children(x, fx, k) == spec_eval_children(y, fx, k),
    decreases x, k,
{
    if k > 0 {
        lemma_eval_children_view_eq(x, y, fx, k - 1);
        assert(crate::active::active_track_view_eq(x.children@[k - 1], y.children@[k - 1]));
        match (x.children@[k - 1], y.children@[k - 1]) {
            (ActiveTrack::ActiveEffectTrack(ax), ActiveTrack::ActiveEffectTrack(ay)) => {
                match (ax.current_info, ay.current_info) {
                    (Option::Some(ix), Option::Some(iy)) => {
                        assert(spec_effect_track_values(ix, fx) =~= spec_effect_track_values(
                            iy,
                            fx,
                        )) by {
                            assert forall|i: int|
                                0 <= i < fx.len() implies spec_effect_track_values(ix, fx)[i]
                                == spec_effect_track_values(iy, fx)[i] by {
                                match (ix, iy) {
                                    (
                                        EffectInfo::ColorEffectInfo(cx),
                                        EffectInfo::ColorEffectInfo(cy),
                                    ) => {
                                        match (cx, cy) {
                                            (
                                                ColorEffectInfo::ColorFrequencyCascadeEffect(ex),
                                                ColorEffectInfo::ColorFrequencyCascadeEffect(ey),
                                            ) => {
                                                assert(ex.past_values@.map_values(
                                                    |pv: (i64, i64)| pv.0,
                                                ) == ey.past_values@.map_values(
                                                    |pv: (i64, i64)| pv.0,
                                                ));
                                                assert(ex.past_values@.map_values(
                                                    |pv: (i64, i64)| pv.1,
                                                ) == ey.past_values@.map_values(
                                                    |pv: (i64, i64)| pv.1,
                                                ));
                                                assert(crate::effects::spec_cascade_value(
                                                    ex,
                                                    fx[i].position,
                                                ) == crate::effects::spec_cascade_value(
                                                    ey,
                                                    fx[i].position,
                                                ));
                                            },
                                            _ => {},
                                        }
                                    },
                                    _ => {},
                                }
                            }
                        }
                        assert(spec_merge_rows(
                            spec_eval_children(x, fx, k - 1),
                            spec_effect_track_values(ix, fx),
                            ax.factor as int,
                            ax.color_blending_mode,
                        ) == spec_merge_rows(
                            spec_eval_children(y, fx, k - 1),
                            spec_effect_track_values(iy, fx),
                            ay.factor as int,
                            ay.color_blending_mode,
                        ));
                    },
                    _ => {},
                }
            },
            (ActiveTrack::ActiveSequenceTrack(sx), ActiveTrack::ActiveSequenceTrack(sy)) => {
                match (sx.child, sy.child) {
                    (Option::Some(px), Option::Some(py)) => {
                        lemma_eval_children_view_eq(
                            px.1,
                            py.1,
                            fx,
                            px.1.children@.len() as int,
                        );
                        assert(spec_eval_sequence(px.1, fx) == spec_eval_sequence(py.1, fx));
                    },
                    _ => {},
                }
            },
            _ => {},
        }
    }
}

/// Contents-equal trees evaluate to the same row.
pub proof fn lemma_eval_view_eq(x: ActiveSequence, y: ActiveSequence, fx: Seq<FixtureInfo>)
    requires
        crate::active::active_seq_view_eq(x, y),
    ensures
        spec_eval_sequence(x, fx) == spec_eval_sequence(y, fx),
{
    lemma_eval_children_view_eq(x, y, fx, x.children@.len() as int);
}

/// Idempotent re-entry: two consecutive tree updates at one playhead
/// position, with no authoring edits in between and no stored effect
/// consuming live audio, yield identical evaluator output.
pub proof fn lemma_idempotent_reentry(
    base0: Option<ActiveSequence>,
    t1: ActiveSequence,
    t2: ActiveSequence,
    seqs: crate::store::SimpleStore<crate::timeline::Sequence>,
    effects: crate::store::SimpleStore<crate::effects::Effect>,
    handle: crate::store::SimpleHandle<crate::timeline::Sequence>,
    t: int,
    frames1: Seq<crate::spectrum::SpectrumData>,
    newc1: int,
    frames2: Seq<crate::spectrum::SpectrumData>,
    newc2: int,
    fuel: nat,
    fx: Seq<FixtureInfo>,
)
    requires
        crate::active::seq_updated(base0, t1, seqs, effects, handle, t, frames1, newc1, fuel),
        crate::active::seq_updated(Some(t1), t2, seqs, effects, handle, t, frames2, newc2, fuel),
        crate::active::stores_wf(seqs, effects),
        crate::active::stores_non_reactive(effects),
    ensures
        spec_eval_sequence(t2, fx) == spec_eval_sequence(t1, fx),
{
    crate::active::lemma_update_idempotent(
        base0,
        t1,
        t2,
        seqs,
        effects,
        handle,
        t,
        frames1,
        newc1,
        frames2,
        newc2,
        fuel,
    );
    lemma_eval_view_eq(t2, t1, fx);
}

/// What one live effect contributes for each fixture.
fn effect_track_values(info: &EffectInfo, fixtures: &Vec<FixtureInfo>) -> (r: Vec<FixtureInput>)
    requires
        info.wf(),
        fixtures_wf(fixtures@),
    ensures
        r@ == spec_effect_track_values(*info, fixtures@),
        forall|i: int| 0 <= i < r@.len() ==> spec_input_in_range(#[trigger] r@[i]),
{
    let n: usize = fixtures.len();
    let mut out: Vec<FixtureInput> = Vec::new();
    let mut i: usize = 0;
    while i < n
        invariant
            info.wf(),
            fixtures_wf(fixtures@),
            n == fixtures@.len(),
            0 <= i <= n,
            out@.len() == i,
            forall|j: int|
                0 <= j < i ==> #[trigger] out@[j] == spec_effect_track_values(*info, fixtures@)[j],
            forall|j: int| 0 <= j < i ==> spec_input_in_range(#[trigger] out@[j]),
        decreases n - i,
    {
        match info {
            EffectInfo::ColorEffectInfo(c) => {
                let color = c.get_value(&fixtures[i].position);
                out.push(FixtureInput::Color(color));
            },
            EffectInfo::Vec3EffectInfo(_) => {
                out.push(FixtureInput::Vec3(Vec3::zero()));
            },
        }
        i += 1;
    }
    proof {
        assert(out@ =~= spec_effect_track_values(*info, fixtures@));
    }
    out
}

/// The fixture row one active sequence evaluates to.
fn get_values_recursive_sequence(
    current_active_sequence: &ActiveSequence,
    fixtures: &Vec<FixtureInfo>,
) -> (r: Vec<FixtureInput>)
    requires
        active_seq_wf(*current_active_sequence),
        tree_fixtures_compatible(*current_active_sequence, fixtures@),
        fixtures_wf(fixtures@),
    ensures
        r@ == spec_eval_sequence(*current_active_sequence, fixtures@),
        r@.len() == fixtures@.len(),
        forall|i: int| 0 <= i < r@.len() ==> spec_input_in_range(#[trigger] r@[i]),
        forall|i: int|
            0 <= i < r@.len() ==> input_matches_type(#[trigger] r@[i], fixtures@[i].input_type),
    decreases *current_active_sequence,
{
    let mut final_inputs: Vec<FixtureInput> = get_default_inputs(fixtures);
    proof {
        assert(final_inputs@ =~= spec_defaults(fixtures@));
    }
    let n: usize = current_active_sequence.children.len();
    let mut i: usize = 0;
    while i < n
        invariant
            active_seq_wf(*current_active_sequence),
            tree_fixtures_compatible(*current_active_sequence, fixtures@),
            fixtures_wf(fixtures@),
            n == current_active_sequence.children@.len(),
            0 <= i <= n,
            final_inputs@ == spec_eval_children(*current_active_sequence, fixtures@, i as int),
            final_inputs@.len() == fixtures@.len(),
            forall|j: int|
                0 <= j < final_inputs@.len() ==> spec_input_in_range(#[trigger] final_inputs@[j]),
            forall|j: int|
                0 <= j < final_inputs@.len() ==> input_matches_type(
                    #[trigger] final_inputs@[j],
                    fixtures@[j].input_type,
                ),
        decreases n - i,
    {
        proof {
            assert(active_track_wf(current_active_sequence.children@[i as int]));
        }
        match &current_active_sequence.children[i] {
            ActiveTrack::ActiveEffectTrack(at) => {
                match &at.current_info {
                    Some(info) => {
                        let new_values = effect_track_values(info, fixtures);
                        proof {
                            assert forall|j: int|
                                0 <= j < final_inputs@.len() implies spec_inputs_compatible(
                                final_inputs@[j],
                                new_values@[j],
                            ) by {
                                assert(input_matches_type(
                                    final_inputs@[j],
                                    fixtures@[j].input_type,
                                ));
                            }
                        }
                        merge_all(
                            &mut final_inputs,
                            &new_values,
                            at.factor,
                            at.color_blending_mode,
                        );
                    },
                    None => {},
                }
            },
            ActiveTrack::ActiveSequenceTrack(st) => {
                match &st.child {
                    Some(pair) => {
                        let new_values = get_values_recursive_sequence(&pair.1, fixtures);
                        proof {
                            assert forall|j: int|
                                0 <= j < final_inputs@.len() implies spec_inputs_compatible(
                                final_inputs@[j],
                                new_values@[j],
                            ) by {
                                assert(input_matches_type(
                                    final_inputs@[j],
                                    fixtures@[j].input_type,
                                ));
                                assert(input_matches_type(new_values@[j], fixtures@[j].input_type));
                            }
                        }
                        merge_all(
                            &mut final_inputs,
                            &new_values,
                            st.factor,
                            st.color_blending_mode,
                        );
                    },
                    None => {},
                }
            },
            ActiveTrack::ActiveTriggerTrack(_) => {},
        }
        proof {
            assert(final_inputs@ =~= spec_eval_children(
                *current_active_sequence,
                fixtures@,
                i + 1,
            ));
        }
        i += 1;
    }
    final_inputs
}

impl SequenceTree {
    /// The fixture row the whole mirror evaluates to: defaults when
    /// nothing is scheduled.
    pub fn get_values_recursive(&self, fixtures: &Vec<FixtureInfo>) -> (r: Vec<FixtureInput>)
        requires
            self.wf(),
            match self.primary_node {
                Some(node) => tree_fixtures_compatible(node, fixtures@),
                None => true,
            },
            fixtures_wf(fixtures@),
        ensures
            r@ == match self.primary_node {
                Some(node) => spec_eval_sequence(node, fixtures@),
                None => spec_defaults(fixtures@),
            },
            r@.len() == fixtures@.len(),
            forall|i: int| 0 <= i < r@.len() ==> spec_input_in_range(#[trigger] r@[i]),
            forall|i: int|
                0 <= i < r@.len() ==> input_matches_type(#[trigger] r@[i], fixtures@[i].input_type),
    {
        match &self.primary_node {
            Some(primary_node) => get_values_recursive_sequence(primary_node, fixtures),
            None => {
                let r = get_default_inputs(fixtures);
                proof {
                    assert(r@ =~= spec_defaults(fixtures@));
                }
                r
            },
        }
    }
}

} // verus!
