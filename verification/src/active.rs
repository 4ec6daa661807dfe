//! The active tree: a lazily built, incrementally updated mirror of
//! the currently scheduled path through the authored timeline.
//!
//! Each tick the tree is re-aligned with the stores: effect tracks
//! refresh their live parameters, sequence tracks follow the clip
//! that covers the current time, and branches whose handles no longer
//! resolve are dropped so that they evaluate to defaults. Recursion
//! into child sequences is depth-bounded: authoring cycles are cut
//! off instead of looping.

use crate::color::ColorBlendingMode;
use crate::effects::{
    copy_effect_info, same_variant, spec_effect_updated_rel, spec_same_variant, Effect, EffectInfo,
    EffectUpdateCommonInfo,
};
use crate::math::TIME_LIMIT;
use crate::spectrum::{RecentFftData, SpectrumData};
use crate::store::{SimpleHandle, SimpleStore};
use crate::timeline::{
    find_current, spec_find_current, Clip, Sequence, TimeSegment, Track, TrackContents,
};
use vstd::prelude::*;

verus! {

/// The live mirror of one scheduled sequence.
pub struct ActiveSequence {
    pub local_time: i64,
    pub original: SimpleHandle<Sequence>,
    pub children: Vec<ActiveTrack>,
}

/// The live mirror of an effect track. While the effect handle no
/// longer resolves, the live parameters are dropped and the track
/// contributes nothing.
pub struct ActiveEffectTrack {
    pub color_blending_mode: ColorBlendingMode,
    pub factor: i64,
    pub local_time: i64,
    pub original: SimpleHandle<Effect>,
    pub current_info: Option<EffectInfo>,
}

/// The live mirror of a sequence track: at most one scheduled child.
pub struct ActiveSequenceTrack {
    pub color_blending_mode: ColorBlendingMode,
    pub factor: i64,
    pub local_time: i64,
    pub child: Option<(TimeSegment, ActiveSequence)>,
}

/// The live mirror of a trigger track; reserved.
pub struct ActiveTriggerTrack {
    pub reserved: bool,
}

/// One live child of an active sequence.
pub enum ActiveTrack {
    ActiveEffectTrack(ActiveEffectTrack),
    ActiveSequenceTrack(ActiveSequenceTrack),
    ActiveTriggerTrack(ActiveTriggerTrack),
}

/// Every live parameter in the subtree is representable.
pub open spec fn active_seq_wf(a: ActiveSequence) -> bool
    decreases a,
{
    forall|i: int| 0 <= i < a.children@.len() ==> active_track_wf(#[trigger] a.children@[i])
}

/// Every live parameter in the track's subtree is representable.
pub open spec fn active_track_wf(t: ActiveTrack) -> bool
    decreases t,
{
    match t {
        ActiveTrack::ActiveEffectTrack(at) => {
            &&& 0 <= at.factor <= crate::math::SCALE
            &&& match at.current_info {
                Some(info) => info.wf(),
                None => true,
            }
        },
        ActiveTrack::ActiveSequenceTrack(st) => {
            &&& 0 <= st.factor <= crate::math::SCALE
            &&& match st.child {
                Some(pair) => active_seq_wf(pair.1),
                None => true,
            }
        },
        ActiveTrack::ActiveTriggerTrack(_) => true,
    }
}

/// Every stored sequence is well-formed and every stored effect's
/// parameters fit its keyframes. Nothing is demanded of handles:
/// tracks whose handles no longer resolve are recovered at update
/// time, not ruled out.
pub open spec fn stores_wf(seqs: SimpleStore<Sequence>, effects: SimpleStore<Effect>) -> bool {
    &&& forall|h: SimpleHandle<Sequence>| (#[trigger] seqs.spec_get(h)) matches Some(sq) ==> sq.wf()
    &&& forall|h: SimpleHandle<Effect>|
        (#[trigger] effects.spec_get(h)) matches Some(e) ==> e.info.wf() && e.info.keyframes_ok(
            e.keyframes.keyframes@,
        )
}

/// `new` is `base` brought up to time `t` against the stores, with
/// recursion into child sequences bounded by `fuel`.
pub open spec fn seq_updated(
    base: Option<ActiveSequence>,
    new: ActiveSequence,
    seqs: SimpleStore<Sequence>,
    effects: SimpleStore<Effect>,
    handle: SimpleHandle<Sequence>,
    t: int,
    frames: Seq<SpectrumData>,
    newc: int,
    fuel: nat,
) -> bool
    decreases fuel, 1int,
{
    &&& new.original == handle
    &&& new.local_time == t
    &&& match seqs.spec_get(handle) {
        None => new.children@.len() == 0,
        Some(sq) => {
            let reuse = match base {
                Some(ob) => ob.children@.len() == sq.tracks@.len(),
                None => false,
            };
            &&& new.children@.len() == sq.tracks@.len()
            &&& forall|i: int|
                0 <= i < sq.tracks@.len() ==> track_updated(
                    if reuse {
                        Some(base.unwrap().children@[i])
                    } else {
                        None
                    },
                    #[trigger] new.children@[i],
                    sq.tracks@[i],
                    seqs,
                    effects,
                    t,
                    frames,
                    newc,
                    fuel,
                )
        },
    }
}

/// `new` is the live mirror of `authored`, brought up to time `t`
/// from the base child `base`.
pub open spec fn track_updated(
    base: Option<ActiveTrack>,
    new: ActiveTrack,
    authored: Track,
    seqs: SimpleStore<Sequence>,
    effects: SimpleStore<Effect>,
    t: int,
    frames: Seq<SpectrumData>,
    newc: int,
    fuel: nat,
) -> bool
    decreases fuel, 0int,
{
    match authored.contents {
        TrackContents::EffectTrack { effect_handle } => {
            &&& new is ActiveEffectTrack
            &&& {
                let at = new->ActiveEffectTrack_0;
                &&& at.color_blending_mode == authored.info.color_blending_mode
                &&& at.factor == authored.info.opacity
                &&& at.local_time == t
                &&& at.original == effect_handle
                &&& match effects.spec_get(effect_handle) {
                    None => at.current_info is None,
                    Some(e) => {
                        let base_info = match base {
                            Some(ActiveTrack::ActiveEffectTrack(ob)) => match ob.current_info {
                                Some(oi) => if spec_same_variant(oi, e.info) {
                                    oi
                                } else {
                                    e.info
                                },
                                None => e.info,
                            },
                            _ => e.info,
                        };
                        &&& at.current_info is Some
                        &&& spec_effect_updated_rel(
                            base_info,
                            at.current_info.unwrap(),
                            e.keyframes.keyframes@,
                            t,
                            frames,
                            newc,
                        )
                    },
                }
            }
        },
        TrackContents::SequenceTrack { clips } => {
            &&& new is ActiveSequenceTrack
            &&& {
                let st = new->ActiveSequenceTrack_0;
                &&& st.color_blending_mode == authored.info.color_blending_mode
                &&& st.factor == authored.info.opacity
                &&& st.local_time == t
                &&& match spec_find_current(clips@, t) {
                    None => st.child is None,
                    Some(clip) => if fuel == 0 {
                        st.child is None
                    } else {
                        &&& st.child is Some
                        &&& st.child.unwrap().0 == clip.time_segment
                        &&& {
                            let old_sub = match base {
                                Some(ActiveTrack::ActiveSequenceTrack(ob)) => match ob.child {
                                    Some(p) => if p.0 == clip.time_segment {
                                        Some(p.1)
                                    } else {
                                        None
                                    },
                                    None => None,
                                },
                                _ => None,
                            };
                            seq_updated(
                                old_sub,
                                st.child.unwrap().1,
                                seqs,
                                effects,
                                clip.sequence_handle,
                                t - clip.time_segment.start_time + clip.time_segment.start_offset,
                                frames,
                                newc,
                                (fuel - 1) as nat,
                            )
                        }
                    },
                }
            }
        },
        TrackContents::TriggerTrack { .. } => new is ActiveTriggerTrack,
    }
}

/// The two live tracks agree: same kind, same blend settings, and
/// contents equal with containers compared by contents.
pub open spec fn active_track_view_eq(x: ActiveTrack, y: ActiveTrack) -> bool
    decreases x,
{
    match (x, y) {
        (ActiveTrack::ActiveEffectTrack(a), ActiveTrack::ActiveEffectTrack(b)) => {
            &&& a.color_blending_mode == b.color_blending_mode
            &&& a.factor == b.factor
            &&& a.local_time == b.local_time
            &&& a.original == b.original
            &&& match (a.current_info, b.current_info) {
                (Option::None, Option::None) => true,
                (Option::Some(x), Option::Some(y)) => crate::effects::effect_info_view_eq(x, y),
                _ => false,
            }
        },
        (ActiveTrack::ActiveSequenceTrack(a), ActiveTrack::ActiveSequenceTrack(b)) => {
            &&& a.color_blending_mode == b.color_blending_mode
            &&& a.factor == b.factor
            &&& a.local_time == b.local_time
            &&& match (a.child, b.child) {
                (Option::None, Option::None) => true,
                (Option::Some(p), Option::Some(q)) => p.0 == q.0 && active_seq_view_eq(p.1, q.1),
                _ => false,
            }
        },
        (ActiveTrack::ActiveTriggerTrack(_), ActiveTrack::ActiveTriggerTrack(_)) => true,
        _ => false,
    }
}

/// The two live subtrees agree throughout.
pub open spec fn active_seq_view_eq(x: ActiveSequence, y: ActiveSequence) -> bool
    decreases x,
{
    &&& x.original == y.original
    &&& x.local_time == y.local_time
    &&& x.children@.len() == y.children@.len()
    &&& forall|i: int|
        0 <= i < x.children@.len() ==> active_track_view_eq(
            #[trigger] x.children@[i],
            y.children@[i],
        )
}

/// Every stored effect refreshes from keyframes alone.
pub open spec fn stores_non_reactive(effects: SimpleStore<Effect>) -> bool {
    forall|h: SimpleHandle<Effect>|
        (#[trigger] effects.spec_get(h)) matches Some(e) ==> crate::effects::effect_non_reactive(
            e.info,
        )
}

/// Updating an already-updated tree again at the same time changes
/// nothing observable, as long as no stored effect consumes live
/// audio: re-entering a tick with no elapsed time and no authoring
/// edits is idempotent.
pub proof fn lemma_update_idempotent(
    base0: Option<ActiveSequence>,
    t1: ActiveSequence,
    t2: ActiveSequence,
    seqs: SimpleStore<Sequence>,
    effects: SimpleStore<Effect>,
    handle: SimpleHandle<Sequence>,
    t: int,
    frames1: Seq<SpectrumData>,
    newc1: int,
    frames2: Seq<SpectrumData>,
    newc2: int,
    fuel: nat,
)
    requires
        seq_updated(base0, t1, seqs, effects, handle, t, frames1, newc1, fuel),
        seq_updated(Some(t1), t2, seqs, effects, handle, t, frames2, newc2, fuel),
        stores_wf(seqs, effects),
        stores_non_reactive(effects),
    ensures
        active_seq_view_eq(t2, t1),
    decreases fuel,
{
    match seqs.spec_get(handle) {
        None => {},
        Some(sq) => {
            assert forall|i: int|
                0 <= i < t2.children@.len() implies active_track_view_eq(
                #[trigger] t2.children@[i],
                t1.children@[i],
            ) by {
                let reuse0 = match base0 {
                    Some(ob) => ob.children@.len() == sq.tracks@.len(),
                    None => false,
                };
                let base0_i = if reuse0 {
                    Some(base0.unwrap().children@[i])
                } else {
                    None
                };
                assert(track_updated(
                    base0_i,
                    t1.children@[i],
                    sq.tracks@[i],
                    seqs,
                    effects,
                    t,
                    frames1,
                    newc1,
                    fuel,
                ));
                assert(track_updated(
                    Some(t1.children@[i]),
                    t2.children@[i],
                    sq.tracks@[i],
                    seqs,
                    effects,
                    t,
                    frames2,
                    newc2,
                    fuel,
                ));
                match sq.tracks@[i].contents {
                    TrackContents::EffectTrack { effect_handle } => {
                        match effects.spec_get(effect_handle) {
                            Some(e) => {
                                let a1 = t1.children@[i]->ActiveEffectTrack_0;
                                let a2 = t2.children@[i]->ActiveEffectTrack_0;
                                let i1 = a1.current_info.unwrap();
                                let i2 = a2.current_info.unwrap();
                                let base_info0 = match base0_i {
                                    Some(ActiveTrack::ActiveEffectTrack(ob)) => match ob.current_info {
                                        Some(oi) => if spec_same_variant(oi, e.info) {
                                            oi
                                        } else {
                                            e.info
                                        },
                                        None => e.info,
                                    },
                                    _ => e.info,
                                };
                                crate::effects::lemma_rel_same_variant(
                                    base_info0,
                                    i1,
                                    e.keyframes.keyframes@,
                                    t,
                                    frames1,
                                    newc1,
                                );
                                assert(spec_same_variant(i1, e.info));
                                assert(spec_effect_updated_rel(
                                    i1,
                                    i2,
                                    e.keyframes.keyframes@,
                                    t,
                                    frames2,
                                    newc2,
                                ));
                                assert(crate::effects::effect_non_reactive(i1));
                                crate::effects::lemma_effect_update_idempotent(
                                    base_info0,
                                    i1,
                                    i2,
                                    e.keyframes.keyframes@,
                                    t,
                                    frames1,
                                    newc1,
                                    frames2,
                                    newc2,
                                );
                            },
                            None => {},
                        }
                    },
                    TrackContents::SequenceTrack { clips } => {
                        match spec_find_current(clips@, t) {
                            None => {},
                            Some(clip) => {
                                if fuel > 0 {
                                    let s1 = t1.children@[i]->ActiveSequenceTrack_0;
                                    let s2 = t2.children@[i]->ActiveSequenceTrack_0;
                                    let sub1 = s1.child.unwrap().1;
                                    let sub2 = s2.child.unwrap().1;
                                    let old_sub0 = match base0_i {
                                        Some(ActiveTrack::ActiveSequenceTrack(ob)) => match ob.child {
                                            Some(p) => if p.0 == clip.time_segment {
                                                Some(p.1)
                                            } else {
                                                None
                                            },
                                            None => None,
                                        },
                                        _ => None,
                                    };
                                    lemma_update_idempotent(
                                        old_sub0,
                                        sub1,
                                        sub2,
                                        seqs,
                                        effects,
                                        clip.sequence_handle,
                                        t - clip.time_segment.start_time
                                            + clip.time_segment.start_offset,
                                        frames1,
                                        newc1,
                                        frames2,
                                        newc2,
                                        (fuel - 1) as nat,
                                    );
                                }
                            },
                        }
                    },
                    TrackContents::TriggerTrack { .. } => {},
                }
            }
        },
    }
}

/// The subtree's shape mirrors the stores down to `fuel` levels: an
/// unresolvable node is childless, a resolvable one has one live
/// child per authored track, of the authored kind.
pub open spec fn active_shape_ok(a: ActiveSequence, seqs: SimpleStore<Sequence>, fuel: nat) -> bool
    decreases fuel,
{
    fuel == 0 || match seqs.spec_get(a.original) {
        None => a.children@.len() == 0,
        Some(sq) => {
            &&& a.children@.len() == sq.tracks@.len()
            &&& forall|i: int|
                0 <= i < sq.tracks@.len() ==> match (#[trigger] sq.tracks@[i]).contents {
                    TrackContents::EffectTrack { .. } => a.children@[i] is ActiveEffectTrack,
                    TrackContents::SequenceTrack { .. } => a.children@[i] is ActiveSequenceTrack
                        && match a.children@[i]->ActiveSequenceTrack_0.child {
                        Some(pair) => active_shape_ok(pair.1, seqs, (fuel - 1) as nat),
                        None => true,
                    },
                    TrackContents::TriggerTrack { .. } => a.children@[i] is ActiveTriggerTrack,
                }
        },
    }
}

/// After an update, the tree's shape mirrors the stores: child
/// counts equal authored track counts and child kinds match authored
/// kinds, at every initialized level.
pub proof fn lemma_active_tree_shape(
    base: Option<ActiveSequence>,
    new: ActiveSequence,
    seqs: SimpleStore<Sequence>,
    effects: SimpleStore<Effect>,
    handle: SimpleHandle<Sequence>,
    t: int,
    frames: Seq<SpectrumData>,
    newc: int,
    fuel: nat,
)
    requires
        seq_updated(base, new, seqs, effects, handle, t, frames, newc, fuel),
    ensures
        active_shape_ok(new, seqs, fuel),
    decreases fuel,
{
    if fuel > 0 {
        match seqs.spec_get(new.original) {
            None => {},
            Some(sq) => {
                assert forall|i: int|
                    0 <= i < sq.tracks@.len() implies match (#[trigger] sq.tracks@[i]).contents {
                    TrackContents::EffectTrack { .. } => new.children@[i] is ActiveEffectTrack,
                    TrackContents::SequenceTrack { .. } => new.children@[i] is ActiveSequenceTrack
                        && match new.children@[i]->ActiveSequenceTrack_0.child {
                        Some(pair) => active_shape_ok(pair.1, seqs, (fuel - 1) as nat),
                        None => true,
                    },
                    TrackContents::TriggerTrack { .. } => new.children@[i] is ActiveTriggerTrack,
                } by {
                    let reuse = match base {
                        Some(ob) => ob.children@.len() == sq.tracks@.len(),
                        None => false,
                    };
                    let base_i = if reuse {
                        Some(base.unwrap().children@[i])
                    } else {
                        None
                    };
                    assert(track_updated(
                        base_i,
                        new.children@[i],
                        sq.tracks@[i],
                        seqs,
                        effects,
                        t,
                        frames,
                        newc,
                        fuel,
                    ));
                    match sq.tracks@[i].contents {
                        TrackContents::SequenceTrack { clips } => {
                            match spec_find_current(clips@, t) {
                                Some(clip) => {
                                    let st = new.children@[i]->ActiveSequenceTrack_0;
                                    match st.child {
                                        Some(pair) => {
                                            let old_sub = match base_i {
                                                Some(ActiveTrack::ActiveSequenceTrack(ob)) => match ob.child {
                                                    Some(p) => if p.0 == clip.time_segment {
                                                        Some(p.1)
                                                    } else {
                                                        None
                                                    },
                                                    None => None,
                                                },
                                                _ => None,
                                            };
                                            lemma_active_tree_shape(
                                                old_sub,
                                                pair.1,
                                                seqs,
                                                effects,
                                                clip.sequence_handle,
                                                t - clip.time_segment.start_time
                                                    + clip.time_segment.start_offset,
                                                frames,
                                                newc,
                                                (fuel - 1) as nat,
                                            );
                                        },
                                        None => {},
                                    }
                                },
                                None => {},
                            }
                        },
                        _ => {},
                    }
                }
            },
        }
    }
}

/// The live mirror of the whole show: the primary sequence's subtree,
/// when one is scheduled.
pub struct SequenceTree {
    pub primary_node: Option<ActiveSequence>,
}

impl SequenceTree {
    /// The held subtree, if any, is well-formed.
    pub open spec fn wf(self) -> bool {
        match self.primary_node {
            Some(node) => active_seq_wf(node),
            None => true,
        }
    }

    /// An empty tree.
    pub fn new() -> (r: SequenceTree)
        ensures
            r.primary_node is None,
            r.wf(),
    {
        SequenceTree { primary_node: None }
    }

    /// Drops the whole mirror.
    pub fn clear(&mut self)
        ensures
            final (self).primary_node is None,
            final (self).wf(),
    {
        self.primary_node = None;
    }

    /// Brings the whole mirror up to `primary_sequence_time` for the
    /// scheduled primary sequence, creating the root on first
    /// contact.
    pub fn update_recursive(
        &mut self,
        sequence_store: &SimpleStore<Sequence>,
        effect_store: &SimpleStore<Effect>,
        primary_sequence_handle: SimpleHandle<Sequence>,
        primary_sequence_time: i64,
        recent: &RecentFftData,
        depth: u32,
    )
        requires
            stores_wf(*sequence_store, *effect_store),
            old(self).wf(),
            0 <= primary_sequence_time <= TIME_LIMIT,
            recent.wf(),
            recent.frames().len() <= 2_000_000,
        ensures
            final (self).wf(),
            final (self).primary_node is Some,
            seq_updated(
                old(self).primary_node,
                final (self).primary_node.unwrap(),
                *sequence_store,
                *effect_store,
                primary_sequence_handle,
                primary_sequence_time as int,
                recent.frames(),
                recent.new_count(),
                depth as nat,
            ),
    {
        let has_node: bool = match &self.primary_node {
            Some(_) => true,
            None => false,
        };
        if !has_node {
            self.primary_node = Some(
                ActiveSequence {
                    local_time: 0,
                    original: primary_sequence_handle,
                    children: Vec::new(),
                },
            );
        }
        match &mut self.primary_node {
            Some(node) => {
                update_recursive_sequence(
                    sequence_store,
                    effect_store,
                    primary_sequence_handle,
                    node,
                    primary_sequence_time,
                    recent,
                    depth,
                );
            },
            None => {},
        }
    }
}

impl Default for SequenceTree {
    /// An empty tree.
    fn default() -> (r: SequenceTree)
        ensures
            r.primary_node is None,
            r.wf(),
    {
        SequenceTree { primary_node: None }
    }
}

/// Brings one active sequence node up to `current_time` against the
/// stores. A handle that no longer resolves clears the node's
/// children; recursion is bounded by `depth`.
pub fn update_recursive_sequence(
    sequence_store: &SimpleStore<Sequence>,
    effect_store: &SimpleStore<Effect>,
    current_sequence_handle: SimpleHandle<Sequence>,
    current_active_sequence: &mut ActiveSequence,
    current_time: i64,
    recent: &RecentFftData,
    depth: u32,
)
    requires
        stores_wf(*sequence_store, *effect_store),
        active_seq_wf(*old(current_active_sequence)),
        0 <= current_time <= TIME_LIMIT,
        recent.wf(),
        recent.frames().len() <= 2_000_000,
    ensures
        active_seq_wf(*final (current_active_sequence)),
        seq_updated(
            Some(*old(current_active_sequence)),
            *final (current_active_sequence),
            *sequence_store,
            *effect_store,
            current_sequence_handle,
            current_time as int,
            recent.frames(),
            recent.new_count(),
            depth as nat,
        ),
    decreases depth,
{
    let ghost base = *old(current_active_sequence);
    current_active_sequence.local_time = current_time;
    current_active_sequence.original = current_sequence_handle;
    let current_sequence: &Sequence = match sequence_store.get(current_sequence_handle) {
        Some(sq) => sq,
        None => {
            current_active_sequence.children = Vec::new();
            return ;
        },
    };
    let track_count: usize = current_sequence.tracks.len();
    let ghost reuse = base.children@.len() == current_sequence.tracks@.len();
    if current_active_sequence.children.len() != track_count {
        let mut fresh: Vec<ActiveTrack> = Vec::new();
        let mut k: usize = 0;
        while k < track_count
            invariant
                0 <= k <= track_count,
                fresh@.len() == k,
                forall|j: int|
                    0 <= j < k ==> #[trigger] fresh@[j] == ActiveTrack::ActiveTriggerTrack(
                        ActiveTriggerTrack { reserved: false },
                    ),
            decreases track_count - k,
        {
            fresh.push(ActiveTrack::ActiveTriggerTrack(ActiveTriggerTrack { reserved: false }));
            k += 1;
        }
        current_active_sequence.children = fresh;
    }
    let ghost pre_children = current_active_sequence.children@;
    let mut i: usize = 0;
    while i < track_count
        invariant
            stores_wf(*sequence_store, *effect_store),
            recent.wf(),
            recent.frames().len() <= 2_000_000,
            0 <= current_time <= TIME_LIMIT,
            sequence_store.spec_get(current_sequence_handle) == Some(*current_sequence),
            track_count == current_sequence.tracks@.len(),
            0 <= i <= track_count,
            current_active_sequence.children@.len() == track_count,
            current_active_sequence.local_time == current_time,
            current_active_sequence.original == current_sequence_handle,
            pre_children.len() == track_count,
            reuse ==> base.children@.len() == track_count && pre_children == base.children@
                && active_seq_wf(base),
            !reuse ==> forall|j: int|
                0 <= j < track_count ==> #[trigger] pre_children[j]
                    == ActiveTrack::ActiveTriggerTrack(ActiveTriggerTrack { reserved: false }),
            forall|j: int|
                i <= j < track_count ==> #[trigger] current_active_sequence.children@[j]
                    == pre_children[j],
            forall|j: int|
                0 <= j < i ==> track_updated(
                    if reuse {
                        Some(base.children@[j])
                    } else {
                        None
                    },
                    #[trigger] current_active_sequence.children@[j],
                    current_sequence.tracks@[j],
                    *sequence_store,
                    *effect_store,
                    current_time as int,
                    recent.frames(),
                    recent.new_count(),
                    depth as nat,
                ),
            forall|j: int|
                0 <= j < i ==> active_track_wf(#[trigger] current_active_sequence.children@[j]),
        decreases track_count - i,
    {
        let ghost base_child: Option<ActiveTrack> = if reuse {
            Some(base.children@[i as int])
        } else {
            None
        };
        let track: &Track = &current_sequence.tracks[i];
        proof {
            assert(current_sequence.tracks@[i as int].wf());
        }
        match &track.contents {
            TrackContents::EffectTrack { effect_handle } => {
                match effect_store.get(*effect_handle) {
                    None => {
                        // The effect was retired from the store: drop
                        // the node's live state so the branch yields
                        // defaults.
                        current_active_sequence.children[i] = ActiveTrack::ActiveEffectTrack(
                            ActiveEffectTrack {
                                color_blending_mode: track.info.color_blending_mode,
                                factor: track.info.opacity,
                                local_time: current_time,
                                original: *effect_handle,
                                current_info: None,
                            },
                        );
                    },
                    Some(effect) => {
                        let keep: bool = match &current_active_sequence.children[i] {
                            ActiveTrack::ActiveEffectTrack(old_at) => match &old_at.current_info {
                                Some(old_info) => same_variant(old_info, &effect.info),
                                None => false,
                            },
                            _ => false,
                        };
                        if !keep {
                            let fresh_info: EffectInfo = copy_effect_info(&effect.info);
                            current_active_sequence.children[i] = ActiveTrack::ActiveEffectTrack(
                                ActiveEffectTrack {
                                    color_blending_mode: track.info.color_blending_mode,
                                    factor: track.info.opacity,
                                    local_time: current_time,
                                    original: *effect_handle,
                                    current_info: Some(fresh_info),
                                },
                            );
                        }
                        match &mut current_active_sequence.children[i] {
                            ActiveTrack::ActiveEffectTrack(at) => {
                                at.color_blending_mode = track.info.color_blending_mode;
                                at.factor = track.info.opacity;
                                at.local_time = current_time;
                                at.original = *effect_handle;
                                match &mut at.current_info {
                                    Some(info) => {
                                        let common_info = EffectUpdateCommonInfo {
                                            recent_fft_data: recent,
                                        };
                                        info.update(&effect.keyframes, current_time, &common_info);
                                    },
                                    None => {},
                                }
                            },
                            ActiveTrack::ActiveSequenceTrack(_) => {},
                            ActiveTrack::ActiveTriggerTrack(_) => {},
                        }
                    },
                }
            },
            TrackContents::SequenceTrack { clips } => {
                let keep_shell: bool = match &current_active_sequence.children[i] {
                    ActiveTrack::ActiveSequenceTrack(_) => true,
                    _ => false,
                };
                if !keep_shell {
                    current_active_sequence.children[i] = ActiveTrack::ActiveSequenceTrack(
                        ActiveSequenceTrack {
                            color_blending_mode: track.info.color_blending_mode,
                            factor: track.info.opacity,
                            local_time: current_time,
                            child: None,
                        },
                    );
                }
                match &mut current_active_sequence.children[i] {
                    ActiveTrack::ActiveSequenceTrack(st) => {
                        st.color_blending_mode = track.info.color_blending_mode;
                        st.factor = track.info.opacity;
                        st.local_time = current_time;
                        match find_current(clips, current_time) {
                            None => {
                                st.child = None;
                            },
                            Some(clip_ref) => {
                                let clip: Clip = *clip_ref;
                                if depth == 0 {
                                    st.child = None;
                                } else {
                                    let need_new: bool = match &st.child {
                                        Some(pair) => !(pair.0 == clip.time_segment),
                                        None => true,
                                    };
                                    if need_new {
                                        st.child = Some(
                                            (
                                                clip.time_segment,
                                                ActiveSequence {
                                                    local_time: 0,
                                                    original: clip.sequence_handle,
                                                    children: Vec::new(),
                                                },
                                            ),
                                        );
                                    }
                                    proof {
                                        crate::timeline::lemma_find_current_props(
                                            clips@,
                                            current_time as int,
                                        );
                                        assert(crate::timeline::clips_wf(clips@));
                                        assert(crate::timeline::spec_clip_contains(
                                            clip,
                                            current_time as int,
                                        ));
                                        let idx = choose|idx: int|
                                            0 <= idx < clips@.len() && #[trigger] clips@[idx]
                                                == clip;
                                        assert(clips@[idx].time_segment.wf());
                                    }
                                    let child_time: i64 = current_time
                                        - clip.time_segment.start_time
                                        + clip.time_segment.start_offset;
                                    match &mut st.child {
                                        Some(pair) => {
                                            update_recursive_sequence(
                                                sequence_store,
                                                effect_store,
                                                clip.sequence_handle,
                                                &mut pair.1,
                                                child_time,
                                                recent,
                                                depth - 1,
                                            );
                                        },
                                        None => {},
                                    }
                                }
                            },
                        }
                    },
                    ActiveTrack::ActiveEffectTrack(_) => {},
                    ActiveTrack::ActiveTriggerTrack(_) => {},
                }
            },
            TrackContents::TriggerTrack { .. } => {
                current_active_sequence.children[i] = ActiveTrack::ActiveTriggerTrack(
                    ActiveTriggerTrack { reserved: false },
                );
            },
        }
        i += 1;
    }
}

} // verus!
