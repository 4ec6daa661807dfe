//! The engine: the per-tick pipeline of clock advance, spectrum
//! intake, active-tree update and evaluation, plus the authoring
//! commands that populate the stores.

use crate::active::{seq_updated, stores_wf, SequenceTree};
use crate::effects::Effect;
use crate::evaluate::{
    effects_color_only, fixtures_accept_color, fixtures_wf, input_matches_type, spec_defaults,
    spec_eval_sequence,
};
use crate::fixture::{spec_input_in_range, FixtureInfo, FixtureInput};
use crate::math::TIME_LIMIT;
use crate::playback::{increment_playback_time, spec_advanced_time, PlaybackInformation};
use crate::spectrum::{RecentFftData, SpectrumData};
use crate::store::{SimpleHandle, SimpleStore};
use crate::timeline::{PrimarySequence, Sequence};
use std::collections::VecDeque;
use vstd::prelude::*;

verus! {

/// How deep scheduled sequences may nest before the engine stops
/// following clips; deeper authoring is treated as a cycle.
pub const MAX_ACTIVE_DEPTH: u32 = 64;

/// The whole core state driven once per tick.
pub struct Engine {
    pub sequences: SimpleStore<Sequence>,
    pub effects: SimpleStore<Effect>,
    pub primary_sequence: PrimarySequence,
    pub playback: PlaybackInformation,
    pub sequence_tree: SequenceTree,
    pub recent_fft_data: RecentFftData,
}

/// The length of the scheduled primary sequence, when the handle
/// resolves.
pub open spec fn spec_primary_length(e: Engine) -> Option<i64> {
    match e.primary_sequence.0 {
        Some(h) => match e.sequences.spec_get(h) {
            Some(sq) => Some(sq.length),
            None => None,
        },
        None => None,
    }
}

impl Engine {
    /// The engine's standing invariant: consistent stores of
    /// color-valued effects, a bounded clock, a well-formed mirror
    /// and a bounded spectrum window.
    pub open spec fn wf(self) -> bool {
        &&& self.sequences.wf()
        &&& self.effects.wf()
        &&& stores_wf(self.sequences, self.effects)
        &&& effects_color_only(self.effects)
        &&& self.playback.wf()
        &&& self.sequence_tree.wf()
        &&& self.recent_fft_data.wf()
        &&& self.recent_fft_data.frames().len() <= 2_000_000
    }

    /// A stopped engine with empty stores.
    pub fn new() -> (r: Engine)
        ensures
            r.wf(),
            r.primary_sequence.0 is None,
            r.sequence_tree.primary_node is None,
            r.playback == (PlaybackInformation {
                current_time: 0,
                is_playing: false,
                bpm: 120_000,
                beats_per_bar: 4,
            }),
    {
        Engine {
            sequences: SimpleStore::new(),
            effects: SimpleStore::new(),
            primary_sequence: PrimarySequence(None),
            playback: PlaybackInformation {
                current_time: 0,
                is_playing: false,
                bpm: 120_000,
                beats_per_bar: 4,
            },
            sequence_tree: SequenceTree::new(),
            recent_fft_data: RecentFftData::new(),
        }
    }

    /// Stores an effect and hands back its handle.
    pub fn add_effect(&mut self, effect: Effect) -> (h: SimpleHandle<Effect>)
        requires
            old(self).wf(),
            effect.info.wf(),
            effect.info is ColorEffectInfo,
            effect.info.keyframes_ok(effect.keyframes.keyframes@),
        ensures
            final (self).wf(),
            final (self).effects.spec_get(h) == Some(effect),
            final (self).sequences == old(self).sequences,
            final (self).primary_sequence == old(self).primary_sequence,
            final (self).playback == old(self).playback,
            final (self).sequence_tree == old(self).sequence_tree,
            final (self).recent_fft_data == old(self).recent_fft_data,
            forall|h2: SimpleHandle<Effect>|
                h2 != h ==> final (self).effects.spec_get(h2) == old(self).effects.spec_get(h2),
    {
        let h = self.effects.add(effect);
        proof {
            assert forall|h2: SimpleHandle<Effect>| true implies match #[trigger] self.effects.spec_get(
                h2,
            ) {
                Some(e) => e.info.wf() && e.info.keyframes_ok(e.keyframes.keyframes@)
                    && e.info is ColorEffectInfo,
                None => true,
            } by {
                if h2 != h {
                    assert(self.effects.spec_get(h2) == old(self).effects.spec_get(h2));
                }
            }
            assert(stores_wf(self.sequences, self.effects));
            assert(effects_color_only(self.effects));
        }
        h
    }

    /// Stores a sequence and hands back its handle. Its tracks may
    /// point anywhere: handles that do not resolve are recovered at
    /// update time.
    pub fn add_sequence(&mut self, sequence: Sequence) -> (h: SimpleHandle<Sequence>)
        requires
            old(self).wf(),
            sequence.wf(),
        ensures
            final (self).wf(),
            final (self).sequences.spec_get(h) == Some(sequence),
            final (self).effects == old(self).effects,
            final (self).primary_sequence == old(self).primary_sequence,
            final (self).playback == old(self).playback,
            final (self).sequence_tree == old(self).sequence_tree,
            final (self).recent_fft_data == old(self).recent_fft_data,
            forall|h2: SimpleHandle<Sequence>|
                h2 != h ==> final (self).sequences.spec_get(h2) == old(self).sequences.spec_get(
                    h2,
                ),
    {
        let h = self.sequences.add(sequence);
        proof {
            assert forall|hs: SimpleHandle<Sequence>| true implies match #[trigger] self.sequences.spec_get(
                hs,
            ) {
                Some(sq) => sq.wf(),
                None => true,
            } by {
                if hs != h {
                    assert(self.sequences.spec_get(hs) == old(self).sequences.spec_get(hs));
                }
            }
            assert(stores_wf(self.sequences, self.effects));
        }
        h
    }

    /// Retires a stored sequence. Clips that still point at it simply
    /// stop resolving.
    pub fn remove_sequence(&mut self, handle: SimpleHandle<Sequence>) -> (r: Result<
        (),
        crate::store::StoreError,
    >)
        requires
            old(self).wf(),
        ensures
            final (self).wf(),
            final (self).effects == old(self).effects,
            final (self).primary_sequence == old(self).primary_sequence,
            final (self).playback == old(self).playback,
            final (self).sequence_tree == old(self).sequence_tree,
            final (self).recent_fft_data == old(self).recent_fft_data,
            r is Ok <==> old(self).sequences.valid(handle),
            r is Ok ==> final (self).sequences.spec_get(handle) is None && forall|
                h2: SimpleHandle<Sequence>,
            | h2 != handle ==> final (self).sequences.spec_get(h2) == old(self).sequences.spec_get(
                h2,
            ),
            r is Err ==> final (self).sequences == old(self).sequences,
    {
        let r = self.sequences.remove(handle);
        proof {
            assert forall|hs: SimpleHandle<Sequence>| true implies match #[trigger] self.sequences.spec_get(
                hs,
            ) {
                Some(sq) => sq.wf(),
                None => true,
            } by {
                if hs != handle {
                    assert(self.sequences.spec_get(hs) == old(self).sequences.spec_get(hs));
                }
            }
            assert(stores_wf(self.sequences, self.effects));
        }
        r
    }

    /// Retires a stored effect. Tracks that still schedule it keep
    /// their place in the mirror but are dropped to a dark default at
    /// the next update.
    pub fn remove_effect(&mut self, handle: SimpleHandle<Effect>) -> (r: Result<
        (),
        crate::store::StoreError,
    >)
        requires
            old(self).wf(),
        ensures
            final (self).wf(),
            final (self).sequences == old(self).sequences,
            final (self).primary_sequence == old(self).primary_sequence,
            final (self).playback == old(self).playback,
            final (self).sequence_tree == old(self).sequence_tree,
            final (self).recent_fft_data == old(self).recent_fft_data,
            r is Ok <==> old(self).effects.valid(handle),
            r is Ok ==> final (self).effects.spec_get(handle) is None && forall|
                h2: SimpleHandle<Effect>,
            | h2 != handle ==> final (self).effects.spec_get(h2) == old(self).effects.spec_get(h2),
            r is Err ==> final (self).effects == old(self).effects,
    {
        let r = self.effects.remove(handle);
        proof {
            assert forall|h2: SimpleHandle<Effect>| true implies match #[trigger] self.effects.spec_get(
                h2,
            ) {
                Some(e) => e.info.wf() && e.info.keyframes_ok(e.keyframes.keyframes@)
                    && e.info is ColorEffectInfo,
                None => true,
            } by {
                if h2 != handle {
                    assert(self.effects.spec_get(h2) == old(self).effects.spec_get(h2));
                }
            }
            assert(stores_wf(self.sequences, self.effects));
            assert(effects_color_only(self.effects));
        }
        r
    }

    /// Schedules, or unschedules, the primary sequence.
    pub fn set_primary_sequence(&mut self, handle: Option<SimpleHandle<Sequence>>)
        requires
            old(self).wf(),
        ensures
            final (self).wf(),
            final (self).primary_sequence.0 == handle,
            final (self).sequences == old(self).sequences,
            final (self).effects == old(self).effects,
            final (self).playback == old(self).playback,
            final (self).sequence_tree == old(self).sequence_tree,
            final (self).recent_fft_data == old(self).recent_fft_data,
    {
        self.primary_sequence = PrimarySequence(handle);
    }

    /// Starts or stops the clock.
    pub fn set_playing(&mut self, playing: bool)
        requires
            old(self).wf(),
        ensures
            final (self).wf(),
            final (self).playback.is_playing == playing,
            final (self).playback.current_time == old(self).playback.current_time,
            final (self).playback.bpm == old(self).playback.bpm,
            final (self).playback.beats_per_bar == old(self).playback.beats_per_bar,
            final (self).sequences == old(self).sequences,
            final (self).effects == old(self).effects,
            final (self).primary_sequence == old(self).primary_sequence,
            final (self).sequence_tree == old(self).sequence_tree,
            final (self).recent_fft_data == old(self).recent_fft_data,
    {
        self.playback.is_playing = playing;
    }

    /// Moves the playhead.
    pub fn seek(&mut self, time: i64)
        requires
            old(self).wf(),
            0 <= time <= TIME_LIMIT,
        ensures
            final (self).wf(),
            final (self).playback.current_time == time,
            final (self).playback.is_playing == old(self).playback.is_playing,
            final (self).playback.bpm == old(self).playback.bpm,
            final (self).playback.beats_per_bar == old(self).playback.beats_per_bar,
            final (self).sequences == old(self).sequences,
            final (self).effects == old(self).effects,
            final (self).primary_sequence == old(self).primary_sequence,
            final (self).sequence_tree == old(self).sequence_tree,
            final (self).recent_fft_data == old(self).recent_fft_data,
    {
        self.playback.current_time = time;
    }

    /// One engine tick: advances the clock by `delta` milliseconds,
    /// folds the new spectrum frames into the rolling window, brings
    /// the active tree up to the playhead, and evaluates every
    /// fixture. Without a resolvable primary sequence the clock pins
    /// at the origin, the mirror is dropped, and the fixtures get
    /// their defaults.
    pub fn tick(
        &mut self,
        delta: i64,
        fixtures: &Vec<FixtureInfo>,
        new_frames: VecDeque<SpectrumData>,
    ) -> (r: Vec<FixtureInput>)
        requires
            old(self).wf(),
            0 <= delta <= TIME_LIMIT,
            fixtures_wf(fixtures@),
            fixtures_accept_color(fixtures@),
            forall|i: int| 0 <= i < new_frames@.len() ==> (#[trigger] new_frames@[i]).wf(),
            new_frames@.len() <= 1_000_000,
        ensures
            final (self).wf(),
            final (self).sequences == old(self).sequences,
            final (self).effects == old(self).effects,
            final (self).primary_sequence == old(self).primary_sequence,
            match spec_primary_length(*old(self)) {
                None => {
                    &&& final (self).playback.current_time == 0
                    &&& !final (self).playback.is_playing
                    &&& final (self).sequence_tree.primary_node is None
                    &&& r@ == spec_defaults(fixtures@)
                },
                Some(length) => {
                    &&& final (self).playback.is_playing == old(self).playback.is_playing
                    &&& old(self).playback.is_playing ==> final (self).playback.current_time
                        == spec_advanced_time(
                        old(self).playback.current_time as int,
                        delta as int,
                        length as int,
                    )
                    &&& !old(self).playback.is_playing ==> final (self).playback.current_time
                        == old(self).playback.current_time
                    &&& final (self).sequence_tree.primary_node is Some
                    &&& seq_updated(
                        old(self).sequence_tree.primary_node,
                        final (self).sequence_tree.primary_node.unwrap(),
                        old(self).sequences,
                        old(self).effects,
                        old(self).primary_sequence.0.unwrap(),
                        final (self).playback.current_time as int,
                        final (self).recent_fft_data.frames(),
                        final (self).recent_fft_data.new_count(),
                        MAX_ACTIVE_DEPTH as nat,
                    )
                    &&& r@ == spec_eval_sequence(
                        final (self).sequence_tree.primary_node.unwrap(),
                        fixtures@,
                    )
                },
            },
            r@.len() == fixtures@.len(),
            forall|i: int| 0 <= i < r@.len() ==> spec_input_in_range(#[trigger] r@[i]),
            forall|i: int|
                0 <= i < r@.len() ==> input_matches_type(#[trigger] r@[i], fixtures@[i].input_type),
            new_frames@.len() == 0 ==> final (self).recent_fft_data.frames() == old(
                self,
            ).recent_fft_data.frames() && final (self).recent_fft_data.new_count() == 0,
            new_frames@.len() > 0 ==> {
                let all = old(self).recent_fft_data.frames() + new_frames@;
                let kept = crate::spectrum::spec_retained_frames(new_frames@[0].config);
                &&& final (self).recent_fft_data.frames() == all.skip(
                    if all.len() <= kept {
                        0
                    } else {
                        all.len() - kept
                    },
                )
                &&& final (self).recent_fft_data.new_count() == (if new_frames@.len() <= final (
                self).recent_fft_data.frames().len() {
                    new_frames@.len() as int
                } else {
                    final (self).recent_fft_data.frames().len() as int
                })
            },
    {
        let primary: Option<SimpleHandle<Sequence>> = self.primary_sequence.0;
        let resolved: Option<(SimpleHandle<Sequence>, i64)> = match primary {
            Some(h) => match self.sequences.get(h) {
                Some(sq) => Some((h, sq.length)),
                None => None,
            },
            None => None,
        };
        let length_opt: Option<i64> = match &resolved {
            Some(pair) => Some(pair.1),
            None => None,
        };
        increment_playback_time(&mut self.playback, delta, length_opt);
        self.recent_fft_data.add(new_frames);
        match resolved {
            Some(pair) => {
                let handle: SimpleHandle<Sequence> = pair.0;
                self.sequence_tree.update_recursive(
                    &self.sequences,
                    &self.effects,
                    handle,
                    self.playback.current_time,
                    &self.recent_fft_data,
                    MAX_ACTIVE_DEPTH,
                );
                proof {
                    crate::evaluate::lemma_updated_tree_compatible(
                        old(self).sequence_tree.primary_node,
                        self.sequence_tree.primary_node.unwrap(),
                        self.sequences,
                        self.effects,
                        handle,
                        self.playback.current_time as int,
                        self.recent_fft_data.frames(),
                        self.recent_fft_data.new_count(),
                        MAX_ACTIVE_DEPTH as nat,
                        fixtures@,
                    );
                }
                self.sequence_tree.get_values_recursive(fixtures)
            },
            None => {
                self.sequence_tree.clear();
                let r = self.sequence_tree.get_values_recursive(fixtures);
                r
            },
        }
    }
}

} // verus!
