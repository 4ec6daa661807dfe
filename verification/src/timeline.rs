//! The authored timeline: sequences of tracks, tracks of effects or
//! clips, clips scheduling child sequences.

use crate::color::ColorBlendingMode;
use crate::effects::Effect;
use crate::math::{SCALE, TIME_LIMIT};
use crate::store::SimpleHandle;
use vstd::prelude::*;

verus! {

/// Where and for how long a clip sits on its track, and the seek
/// offset into its child sequence at the moment it begins.
#[derive(Clone, Copy, Debug, PartialEq, Eq, Structural)]
pub struct TimeSegment {
    pub start_time: i64,
    pub duration: i64,
    pub start_offset: i64,
}

impl TimeSegment {
    /// The segment lies within representable, non-negative time.
    pub open spec fn wf(self) -> bool {
        &&& 0 <= self.start_time
        &&& 0 <= self.duration
        &&& self.start_time + self.duration <= TIME_LIMIT
        &&& 0 <= self.start_offset
        &&& self.start_offset + self.duration <= TIME_LIMIT
    }

    /// A new segment.
    pub fn new(start_time: i64, duration: i64, start_offset: i64) -> (r: TimeSegment)
        ensures
            r == (TimeSegment { start_time, duration, start_offset }),
    {
        TimeSegment { start_time, duration, start_offset }
    }
}

/// A scheduled occurrence of a child sequence within a track.
#[derive(Clone, Copy)]
pub struct Clip {
    pub sequence_handle: SimpleHandle<Sequence>,
    pub time_segment: TimeSegment,
}

/// `t` lies inside the clip's scheduled span.
pub open spec fn spec_clip_contains(c: Clip, t: int) -> bool {
    c.time_segment.start_time <= t < c.time_segment.start_time + c.time_segment.duration
}

/// Clips are well-formed and scheduled in order without overlap: each
/// clip ends at or before the next one starts.
pub open spec fn clips_wf(s: Seq<Clip>) -> bool {
    &&& forall|i: int| 0 <= i < s.len() ==> (#[trigger] s[i]).time_segment.wf()
    &&& forall|i: int, j: int|
        0 <= i < j < s.len() ==> (#[trigger] s[i]).time_segment.start_time
            + s[i].time_segment.duration <= (#[trigger] s[j]).time_segment.start_time
}

/// At any time, at most one clip of a well-formed track is current.
pub proof fn lemma_clip_uniqueness(s: Seq<Clip>, t: int, i: int, j: int)
    requires
        clips_wf(s),
        0 <= i < s.len(),
        0 <= j < s.len(),
        spec_clip_contains(s[i], t),
        spec_clip_contains(s[j], t),
    ensures
        i == j,
{
    if i < j {
        assert(s[i].time_segment.start_time + s[i].time_segment.duration
            <= s[j].time_segment.start_time);
    }
    if j < i {
        assert(s[j].time_segment.start_time + s[j].time_segment.duration
            <= s[i].time_segment.start_time);
    }
}

/// The first clip containing `t`, scanning in authored order.
pub open spec fn spec_find_current(s: Seq<Clip>, t: int) -> Option<Clip>
    decreases s.len(),
{
    if s.len() == 0 {
        None
    } else if spec_clip_contains(s[0], t) {
        Some(s[0])
    } else {
        spec_find_current(s.drop_first(), t)
    }
}

/// A found clip contains `t` and lies in the sequence; a miss means
/// no clip contains `t`.
pub proof fn lemma_find_current_props(s: Seq<Clip>, t: int)
    ensures
        spec_find_current(s, t) matches Some(c) ==> spec_clip_contains(c, t) && exists|i: int|
            0 <= i < s.len() && #[trigger] s[i] == c,
        spec_find_current(s, t) is None ==> forall|i: int|
            0 <= i < s.len() ==> !spec_clip_contains(#[trigger] s[i], t),
    decreases s.len(),
{
    if s.len() > 0 && !spec_clip_contains(s[0], t) {
        lemma_find_current_props(s.drop_first(), t);
        match spec_find_current(s, t) {
            Some(c) => {
                let i = choose|i: int|
                    0 <= i < s.drop_first().len() && #[trigger] s.drop_first()[i] == c;
                assert(s[i + 1] == c);
            },
            None => {
                assert forall|i: int|
                    0 <= i < s.len() implies !spec_clip_contains(#[trigger] s[i], t) by {
                    if i > 0 {
                        assert(s.drop_first()[i - 1] == s[i]);
                    }
                }
            },
        }
    }
}

/// Finds the clip containing `time`, if any.
pub fn find_current(clips: &Vec<Clip>, time: i64) -> (r: Option<&Clip>)
    requires
        forall|i: int| 0 <= i < clips@.len() ==> (#[trigger] clips@[i]).time_segment.wf(),
    ensures
        match r {
            Some(c) => spec_find_current(clips@, time as int) == Some(*c),
            None => spec_find_current(clips@, time as int) is None,
        },
{
    let n: usize = clips.len();
    let mut i: usize = 0;
    proof {
        assert(clips@.skip(0) =~= clips@);
    }
    while i < n
        invariant
            n == clips@.len(),
            0 <= i <= n,
            forall|j: int| 0 <= j < clips@.len() ==> (#[trigger] clips@[j]).time_segment.wf(),
            spec_find_current(clips@, time as int) == spec_find_current(
                clips@.skip(i as int),
                time as int,
            ),
        decreases n - i,
    {
        let clip = &clips[i];
        proof {
            assert(clips@.skip(i as int)[0] == clips@[i as int]);
            assert(clips@.skip(i as int).drop_first() =~= clips@.skip(i + 1));
        }
        if clip.time_segment.start_time <= time && time < clip.time_segment.start_time
            + clip.time_segment.duration {
            return Some(clip);
        }
        i += 1;
    }
    proof {
        assert(clips@.skip(n as int) =~= Seq::<Clip>::empty());
    }
    None
}

/// How one track folds into the mix: blend mode and opacity.
#[derive(Clone, Copy, Debug)]
pub struct TrackInfo {
    pub color_blending_mode: ColorBlendingMode,
    pub opacity: i64,
}

impl TrackInfo {
    /// Opacity is a fraction in thousandths.
    pub open spec fn wf(self) -> bool {
        0 <= self.opacity <= SCALE
    }
}

/// What a track holds: one effect, a run of clips, or a reserved
/// trigger binding.
pub enum TrackContents {
    EffectTrack { effect_handle: SimpleHandle<Effect> },
    SequenceTrack { clips: Vec<Clip> },
    TriggerTrack { sequence_handle: SimpleHandle<Sequence> },
}

impl TrackContents {
    /// Clips, where present, are ordered and non-overlapping.
    pub open spec fn wf(self) -> bool {
        match self {
            TrackContents::EffectTrack { .. } => true,
            TrackContents::SequenceTrack { clips } => clips_wf(clips@),
            TrackContents::TriggerTrack { .. } => true,
        }
    }
}

/// One layer of a sequence.
pub struct Track {
    pub info: TrackInfo,
    pub contents: TrackContents,
}

impl Track {
    /// Info and contents are well-formed.
    pub open spec fn wf(self) -> bool {
        &&& self.info.wf()
        &&& self.contents.wf()
    }
}

/// A named, fixed-length collection of tracks.
pub struct Sequence {
    pub name: String,
    pub length: i64,
    pub tracks: Vec<Track>,
    pub info: SequenceInfo,
}

/// Sequence-wide playback data.
#[derive(Clone, Copy, Debug)]
pub struct SequenceInfo {
    pub strength: i64,
}

impl Sequence {
    /// The length is positive and representable and every track is
    /// well-formed.
    pub open spec fn wf(self) -> bool {
        &&& 0 < self.length <= TIME_LIMIT
        &&& forall|i: int| 0 <= i < self.tracks@.len() ==> (#[trigger] self.tracks@[i]).wf()
    }
}

/// The engine's current root: which sequence plays, if any.
pub struct PrimarySequence(pub Option<SimpleHandle<Sequence>>);

/// Points a track out within a stored sequence.
#[derive(Clone, Copy)]
pub struct TrackReference {
    pub sequence: SimpleHandle<Sequence>,
    pub index: usize,
}

impl TrackReference {
    /// A new track reference.
    pub fn new(sequence_handle: SimpleHandle<Sequence>, track_index: usize) -> (r: TrackReference)
        ensures
            r.sequence == sequence_handle,
            r.index == track_index,
    {
        TrackReference { sequence: sequence_handle, index: track_index }
    }
}

} // verus!
