//! The playback clock: monotonic time with play and pause, looping
//! over the primary sequence's length.

use crate::math::TIME_LIMIT;
use vstd::prelude::*;

verus! {

/// The engine-wide playback state.
#[derive(Clone, Copy, Debug)]
pub struct PlaybackInformation {
    /// The playhead in milliseconds.
    pub current_time: i64,
    pub is_playing: bool,
    /// Beats per minute, in thousandths.
    pub bpm: i64,
    pub beats_per_bar: usize,
}

impl PlaybackInformation {
    /// The playhead lies within representable time.
    pub open spec fn wf(self) -> bool {
        0 <= self.current_time <= TIME_LIMIT
    }
}

impl Default for PlaybackInformation {
    /// Paused at the origin, 120 beats per minute, four beats per
    /// bar.
    fn default() -> (r: Self)
        ensures
            r == (PlaybackInformation {
                current_time: 0,
                is_playing: false,
                bpm: 120_000,
                beats_per_bar: 4,
            }),
    {
        PlaybackInformation { current_time: 0, is_playing: false, bpm: 120_000, beats_per_bar: 4 }
    }
}

/// Where the playhead lands after `delta` elapses against a sequence
/// of length `length`: advanced, or wrapped to the origin once it
/// passes the end.
pub open spec fn spec_advanced_time(t: int, delta: int, length: int) -> int {
    if t + delta > length {
        0
    } else {
        t + delta
    }
}

/// While playing, time either advances by exactly the elapsed delta
/// or wraps to the origin, and after wrapping it lies below the
/// delta.
pub proof fn lemma_time_advancement(t: int, delta: int, length: int)
    requires
        0 <= t,
        0 < delta,
        0 < length,
    ensures
        spec_advanced_time(t, delta, length) == t + delta || (t + delta > length
            && spec_advanced_time(t, delta, length) == 0),
        t + delta > length ==> spec_advanced_time(t, delta, length) < delta,
{
}

/// Advances the clock by `delta` milliseconds. Without a primary
/// sequence the playhead pins at the origin and playback stops; while
/// playing, time advances and wraps to the origin past the
/// sequence's end.
pub fn increment_playback_time(
    playback: &mut PlaybackInformation,
    delta: i64,
    sequence_length: Option<i64>,
)
    requires
        old(playback).wf(),
        0 <= delta <= TIME_LIMIT,
        sequence_length matches Some(l) ==> 0 < l <= TIME_LIMIT,
    ensures
        final (playback).wf(),
        final (playback).bpm == old(playback).bpm,
        final (playback).beats_per_bar == old(playback).beats_per_bar,
        match sequence_length {
            None => final (playback).current_time == 0 && !final (playback).is_playing,
            Some(l) => {
                &&& final (playback).is_playing == old(playback).is_playing
                &&& old(playback).is_playing ==> final (playback).current_time
                    == spec_advanced_time(
                    old(playback).current_time as int,
                    delta as int,
                    l as int,
                )
                &&& !old(playback).is_playing ==> final (playback).current_time == old(
                playback).current_time
            },
        },
{
    let length: i64 = match sequence_length {
        None => {
            playback.current_time = 0;
            playback.is_playing = false;
            return ;
        },
        Some(l) => l,
    };
    if playback.is_playing {
        let advanced: i64 = playback.current_time + delta;
        if advanced > length {
            playback.current_time = 0;
        } else {
            playback.current_time = advanced;
        }
    }
}

} // verus!
