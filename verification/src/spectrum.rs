//! Magnitude spectra from the audio front end and the rolling window
//! of recent frames.
//!
//! Frequencies are fixed-point milli-hertz, magnitudes fixed-point
//! thousandths. The engine only consumes spectra; producing them from
//! raw audio is the host's concern.

use crate::math::{rdiv64, spec_rdiv, SCALE, VAL_LIMIT};
use std::collections::VecDeque;
use vstd::prelude::*;

verus! {

/// Shape of the short-time transform: sample rate in hertz, window
/// and hop in samples.
#[derive(Clone, Copy, Debug, PartialEq, Eq, Structural)]
pub struct FftConfig {
    pub sample_rate: u32,
    pub window_size: usize,
    pub hop_size: usize,
}

impl Default for FftConfig {
    /// CD-rate audio analyzed in half-overlapping 512-sample windows.
    fn default() -> (c: FftConfig)
        ensures
            c == (FftConfig { sample_rate: 44100, window_size: 512, hop_size: 256 }),
            c.wf(),
    {
        FftConfig { sample_rate: 44100, window_size: 512, hop_size: 256 }
    }
}

impl Default for RecentFftData {
    /// An empty rolling window.
    fn default() -> (r: RecentFftData)
        ensures
            r.wf(),
            r.frames() == Seq::<SpectrumData>::empty(),
            r.new_count() == 0,
    {
        RecentFftData { past_second: VecDeque::new(), new_from_fixed_update_count: 0 }
    }
}

impl FftConfig {
    /// Audio-typical bounds that keep every derived quantity
    /// representable.
    pub open spec fn wf(self) -> bool {
        &&& 1000 <= self.sample_rate <= 1_000_000
        &&& 2 <= self.window_size <= 65536
        &&& 1 <= self.hop_size <= 1_000_000
    }

    /// A new transform shape.
    pub fn new(sample_rate: u32, window_size: usize, hop_size: usize) -> (c: FftConfig)
        ensures
            c == (FftConfig { sample_rate, window_size, hop_size }),
    {
        FftConfig { sample_rate, window_size, hop_size }
    }

    /// The number of frequency bins a frame carries.
    pub fn num_bins(&self) -> (n: usize)
        requires
            self.wf(),
        ensures
            n == spec_num_bins(*self),
    {
        self.window_size / 2 + 1
    }

    /// The center frequency of `bin`, in milli-hertz.
    pub fn bin_to_frequency(&self, bin: usize) -> (f: i64)
        requires
            self.wf(),
            bin <= self.window_size,
        ensures
            f == spec_bin_to_freq(*self, bin as int),
            0 <= f <= 2_000_000_000_000,
    {
        proof {
            assert(0 <= (bin as int) * (self.sample_rate as int) * SCALE <= 65536 * 1_000_000
                * 1000 && (bin as int) * (self.sample_rate as int) * SCALE <= (
            self.window_size as int) * ((self.sample_rate as int) * SCALE)) by (nonlinear_arith)
                requires
                    0 <= bin <= self.window_size <= 65536 && 1000 <= self.sample_rate
                        <= 1_000_000,
            ;
        }
        let numerator: i64 = (bin as i64) * (self.sample_rate as i64) * SCALE;
        proof {
            let n = numerator as int;
            let w = self.window_size as int;
            crate::math::lemma_rdiv_bounds(n, w);
            assert(n + w / 2 < w * ((self.sample_rate as int) * SCALE + 1)) by (nonlinear_arith)
                requires
                    n <= w * ((self.sample_rate as int) * SCALE) && 2 <= w,
            ;
            vstd::arithmetic::div_mod::lemma_multiply_divide_lt(
                n + w / 2,
                w,
                (self.sample_rate as int) * SCALE + 1,
            );
        }
        rdiv64(numerator, self.window_size as i64)
    }

    /// The bin whose center frequency is nearest to `frequency`
    /// milli-hertz, clamped to the window size: every frequency past
    /// the top bin maps past the carried bins.
    pub fn frequency_to_bin(&self, frequency: i64) -> (b: usize)
        requires
            self.wf(),
            0 <= frequency <= 2_000_000_000_000,
        ensures
            b == spec_freq_to_bin(*self, frequency as int),
            b <= self.window_size,
    {
        let divisor: i64 = (self.sample_rate as i64) * SCALE;
        proof {
            crate::math::lemma_rdiv_bounds(
                frequency as int * self.window_size as int,
                divisor as int,
            );
            assert(frequency * self.window_size <= 2_000_000_000_000 * 65536)
                by (nonlinear_arith)
                requires
                    0 <= frequency <= 2_000_000_000_000 && 0 <= self.window_size <= 65536,
            ;
            assert(spec_rdiv(frequency as int * self.window_size as int, divisor as int) <= (
            frequency as int * self.window_size as int)) by {
                crate::math::lemma_rdiv_bounds(
                    frequency as int * self.window_size as int,
                    divisor as int,
                );
            }
        }
        let bin: i64 = rdiv64(frequency * (self.window_size as i64), divisor);
        if bin > self.window_size as i64 {
            self.window_size
        } else {
            bin as usize
        }
    }
}

/// The number of frequency bins a frame carries.
pub open spec fn spec_num_bins(c: FftConfig) -> int {
    c.window_size as int / 2 + 1
}

/// The center frequency of `bin`, in milli-hertz.
pub open spec fn spec_bin_to_freq(c: FftConfig, bin: int) -> int {
    spec_rdiv(bin * c.sample_rate * SCALE, c.window_size as int)
}

/// The bin whose center frequency is nearest to `f` milli-hertz,
/// clamped to the window size.
pub open spec fn spec_freq_to_bin(c: FftConfig, f: int) -> int {
    let raw = spec_rdiv(f * c.window_size, c.sample_rate * SCALE as int);
    if raw > c.window_size {
        c.window_size as int
    } else {
        raw
    }
}

/// Mapping a bin to its center frequency and back returns the same
/// bin, for every representable bin.
pub proof fn lemma_bin_frequency_round_trip(c: FftConfig, i: int)
    requires
        c.wf(),
        0 <= i <= c.window_size,
    ensures
        spec_freq_to_bin(c, spec_bin_to_freq(c, i)) == i,
{
    let w = c.window_size as int;
    let d = c.sample_rate * SCALE as int;
    let n = i * d;
    assert(n == i * c.sample_rate * SCALE) by (nonlinear_arith)
        requires
            n == i * (c.sample_rate * SCALE as int),
    ;
    let f = spec_rdiv(n, w);
    crate::math::lemma_rdiv_bounds(n, w);
    // f is the rounded quotient n / w: f * w sits within w/2 of n.
    vstd::arithmetic::div_mod::lemma_fundamental_div_mod(n + w / 2, w);
    let q = (n + w / 2) / w;
    let rem = (n + w / 2) % w;
    vstd::arithmetic::div_mod::lemma_mod_division_less_than_divisor(n + w / 2, w);
    assert(f == q);
    assert(n + w / 2 == w * q + rem);
    assert(q * w == w * q) by (nonlinear_arith);
    assert(q * w == n + w / 2 - rem);
    let e = f * w - n;
    assert(e == w / 2 - rem);
    assert(-(w / 2) <= e <= w / 2);
    // Pushing the error through the second rounded division leaves i.
    assert(f * w == i * d + e);
    assert(w / 2 < d / 2) by {
        assert(2 <= w <= 65536);
        assert(d >= 1000 * 1000);
    }
    assert(0 <= e + d / 2 < d);
    assert(f * w >= 0) by (nonlinear_arith)
        requires
            f >= 0 && w >= 0,
    ;
    assert(spec_rdiv(f * w, d) == (f * w + d / 2) / d);
    assert((i * d + e + d / 2) / d == i + (e + d / 2) / d) by {
        vstd::arithmetic::div_mod::lemma_hoist_over_denominator(e + d / 2, i, d as nat);
    }
    assert((e + d / 2) / d == 0) by {
        vstd::arithmetic::div_mod::lemma_basic_div(e + d / 2, d);
    }
    assert(spec_rdiv(f * w, d) == i);
}

/// One magnitude spectrum produced from a single analysis window.
pub struct SpectrumData {
    /// Magnitude per frequency bin, in thousandths.
    pub magnitudes: Vec<i64>,
    /// The shape this frame was produced under.
    pub config: FftConfig,
}

/// The sum of `s[a..b]`.
pub open spec fn spec_sum(s: Seq<i64>, a: int, b: int) -> int
    decreases b - a,
{
    if a >= b {
        0
    } else {
        s[b - 1] + spec_sum(s, a, b - 1)
    }
}

/// The mean of the bins from `freq_min` to `freq_max`, clamped to the
/// valid bin range; zero for an empty range.
pub open spec fn spec_average_range(frame: SpectrumData, freq_min: int, freq_max: int) -> int {
    let bin_min = spec_freq_to_bin(frame.config, freq_min);
    let bin_max_raw = spec_freq_to_bin(frame.config, freq_max);
    let bin_max = if bin_max_raw < frame.magnitudes@.len() - 1 {
        bin_max_raw
    } else {
        frame.magnitudes@.len() - 1
    };
    if bin_min > bin_max {
        0
    } else {
        spec_rdiv(spec_sum(frame.magnitudes@, bin_min, bin_max + 1), bin_max + 1 - bin_min)
    }
}

impl SpectrumData {
    /// The frame fits its config and every magnitude is a bounded,
    /// non-negative amount.
    pub open spec fn wf(self) -> bool {
        &&& self.config.wf()
        &&& self.magnitudes@.len() == spec_num_bins(self.config)
        &&& forall|i: int|
            0 <= i < self.magnitudes@.len() ==> 0 <= #[trigger] self.magnitudes@[i] <= VAL_LIMIT
    }

    /// The mean magnitude of the bins covering `freq_min` to
    /// `freq_max` milli-hertz, clamped to the valid bin range; zero
    /// for an empty range.
    pub fn average_magnitude_range(&self, freq_min: i64, freq_max: i64) -> (r: i64)
        requires
            self.wf(),
            0 <= freq_min <= 2_000_000_000_000,
            0 <= freq_max <= 2_000_000_000_000,
        ensures
            r == spec_average_range(*self, freq_min as int, freq_max as int),
            0 <= r <= VAL_LIMIT,
    {
        let bin_min: usize = self.config.frequency_to_bin(freq_min);
        let bin_max_raw: usize = self.config.frequency_to_bin(freq_max);
        let last: usize = self.magnitudes.len() - 1;
        let bin_max: usize = if bin_max_raw < last {
            bin_max_raw
        } else {
            last
        };
        if bin_min > bin_max {
            return 0;
        }
        let mut sum: i64 = 0;
        let mut i: usize = bin_min;
        while i <= bin_max
            invariant
                self.wf(),
                bin_min <= i <= bin_max + 1,
                bin_max < self.magnitudes@.len(),
                sum == spec_sum(self.magnitudes@, bin_min as int, i as int),
                0 <= sum <= (i - bin_min) * VAL_LIMIT,
            decreases bin_max + 1 - i,
        {
            sum = sum + self.magnitudes[i];
            i += 1;
        }
        let count: i64 = (bin_max - bin_min + 1) as i64;
        proof {
            crate::math::lemma_rdiv_bounds(sum as int, count as int);
            assert(sum + count / 2 < count * (VAL_LIMIT + 1)) by (nonlinear_arith)
                requires
                    0 <= sum <= count * VAL_LIMIT && 1 <= count,
            ;
            vstd::arithmetic::div_mod::lemma_multiply_divide_lt(
                sum as int + count as int / 2,
                count as int,
                VAL_LIMIT as int + 1,
            );
        }
        rdiv64(sum, count)
    }

    /// The mean magnitude of the bass band, 20 to 150 hertz.
    pub fn bass(&self) -> (r: i64)
        requires
            self.wf(),
        ensures
            r == spec_average_range(*self, 20_000, 150_000),
            0 <= r <= VAL_LIMIT,
    {
        self.average_magnitude_range(20_000, 150_000)
    }

    /// The mean magnitude of the low-mid band, 150 to 500 hertz.
    pub fn low_mid(&self) -> (r: i64)
        requires
            self.wf(),
        ensures
            r == spec_average_range(*self, 150_000, 500_000),
            0 <= r <= VAL_LIMIT,
    {
        self.average_magnitude_range(150_000, 500_000)
    }

    /// The mean magnitude of the mid band, 500 to 2000 hertz.
    pub fn mid(&self) -> (r: i64)
        requires
            self.wf(),
        ensures
            r == spec_average_range(*self, 500_000, 2_000_000),
            0 <= r <= VAL_LIMIT,
    {
        self.average_magnitude_range(500_000, 2_000_000)
    }

    /// The mean magnitude of the high-mid band, 2 to 4 kilohertz.
    pub fn high_mid(&self) -> (r: i64)
        requires
            self.wf(),
        ensures
            r == spec_average_range(*self, 2_000_000, 4_000_000),
            0 <= r <= VAL_LIMIT,
    {
        self.average_magnitude_range(2_000_000, 4_000_000)
    }

    /// The mean magnitude of the treble band, 4 to 20 kilohertz.
    pub fn treble(&self) -> (r: i64)
        requires
            self.wf(),
        ensures
            r == spec_average_range(*self, 4_000_000, 20_000_000),
            0 <= r <= VAL_LIMIT,
    {
        self.average_magnitude_range(4_000_000, 20_000_000)
    }

    /// The center frequency and magnitude of the strongest bin,
    /// ignoring the zero-frequency bin; later bins win ties.
    pub fn peak_frequency(&self) -> (r: (i64, i64))
        requires
            self.wf(),
        ensures
            self.magnitudes@.len() >= 2 ==> {
                let peak = spec_peak_index(self.magnitudes@);
                &&& r.0 == spec_bin_to_freq(self.config, peak)
                &&& r.1 == self.magnitudes@[peak]
                &&& forall|j: int| 1 <= j < self.magnitudes@.len() ==> #[trigger] self.magnitudes@[j] <= r.1
            },
            self.magnitudes@.len() < 2 ==> r.0 == spec_bin_to_freq(self.config, 0) && r.1 == 0,
    {
        if self.magnitudes.len() < 2 {
            return (self.config.bin_to_frequency(0), 0);
        }
        let mut best: usize = 1;
        let mut i: usize = 2;
        let n: usize = self.magnitudes.len();
        while i < n
            invariant
                self.wf(),
                n == self.magnitudes@.len(),
                2 <= i <= n,
                1 <= best < i,
                best == spec_peak_upto(self.magnitudes@, i as int),
                forall|j: int| 1 <= j < i ==> #[trigger] self.magnitudes@[j]
                    <= self.magnitudes@[best as int],
            decreases n - i,
        {
            if self.magnitudes[i] >= self.magnitudes[best] {
                best = i;
            }
            i += 1;
        }
        (self.config.bin_to_frequency(best), self.magnitudes[best])
    }

    /// The magnitude at the bin nearest `freq` milli-hertz, or zero
    /// when `freq` lies beyond the last bin.
    pub fn magnitude_at_frequency(&self, freq: i64) -> (m: i64)
        requires
            self.wf(),
            0 <= freq <= 2_000_000_000_000,
        ensures
            ({
                let bin = spec_freq_to_bin(self.config, freq as int);
                m == if bin < self.magnitudes@.len() {
                    self.magnitudes@[bin]
                } else {
                    0
                }
            }),
            0 <= m <= VAL_LIMIT,
    {
        let bin: usize = self.config.frequency_to_bin(freq);
        if bin < self.magnitudes.len() {
            self.magnitudes[bin]
        } else {
            0
        }
    }
}

/// The index of the strongest bin among `s[1..k]`, later bins
/// winning ties.
pub open spec fn spec_peak_upto(s: Seq<i64>, k: int) -> int
    decreases k,
{
    if k <= 2 {
        1
    } else {
        let p = spec_peak_upto(s, k - 1);
        if s[k - 1] >= s[p] {
            k - 1
        } else {
            p
        }
    }
}

/// The index of the strongest bin, the zero-frequency bin excluded.
pub open spec fn spec_peak_index(s: Seq<i64>) -> int {
    spec_peak_upto(s, s.len() as int)
}

/// How many frames the rolling window keeps: enough to cover one
/// second of audio at the hop rate, plus one frame.
pub open spec fn spec_retained_frames(c: FftConfig) -> int {
    (c.sample_rate + c.hop_size - 1) as int / c.hop_size as int + 1
}

/// How many analysis frames a buffer of `buffered` samples yields: a
/// first full window, then one frame per further hop.
pub open spec fn spec_frames_available(c: FftConfig, buffered: int) -> int {
    if buffered < c.window_size {
        0
    } else {
        (buffered - c.window_size) / c.hop_size as int + 1
    }
}

impl FftConfig {
    /// How many analysis frames a buffer of `buffered` samples
    /// yields.
    pub fn frames_available(&self, buffered: usize) -> (n: usize)
        requires
            self.wf(),
        ensures
            n == spec_frames_available(*self, buffered as int),
    {
        if buffered < self.window_size {
            0
        } else {
            (buffered - self.window_size) / self.hop_size + 1
        }
    }

    /// The spacing of neighbouring bin center frequencies, in
    /// milli-hertz.
    pub fn frequency_resolution(&self) -> (r: i64)
        requires
            self.wf(),
        ensures
            r == spec_bin_to_freq(*self, 1),
    {
        self.bin_to_frequency(1)
    }

    /// How much audio one window covers, in milli-milliseconds.
    pub fn frame_latency_ms(&self) -> (r: i64)
        requires
            self.wf(),
        ensures
            r == spec_rdiv(self.window_size as int * 1_000_000, self.sample_rate as int),
    {
        proof {
            crate::math::lemma_rdiv_bounds(
                self.window_size as int * 1_000_000,
                self.sample_rate as int,
            );
        }
        rdiv64((self.window_size as i64) * 1_000_000, self.sample_rate as i64)
    }

    /// How much time passes between frames, in milli-milliseconds.
    pub fn update_rate_ms(&self) -> (r: i64)
        requires
            self.wf(),
            self.hop_size <= 65536,
        ensures
            r == spec_rdiv(self.hop_size as int * 1_000_000, self.sample_rate as int),
    {
        proof {
            crate::math::lemma_rdiv_bounds(
                self.hop_size as int * 1_000_000,
                self.sample_rate as int,
            );
        }
        rdiv64((self.hop_size as i64) * 1_000_000, self.sample_rate as i64)
    }
}

/// The rolling window of recent spectrum frames, about one second
/// deep, remembering how many frames the latest tick appended.
pub struct RecentFftData {
    past_second: VecDeque<SpectrumData>,
    new_from_fixed_update_count: usize,
}

impl RecentFftData {
    /// The retained frames, oldest first.
    pub closed spec fn frames(self) -> Seq<SpectrumData> {
        self.past_second@
    }

    /// How many of the retained frames arrived on the latest tick.
    pub closed spec fn new_count(self) -> int {
        self.new_from_fixed_update_count as int
    }

    /// The newness count never exceeds the frame count, and every
    /// frame is well-formed.
    pub open spec fn wf(self) -> bool {
        &&& self.new_count() <= self.frames().len()
        &&& forall|i: int| 0 <= i < self.frames().len() ==> (#[trigger] self.frames()[i]).wf()
    }

    /// An empty rolling window.
    pub fn new() -> (r: RecentFftData)
        ensures
            r.wf(),
            r.frames() == Seq::<SpectrumData>::empty(),
            r.new_count() == 0,
    {
        RecentFftData { past_second: VecDeque::new(), new_from_fixed_update_count: 0 }
    }

    /// How many frames are retained.
    pub fn len(&self) -> (n: usize)
        ensures
            n == self.frames().len(),
    {
        self.past_second.len()
    }

    /// How many of the retained frames arrived on the latest tick.
    pub fn new_frame_count(&self) -> (n: usize)
        ensures
            n == self.new_count(),
    {
        self.new_from_fixed_update_count
    }

    /// The retained frame at `i`, oldest first.
    pub fn frame_at(&self, i: usize) -> (f: &SpectrumData)
        requires
            i < self.frames().len(),
        ensures
            *f == self.frames()[i as int],
    {
        &self.past_second[i]
    }

    /// Appends the frames of one tick, records how many came, and
    /// trims the front down to the retention window of the incoming
    /// frames' config.
    pub fn add(&mut self, new_data: VecDeque<SpectrumData>)
        requires
            old(self).wf(),
            forall|i: int| 0 <= i < new_data@.len() ==> (#[trigger] new_data@[i]).wf(),
            old(self).frames().len() + new_data@.len() < 1_000_000_000,
        ensures
            final (self).wf(),
            new_data@.len() == 0 ==> final (self).frames() == old(self).frames() && final (
            self).new_count() == 0,
            new_data@.len() > 0 ==> {
                let all = old(self).frames() + new_data@;
                let kept = spec_retained_frames(new_data@[0].config);
                &&& final (self).frames() == all.skip(
                    if all.len() <= kept {
                        0
                    } else {
                        all.len() - kept
                    },
                )
                &&& final (self).new_count() == (if new_data@.len() <= final (
                self).frames().len() {
                    new_data@.len() as int
                } else {
                    final (self).frames().len() as int
                })
            },
    {
        let ghost all = old(self).frames() + new_data@;
        let mut new_data = new_data;
        if new_data.len() == 0 {
            self.new_from_fixed_update_count = 0;
            proof {
                assert(all =~= old(self).frames());
            }
            return ;
        }
        let config: FftConfig = new_data[0].config;
        proof {
            assert(config.wf());
        }
        let new_len: usize = new_data.len();
        while new_data.len() > 0
            invariant
                self.past_second@ + new_data@ =~= all,
                forall|i: int| 0 <= i < new_data@.len() ==> (#[trigger] new_data@[i]).wf(),
                forall|i: int|
                    0 <= i < self.past_second@.len() ==> (#[trigger] self.past_second@[i]).wf(),
            decreases new_data@.len(),
        {
            let frame = new_data.pop_front().unwrap();
            self.past_second.push_back(frame);
        }
        proof {
            assert(self.past_second@ =~= all);
        }
        let number_to_keep: usize = ((config.sample_rate as usize) + config.hop_size - 1)
            / config.hop_size + 1;
        proof {
            assert(number_to_keep == spec_retained_frames(config));
        }
        let ghost bound: int = if all.len() <= number_to_keep {
            0int
        } else {
            all.len() - number_to_keep
        };
        let ghost mut dropped: int = 0;
        while self.past_second.len() > number_to_keep
            invariant
                number_to_keep >= 1,
                0 <= dropped <= bound,
                bound == (if all.len() <= number_to_keep {
                    0int
                } else {
                    all.len() - number_to_keep
                }),
                self.past_second@ =~= all.skip(dropped),
                forall|i: int|
                    0 <= i < self.past_second@.len() ==> (#[trigger] self.past_second@[i]).wf(),
            decreases self.past_second@.len(),
        {
            self.past_second.pop_front();
            proof {
                assert(self.past_second@ =~= all.skip(dropped + 1));
                dropped = dropped + 1;
            }
        }
        let count: usize = if new_len <= self.past_second.len() {
            new_len
        } else {
            self.past_second.len()
        };
        self.new_from_fixed_update_count = count;
        proof {
            assert(self.past_second@.len() == all.len() - dropped);
            assert(dropped == bound);
            assert(self.past_second@ =~= all.skip(bound));
        }
    }
}

} // verus!
