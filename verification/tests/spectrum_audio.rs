use std::collections::VecDeque;

use lightshow::spectrum::FftConfig;
use lightshow::spectrum::RecentFftData;
use lightshow::spectrum::SpectrumData;
use realfft::RealFftPlanner;

fn config() -> FftConfig {
    FftConfig::new(44100, 512, 256)
}

#[test]
fn bin_and_frequency_round_trip() {
    let c = config();
    for bin in 0..=256usize {
        let freq = c.bin_to_frequency(bin);
        assert_eq!(c.frequency_to_bin(freq), bin, "bin {}", bin);
    }
}

#[test]
fn bin_frequencies_match_the_resolution() {
    let c = config();
    // 44100 Hz / 512 samples is about 86.133 Hz per bin.
    assert_eq!(c.bin_to_frequency(0), 0);
    assert_eq!(c.bin_to_frequency(1), 86_133);
    assert_eq!(c.frequency_resolution(), 86_133);
    assert_eq!(c.num_bins(), 257);
}

fn flat_frame(magnitudes: Vec<i64>) -> SpectrumData {
    SpectrumData { magnitudes, config: config() }
}

#[test]
fn average_magnitude_range_is_the_bin_mean() {
    let mut magnitudes = vec![0i64; 257];
    // Bins 0, 1 and 2 cover 0 to about 172 Hz.
    magnitudes[0] = 300;
    magnitudes[1] = 600;
    magnitudes[2] = 900;
    let frame = flat_frame(magnitudes);
    // 0 Hz maps to bin 0 and 150 Hz to bin 2: the mean of 300, 600, 900.
    assert_eq!(frame.average_magnitude_range(0, 150_000), 600);
}

#[test]
fn band_helpers_read_their_fixed_ranges() {
    let mut magnitudes = vec![0i64; 257];
    // 1000 Hz maps to bin 12; fill only that bin.
    magnitudes[12] = 880;
    let frame = flat_frame(magnitudes);
    assert!(frame.mid() > 0);
    assert_eq!(frame.bass(), 0);
    assert_eq!(frame.treble(), 0);
}

#[test]
fn peak_frequency_ignores_the_zero_bin() {
    let mut magnitudes = vec![0i64; 257];
    magnitudes[0] = 5000;
    magnitudes[40] = 700;
    let frame = flat_frame(magnitudes);
    let (freq, magnitude) = frame.peak_frequency();
    assert_eq!(magnitude, 700);
    assert_eq!(freq, frame.config.bin_to_frequency(40));
}

#[test]
fn recent_data_counts_and_trims_frames() {
    let mut recent = RecentFftData::new();
    let mut batch: VecDeque<SpectrumData> = VecDeque::new();
    for _ in 0..3 {
        batch.push_back(flat_frame(vec![0i64; 257]));
    }
    recent.add(batch);
    assert_eq!(recent.len(), 3);
    assert_eq!(recent.new_frame_count(), 3);

    // The retention window for this config is ceil(44100 / 256) + 1 = 174.
    let mut big: VecDeque<SpectrumData> = VecDeque::new();
    for _ in 0..200 {
        big.push_back(flat_frame(vec![0i64; 257]));
    }
    recent.add(big);
    assert_eq!(recent.len(), 174);
    assert_eq!(recent.new_frame_count(), 174);

    recent.add(VecDeque::new());
    assert_eq!(recent.len(), 174);
    assert_eq!(recent.new_frame_count(), 0);
}

fn sine_samples(freq_hz: f32, sample_rate: f32, count: usize) -> Vec<f32> {
    (0..count)
        .map(|i| (2.0 * std::f32::consts::PI * freq_hz * (i as f32) / sample_rate).sin())
        .collect()
}

/// The floating-point analysis front end, as the host performs it:
/// Hann window, real transform, magnitudes in fixed-point
/// thousandths.
fn analyze(samples: &[f32], c: FftConfig) -> VecDeque<SpectrumData> {
    let mut planner = RealFftPlanner::<f32>::new();
    let fft = planner.plan_fft_forward(c.window_size);
    let window: Vec<f32> = apodize::hanning_iter(c.window_size).map(|x| x as f32).collect();
    let mut frames: VecDeque<SpectrumData> = VecDeque::new();
    let mut start: usize = 0;
    while start + c.window_size <= samples.len() {
        let mut input: Vec<f32> =
            samples[start..start + c.window_size].iter().zip(window.iter()).map(|(s, w)| s * w).collect();
        let mut spectrum = fft.make_output_vec();
        fft.process(&mut input, &mut spectrum).unwrap();
        let magnitudes: Vec<i64> = spectrum
            .iter()
            .map(|z| ((z.re * z.re + z.im * z.im).sqrt() * 1000.0).round() as i64)
            .collect();
        frames.push_back(SpectrumData { magnitudes, config: c });
        start += c.hop_size;
    }
    frames
}

#[test]
fn frame_count_follows_the_hop_formula() {
    let c = config();
    let total: usize = 10_000;
    let samples = sine_samples(1000.0, 44100.0, total);
    let frames = analyze(&samples, c);
    let expected = (total - c.window_size) / c.hop_size + 1;
    assert_eq!(frames.len(), expected);
    assert_eq!(c.frames_available(total), expected);

    let mut recent = RecentFftData::new();
    recent.add(frames);
    assert_eq!(recent.new_frame_count(), expected);
    assert_eq!(recent.len(), expected);
}

#[test]
fn peak_frequency_of_a_sine_is_near_its_pitch() {
    let c = config();
    let samples = sine_samples(1000.0, 44100.0, 4096);
    let frames = analyze(&samples, c);
    assert!(frames.len() > 1);
    let mut recent = RecentFftData::new();
    recent.add(frames);
    let last = recent.frame_at(recent.len() - 1);
    let (freq, magnitude) = last.peak_frequency();
    assert!(magnitude > 0);
    let resolution = c.bin_to_frequency(1);
    assert!(
        (freq - 1_000_000).abs() <= resolution,
        "peak at {} milli-hertz, resolution {}",
        freq,
        resolution
    );
}
