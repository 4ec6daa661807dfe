use std::collections::VecDeque;

use lightshow::color::Color;
use lightshow::effects::ColorFrequencyCascadeEffect;
use lightshow::spectrum::FftConfig;
use lightshow::spectrum::RecentFftData;
use lightshow::spectrum::SpectrumData;
use lightshow::vec3::Vec3;

fn cascade() -> ColorFrequencyCascadeEffect {
    let blue = Color { red: 0, green: 0, blue: 1000, alpha: 1000 };
    let red = Color { red: 1000, green: 0, blue: 0, alpha: 1000 };
    ColorFrequencyCascadeEffect::new(
        vec![(0i64, blue), (1000i64, red)],
        Vec3 { x: 1000, y: 0, z: 0 },
        4,
        0,
    )
}

#[test]
fn silence_leaves_the_cascade_dark() {
    let mut effect = cascade();
    let recent = RecentFftData::new();
    effect.update(&recent);
    let at_head = effect.get_value(&Vec3 { x: 1000, y: 0, z: 0 });
    assert_eq!(at_head.alpha, 0);
}

#[test]
fn a_loud_frame_lights_the_cascade_head() {
    let mut effect = cascade();
    let config = FftConfig::new(44100, 512, 256);
    let mut magnitudes = vec![0i64; 257];
    // A strong mid-band line at about 1 kHz.
    magnitudes[12] = 450_000;
    let mut batch: VecDeque<SpectrumData> = VecDeque::new();
    batch.push_back(SpectrumData { magnitudes, config });
    let mut recent = RecentFftData::new();
    recent.add(batch);
    effect.update(&recent);
    // The newest ring entry sits at the head of the cascade.
    let at_head = effect.get_value(&Vec3 { x: 1000, y: 0, z: 0 });
    assert!(at_head.alpha > 0, "alpha {}", at_head.alpha);
    // One period earlier the ring still holds silence.
    let at_origin = effect.get_value(&Vec3 { x: 0, y: 0, z: 0 });
    assert_eq!(at_origin.alpha, 0);
}
