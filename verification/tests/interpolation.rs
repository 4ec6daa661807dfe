use lightshow::color::blend_colors;
use lightshow::color::interpolate_color_bands;
use lightshow::color::Color;
use lightshow::color::ColorBlendingMode;
use lightshow::effects::ColorShockwaveEffect;
use lightshow::keyframes::get_color_value;
use lightshow::keyframes::get_float_value;
use lightshow::keyframes::get_vec3_value;
use lightshow::keyframes::interpolate_float;
use lightshow::keyframes::InterpolationType;
use lightshow::keyframes::Keyframe;
use lightshow::keyframes::KeyframeValue;
use lightshow::sampling::exp_decay;
use lightshow::sampling::sample_windowed;
use lightshow::vec3::Vec3;

fn float_key(time: i64, value: i64, interpolation: InterpolationType) -> Keyframe {
    Keyframe { time, interpolation, key: "radius".to_string(), value: KeyframeValue::FloatKeyframe(value) }
}

#[test]
fn channel_value_is_exact_at_keyframe_times() {
    let keyframes = vec![
        float_key(1000, 100, InterpolationType::LINEAR),
        float_key(3000, 500, InterpolationType::LINEAR),
    ];
    let key = "radius".to_string();
    assert_eq!(get_float_value(&keyframes, &key, 1000, 7), 100);
    assert_eq!(get_float_value(&keyframes, &key, 3000, 7), 500);
}

#[test]
fn channel_value_clamps_outside_the_keyframe_range() {
    let keyframes = vec![
        float_key(1000, 100, InterpolationType::LINEAR),
        float_key(3000, 500, InterpolationType::LINEAR),
    ];
    let key = "radius".to_string();
    assert_eq!(get_float_value(&keyframes, &key, 0, 7), 100);
    assert_eq!(get_float_value(&keyframes, &key, 5000, 7), 500);
}

#[test]
fn channel_value_interpolates_between_keyframes() {
    let keyframes = vec![
        float_key(1000, 100, InterpolationType::LINEAR),
        float_key(3000, 500, InterpolationType::LINEAR),
    ];
    let key = "radius".to_string();
    // Halfway in time, halfway in value.
    assert_eq!(get_float_value(&keyframes, &key, 2000, 7), 300);
}

#[test]
fn constant_interpolation_holds_the_start_value() {
    let keyframes = vec![
        float_key(1000, 100, InterpolationType::LINEAR),
        float_key(3000, 500, InterpolationType::CONSTANT),
    ];
    let key = "radius".to_string();
    assert_eq!(get_float_value(&keyframes, &key, 2999, 7), 100);
    assert_eq!(get_float_value(&keyframes, &key, 3000, 7), 500);
}

#[test]
fn silent_channel_returns_the_default() {
    let keyframes = vec![float_key(1000, 100, InterpolationType::LINEAR)];
    let other = "flat".to_string();
    assert_eq!(get_float_value(&keyframes, &other, 2000, 7), 7);
}

#[test]
fn color_and_vector_channels_interpolate_componentwise() {
    let keyframes = vec![
        Keyframe {
            time: 0,
            interpolation: InterpolationType::LINEAR,
            key: "color".to_string(),
            value: KeyframeValue::ColorKeyframe(Color { red: 0, green: 200, blue: 1000, alpha: 0 }),
        },
        Keyframe {
            time: 1000,
            interpolation: InterpolationType::LINEAR,
            key: "color".to_string(),
            value: KeyframeValue::ColorKeyframe(Color {
                red: 1000,
                green: 400,
                blue: 0,
                alpha: 1000,
            }),
        },
        Keyframe {
            time: 0,
            interpolation: InterpolationType::LINEAR,
            key: "center".to_string(),
            value: KeyframeValue::Vec3Keyframe(Vec3 { x: 0, y: -1000, z: 500 }),
        },
        Keyframe {
            time: 1000,
            interpolation: InterpolationType::LINEAR,
            key: "center".to_string(),
            value: KeyframeValue::Vec3Keyframe(Vec3 { x: 1000, y: 1000, z: 500 }),
        },
    ];
    let color_key = "color".to_string();
    let center_key = "center".to_string();
    let default_color = Color { red: 0, green: 0, blue: 0, alpha: 0 };
    let default_center = Vec3 { x: 0, y: 0, z: 0 };
    let color = get_color_value(&keyframes, &color_key, 500, &default_color);
    assert_eq!(color, Color { red: 500, green: 300, blue: 500, alpha: 500 });
    let center = get_vec3_value(&keyframes, &center_key, 500, &default_center);
    assert_eq!(center, Vec3 { x: 500, y: 0, z: 500 });
}

#[test]
fn interpolate_float_follows_the_fraction() {
    assert_eq!(interpolate_float(0, 1000, 250, InterpolationType::LINEAR), 250);
    assert_eq!(interpolate_float(0, 1000, 250, InterpolationType::CONSTANT), 0);
}

#[test]
fn blend_modes_match_their_formulas() {
    let a = Color { red: 400, green: 400, blue: 400, alpha: 1000 };
    let b = Color { red: 1000, green: 200, blue: 0, alpha: 1000 };
    // Mix: a + (b - a) * 0.5
    assert_eq!(
        blend_colors(&a, &b, 500, ColorBlendingMode::Mix),
        Color { red: 700, green: 300, blue: 200, alpha: 1000 }
    );
    // Add: a + b * 0.5
    assert_eq!(
        blend_colors(&a, &b, 500, ColorBlendingMode::Add),
        Color { red: 900, green: 500, blue: 400, alpha: 1500 }
    );
    // Subtract: a - b * 0.5
    assert_eq!(
        blend_colors(&a, &b, 500, ColorBlendingMode::Subtract),
        Color { red: -100, green: 300, blue: 400, alpha: 500 }
    );
    // Multiply: lerp(a, a * b, 0.5)
    assert_eq!(
        blend_colors(&a, &b, 500, ColorBlendingMode::Multiply),
        Color { red: 400, green: 240, blue: 200, alpha: 1000 }
    );
}

#[test]
fn mix_with_zero_factor_keeps_the_base_color() {
    let a = Color { red: 123, green: 456, blue: 789, alpha: 1000 };
    assert_eq!(blend_colors(&a, &a, 0, ColorBlendingMode::Mix), a);
}

#[test]
fn adding_the_transparent_color_changes_nothing() {
    let a = Color { red: 123, green: 456, blue: 789, alpha: 321 };
    let zero = Color { red: 0, green: 0, blue: 0, alpha: 0 };
    assert_eq!(blend_colors(&a, &zero, 1000, ColorBlendingMode::Add), a);
}

#[test]
fn color_bands_clamp_and_mix() {
    let black = Color { red: 0, green: 0, blue: 0, alpha: 1000 };
    let white = Color { red: 1000, green: 1000, blue: 1000, alpha: 1000 };
    let bands = vec![(0i64, black), (1000i64, white)];
    assert_eq!(interpolate_color_bands(&bands, -500), black);
    assert_eq!(interpolate_color_bands(&bands, 0), black);
    assert_eq!(
        interpolate_color_bands(&bands, 500),
        Color { red: 500, green: 500, blue: 500, alpha: 1000 }
    );
    assert_eq!(interpolate_color_bands(&bands, 2000), white);
}

#[test]
fn shockwave_envelope_matches_expected_influences() {
    let white = Color { red: 1000, green: 1000, blue: 1000, alpha: 1000 };
    let effect = ColorShockwaveEffect {
        color: white,
        center: Vec3 { x: 0, y: 0, z: 0 },
        radius: 10_000,
        flat: 0,
        head: 5_000,
        tail: 5_000,
    };
    let cases: Vec<(i64, i64)> = vec![
        (0, 0),
        (5_000, 0),
        (10_000, 1000),
        (12_500, 500),
        (15_000, 0),
        (20_000, 0),
    ];
    for (distance, influence) in cases {
        let position = Vec3 { x: distance, y: 0, z: 0 };
        let value = effect.get_value(&position);
        let level = influence;
        let expected = Color { red: level, green: level, blue: level, alpha: 1000 };
        assert_eq!(value, expected, "distance {}", distance);
    }
}

#[test]
fn sample_windowed_interpolates_linearly_for_narrow_windows() {
    let series = vec![0i64, 1000, 2000, 3000];
    // factor 0.5 lands at index 1.5.
    assert_eq!(sample_windowed(&series, 500, 0), 1500);
    assert_eq!(sample_windowed(&series, 0, 0), 0);
    assert_eq!(sample_windowed(&series, 1000, 0), 3000);
}

#[test]
fn sample_windowed_smooths_a_spike_with_a_wide_window() {
    let mut series = vec![0i64; 11];
    series[5] = 1000;
    let narrow = sample_windowed(&series, 500, 0);
    let smoothed = sample_windowed(&series, 500, 4000);
    assert_eq!(narrow, 1000);
    assert!(smoothed < 1000);
    assert!(smoothed > 0);
}

#[test]
fn exp_decay_falls_from_one_toward_zero() {
    assert_eq!(exp_decay(0), 1000);
    let one = exp_decay(1000);
    assert!(one > 250 && one < 450, "e^-1 around 0.37, got {}", one);
    assert_eq!(exp_decay(14_000), 0);
}

#[test]
fn negative_smoothing_widths_read_like_none() {
    let series = vec![0i64, 1000, 2000, 3000];
    assert_eq!(sample_windowed(&series, 500, -250), sample_windowed(&series, 500, 0));
    assert_eq!(sample_windowed(&series, 500, -250), 1500);
}
