use std::collections::VecDeque;

use lightshow::color::Color;
use lightshow::color::ColorBlendingMode;
use lightshow::effects::ColorEffectInfo;
use lightshow::effects::ColorFillEffect;
use lightshow::effects::Effect;
use lightshow::effects::EffectInfo;
use lightshow::engine::Engine;
use lightshow::fixture::FixtureInfo;
use lightshow::fixture::FixtureInput;
use lightshow::fixture::FixtureType;
use lightshow::keyframes::InterpolationType;
use lightshow::keyframes::Keyframe;
use lightshow::keyframes::KeyframeValue;
use lightshow::keyframes::Keyframes;
use lightshow::timeline::Clip;
use lightshow::timeline::Sequence;
use lightshow::timeline::SequenceInfo;
use lightshow::timeline::TimeSegment;
use lightshow::timeline::Track;
use lightshow::timeline::TrackContents;
use lightshow::timeline::TrackInfo;
use lightshow::vec3::Vec3;

fn color_fixture() -> FixtureInfo {
    FixtureInfo {
        groups: vec![0],
        input_type: FixtureType::Color,
        position: Vec3 { x: 0, y: 0, z: 0 },
    }
}

fn fill_effect(color: Color, keyframes: Vec<Keyframe>) -> Effect {
    Effect {
        groups: vec![0],
        info: EffectInfo::ColorEffectInfo(ColorEffectInfo::ColorFillEffect(ColorFillEffect {
            color,
        })),
        keyframes: Keyframes { keyframes },
    }
}

fn red() -> Color {
    Color { red: 1000, green: 0, blue: 0, alpha: 1000 }
}

fn transparent() -> Color {
    Color { red: 0, green: 0, blue: 0, alpha: 0 }
}

fn single_fill_engine(keyframes: Vec<Keyframe>) -> Engine {
    let mut engine = Engine::new();
    let effect_handle = engine.add_effect(fill_effect(red(), keyframes));
    let sequence = Sequence {
        name: "show".to_string(),
        length: 2000,
        tracks: vec![Track {
            info: TrackInfo { color_blending_mode: ColorBlendingMode::Add, opacity: 1000 },
            contents: TrackContents::EffectTrack { effect_handle },
        }],
        info: SequenceInfo { strength: 1000 },
    };
    let sequence_handle = engine.add_sequence(sequence);
    engine.set_primary_sequence(Some(sequence_handle));
    engine
}

#[test]
fn static_fill_holds_red_while_playing() {
    let mut engine = single_fill_engine(vec![]);
    engine.set_playing(true);
    let fixtures = vec![color_fixture(), color_fixture()];
    // 44 ticks of about 1/44 s covers one second of playback.
    let mut elapsed: i64 = 0;
    for _ in 0..44 {
        let out = engine.tick(23, &fixtures, VecDeque::new());
        elapsed += 23;
        assert_eq!(out.len(), 2);
        for value in &out {
            assert_eq!(*value, FixtureInput::Color(red()));
        }
    }
    assert!(elapsed >= 1000);
}

#[test]
fn keyframed_fill_is_half_gray_at_midpoint() {
    let keyframes = vec![
        Keyframe {
            time: 0,
            interpolation: InterpolationType::LINEAR,
            key: "color".to_string(),
            value: KeyframeValue::ColorKeyframe(Color { red: 0, green: 0, blue: 0, alpha: 1000 }),
        },
        Keyframe {
            time: 2000,
            interpolation: InterpolationType::LINEAR,
            key: "color".to_string(),
            value: KeyframeValue::ColorKeyframe(Color {
                red: 1000,
                green: 1000,
                blue: 1000,
                alpha: 1000,
            }),
        },
    ];
    let mut engine = single_fill_engine(keyframes);
    engine.seek(1000);
    let fixtures = vec![color_fixture(), color_fixture()];
    let out = engine.tick(0, &fixtures, VecDeque::new());
    let expected = Color { red: 500, green: 500, blue: 500, alpha: 1000 };
    assert_eq!(out[0], FixtureInput::Color(expected));
    assert_eq!(out[1], FixtureInput::Color(expected));
}

fn clip_engine() -> Engine {
    let mut engine = Engine::new();
    let effect_handle = engine.add_effect(fill_effect(red(), vec![]));
    let child = Sequence {
        name: "child".to_string(),
        length: 2000,
        tracks: vec![Track {
            info: TrackInfo { color_blending_mode: ColorBlendingMode::Add, opacity: 1000 },
            contents: TrackContents::EffectTrack { effect_handle },
        }],
        info: SequenceInfo { strength: 1000 },
    };
    let child_handle = engine.add_sequence(child);
    let root = Sequence {
        name: "root".to_string(),
        length: 4000,
        tracks: vec![Track {
            info: TrackInfo { color_blending_mode: ColorBlendingMode::Add, opacity: 1000 },
            contents: TrackContents::SequenceTrack {
                clips: vec![Clip {
                    sequence_handle: child_handle,
                    time_segment: TimeSegment { start_time: 1000, duration: 2000, start_offset: 0 },
                }],
            },
        }],
        info: SequenceInfo { strength: 1000 },
    };
    let root_handle = engine.add_sequence(root);
    engine.set_primary_sequence(Some(root_handle));
    engine
}

#[test]
fn clip_boundary_switches_between_default_and_red() {
    let mut engine = clip_engine();
    let fixtures = vec![color_fixture()];

    engine.seek(500);
    let before = engine.tick(0, &fixtures, VecDeque::new());
    assert_eq!(before[0], FixtureInput::Color(transparent()));

    engine.seek(1500);
    let inside = engine.tick(0, &fixtures, VecDeque::new());
    assert_eq!(inside[0], FixtureInput::Color(red()));

    engine.seek(3500);
    let after = engine.tick(0, &fixtures, VecDeque::new());
    assert_eq!(after[0], FixtureInput::Color(transparent()));
}

#[test]
fn crossing_a_clip_discards_the_child_subtree() {
    let mut engine = clip_engine();
    let fixtures = vec![color_fixture()];
    engine.seek(1500);
    let inside = engine.tick(0, &fixtures, VecDeque::new());
    assert_eq!(inside[0], FixtureInput::Color(red()));
    assert!(engine.sequence_tree.primary_node.is_some());
    engine.seek(3500);
    let outside = engine.tick(0, &fixtures, VecDeque::new());
    assert_eq!(outside[0], FixtureInput::Color(transparent()));
}

#[test]
fn zero_delta_ticks_are_idempotent() {
    let keyframes = vec![
        Keyframe {
            time: 0,
            interpolation: InterpolationType::LINEAR,
            key: "color".to_string(),
            value: KeyframeValue::ColorKeyframe(transparent()),
        },
        Keyframe {
            time: 2000,
            interpolation: InterpolationType::LINEAR,
            key: "color".to_string(),
            value: KeyframeValue::ColorKeyframe(red()),
        },
    ];
    let mut engine = single_fill_engine(keyframes);
    engine.seek(700);
    let fixtures = vec![color_fixture(), color_fixture()];
    let first = engine.tick(0, &fixtures, VecDeque::new());
    let second = engine.tick(0, &fixtures, VecDeque::new());
    assert_eq!(first, second);
}

#[test]
fn empty_sequence_evaluates_to_defaults() {
    let mut engine = Engine::new();
    let sequence = Sequence {
        name: "empty".to_string(),
        length: 1000,
        tracks: vec![],
        info: SequenceInfo { strength: 1000 },
    };
    let handle = engine.add_sequence(sequence);
    engine.set_primary_sequence(Some(handle));
    let fixtures = vec![color_fixture()];
    let out = engine.tick(0, &fixtures, VecDeque::new());
    assert_eq!(out[0], FixtureInput::Color(transparent()));
}

#[test]
fn absent_primary_sequence_pins_time_and_yields_defaults() {
    let mut engine = Engine::new();
    engine.set_playing(true);
    engine.seek(900);
    let fixtures = vec![color_fixture()];
    let out = engine.tick(100, &fixtures, VecDeque::new());
    assert_eq!(out[0], FixtureInput::Color(transparent()));
    assert_eq!(engine.playback.current_time, 0);
    assert!(!engine.playback.is_playing);
}

#[test]
fn playback_wraps_to_origin_past_the_sequence_end() {
    let mut engine = single_fill_engine(vec![]);
    engine.set_playing(true);
    engine.seek(1990);
    let fixtures = vec![color_fixture()];
    engine.tick(5, &fixtures, VecDeque::new());
    assert_eq!(engine.playback.current_time, 1995);
    engine.tick(10, &fixtures, VecDeque::new());
    assert_eq!(engine.playback.current_time, 0);
    assert!(engine.playback.is_playing);
}

#[test]
fn removing_the_primary_sequence_stops_the_show() {
    let mut engine = single_fill_engine(vec![]);
    engine.set_playing(true);
    let fixtures = vec![color_fixture()];
    let out = engine.tick(10, &fixtures, VecDeque::new());
    assert_eq!(out[0], FixtureInput::Color(red()));

    let handle = match engine.primary_sequence.0 {
        Some(h) => h,
        None => panic!("a primary sequence was scheduled"),
    };
    assert_eq!(engine.remove_sequence(handle), Ok(()));
    let out = engine.tick(10, &fixtures, VecDeque::new());
    assert_eq!(out[0], FixtureInput::Color(transparent()));
    assert_eq!(engine.playback.current_time, 0);
    assert!(!engine.playback.is_playing);
}

#[test]
fn retiring_a_scheduled_effect_drops_only_its_branch() {
    let mut engine = Engine::new();
    let effect_handle = engine.add_effect(fill_effect(red(), vec![]));
    let sequence = Sequence {
        name: "show".to_string(),
        length: 2000,
        tracks: vec![Track {
            info: TrackInfo { color_blending_mode: ColorBlendingMode::Add, opacity: 1000 },
            contents: TrackContents::EffectTrack { effect_handle },
        }],
        info: SequenceInfo { strength: 1000 },
    };
    let sequence_handle = engine.add_sequence(sequence);
    engine.set_primary_sequence(Some(sequence_handle));
    engine.set_playing(true);

    let fixtures = vec![color_fixture()];
    let lit = engine.tick(10, &fixtures, VecDeque::new());
    assert_eq!(lit[0], FixtureInput::Color(red()));

    // Retire the effect while its track still schedules it: the
    // branch goes dark instead of the engine failing, and playback
    // carries on against the still-resolving sequence.
    assert_eq!(engine.remove_effect(effect_handle), Ok(()));
    let dark = engine.tick(10, &fixtures, VecDeque::new());
    assert_eq!(dark[0], FixtureInput::Color(transparent()));
    assert_eq!(engine.playback.current_time, 20);
    assert!(engine.playback.is_playing);
}
