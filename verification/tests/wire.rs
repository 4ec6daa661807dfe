use lightshow::controllers::Trigger;
use lightshow::controllers::TriggerBinding;
use lightshow::controllers::ValueBinding;
use lightshow::dmx::artnet_output_frame;
use lightshow::dmx::Dmx512Buffer;
use lightshow::dmx::DmxError;
use lightshow::fixture::component_to_dmx;
use lightshow::midi::MidiError;
use lightshow::midi::MidiMessage;

#[test]
fn dmx_buffer_tracks_channels_and_fill_mark() {
    let mut buffer = Dmx512Buffer::new();
    buffer.set_channel(0, 255);
    buffer.set_channel(2, 128);
    buffer.set_channel(600, 7);
    let data = buffer.active_data();
    assert_eq!(data, vec![255, 0, 128]);
    buffer.clear();
    assert_eq!(buffer.active_data(), Vec::<u8>::new());
}

#[test]
fn component_to_dmx_scales_and_saturates() {
    assert_eq!(component_to_dmx(0), 0);
    assert_eq!(component_to_dmx(1000), 255);
    assert_eq!(component_to_dmx(500), 128);
    assert_eq!(component_to_dmx(-400), 0);
    assert_eq!(component_to_dmx(2000), 255);
}

#[test]
fn artnet_frame_wraps_the_channel_data() {
    let mut buffer = Dmx512Buffer::new();
    buffer.set_channel(0, 10);
    buffer.set_channel(1, 20);
    let frame = artnet_output_frame(3, &buffer).unwrap();
    // The whole packet, byte for byte: header, ArtDmx opcode in
    // little-endian, protocol version 14, sequence and physical
    // zeroed, universe in little-endian, data length in big-endian,
    // then the channel data.
    let expected: Vec<u8> = vec![
        0x41, 0x72, 0x74, 0x2D, 0x4E, 0x65, 0x74, 0x00, 0x00, 0x50, 0x00, 0x0E, 0x00, 0x00, 0x03,
        0x00, 0x00, 0x02, 10, 20,
    ];
    assert_eq!(frame, expected);
}

#[test]
fn artnet_frame_pads_odd_data_to_an_even_length() {
    let mut buffer = Dmx512Buffer::new();
    buffer.set_channel(0, 7);
    let frame = artnet_output_frame(256, &buffer).unwrap();
    let expected: Vec<u8> = vec![
        0x41, 0x72, 0x74, 0x2D, 0x4E, 0x65, 0x74, 0x00, 0x00, 0x50, 0x00, 0x0E, 0x00, 0x00, 0x00,
        0x01, 0x00, 0x02, 7, 0,
    ];
    assert_eq!(frame, expected);
}

#[test]
fn artnet_frame_rejects_wide_universes() {
    let mut buffer = Dmx512Buffer::new();
    buffer.set_channel(0, 1);
    buffer.set_channel(1, 2);
    assert_eq!(artnet_output_frame(40_000, &buffer), Err(DmxError::InvalidUniverse));
    assert!(artnet_output_frame(32_767, &buffer).is_ok());
}

#[test]
fn midi_note_and_control_messages_parse() {
    assert_eq!(
        MidiMessage::from_bytes(&vec![0x92, 60, 101]),
        Ok(MidiMessage::NoteOn { channel: 2, note: 60, velocity: 101 })
    );
    assert_eq!(
        MidiMessage::from_bytes(&vec![0x85, 61, 0]),
        Ok(MidiMessage::NoteOff { channel: 5, note: 61, velocity: 0 })
    );
    assert_eq!(
        MidiMessage::from_bytes(&vec![0xB0, 7, 127]),
        Ok(MidiMessage::ControlChange { channel: 0, control: 7, value: 127 })
    );
}

#[test]
fn midi_parse_reports_each_failure() {
    assert_eq!(MidiMessage::from_bytes(&vec![]), Err(MidiError::EmptyMessage));
    assert_eq!(MidiMessage::from_bytes(&vec![0x90]), Err(MidiError::MissingNote));
    assert_eq!(MidiMessage::from_bytes(&vec![0x90, 60]), Err(MidiError::MissingVelocity));
    assert_eq!(MidiMessage::from_bytes(&vec![0xB1]), Err(MidiError::MissingControl));
    assert_eq!(MidiMessage::from_bytes(&vec![0xB1, 7]), Err(MidiError::MissingValue));
    assert_eq!(MidiMessage::from_bytes(&vec![0xF8]), Err(MidiError::UnsupportedMessage));
}

#[test]
fn triggers_start_idle() {
    let trigger = Trigger::new(vec![
        TriggerBinding::MidiTrigger { channel: 0, note: 36 },
        TriggerBinding::KeyboardTrigger,
    ]);
    assert!(!trigger.triggered);
    assert!(!trigger.just_triggered);
    assert_eq!(trigger.bindings.len(), 2);
    let value = ValueBinding::MidiValue { channel: 0, control: 7 };
    assert_eq!(value, ValueBinding::MidiValue { channel: 0, control: 7 });
}
