//! Parsing of raw MIDI messages into the events the controller
//! bindings consume.

use vstd::prelude::*;

verus! {

/// A parsed MIDI channel message.
#[derive(Clone, Copy, Debug, PartialEq, Eq, Structural)]
pub enum MidiMessage {
    NoteOn { channel: u8, note: u8, velocity: u8 },
    NoteOff { channel: u8, note: u8, velocity: u8 },
    ControlChange { channel: u8, control: u8, value: u8 },
}

/// Why a byte string is not a supported MIDI channel message.
#[derive(Clone, Copy, Debug, PartialEq, Eq, Structural)]
pub enum MidiError {
    /// No bytes at all.
    EmptyMessage,
    /// A note message without its note byte.
    MissingNote,
    /// A note message without its velocity byte.
    MissingVelocity,
    /// A control change without its control byte.
    MissingControl,
    /// A control change without its value byte.
    MissingValue,
    /// A status this engine does not consume.
    UnsupportedMessage,
}

/// What a byte string parses to: the status nibble selects the
/// message kind, the low nibble the channel, and the following bytes
/// the payload.
pub open spec fn spec_midi_from_bytes(s: Seq<u8>) -> Result<MidiMessage, MidiError> {
    if s.len() == 0 {
        Err(MidiError::EmptyMessage)
    } else {
        let kind = (s[0] & 0xF0u8) >> 4u8;
        let channel = s[0] & 0x0Fu8;
        if kind == 8 {
            if s.len() < 2 {
                Err(MidiError::MissingNote)
            } else if s.len() < 3 {
                Err(MidiError::MissingVelocity)
            } else {
                Ok(MidiMessage::NoteOff { channel, note: s[1], velocity: s[2] })
            }
        } else if kind == 9 {
            if s.len() < 2 {
                Err(MidiError::MissingNote)
            } else if s.len() < 3 {
                Err(MidiError::MissingVelocity)
            } else {
                Ok(MidiMessage::NoteOn { channel, note: s[1], velocity: s[2] })
            }
        } else if kind == 11 {
            if s.len() < 2 {
                Err(MidiError::MissingControl)
            } else if s.len() < 3 {
                Err(MidiError::MissingValue)
            } else {
                Ok(MidiMessage::ControlChange { channel, control: s[1], value: s[2] })
            }
        } else {
            Err(MidiError::UnsupportedMessage)
        }
    }
}

impl MidiMessage {
    /// Parses one raw MIDI message.
    pub fn from_bytes(bytes: &Vec<u8>) -> (r: Result<MidiMessage, MidiError>)
        ensures
            r == spec_midi_from_bytes(bytes@),
    {
        if bytes.len() == 0 {
            return Err(MidiError::EmptyMessage);
        }
        let first_byte: u8 = bytes[0];
        let first_four_bits: u8 = (first_byte & 0xF0u8) >> 4u8;
        let channel: u8 = first_byte & 0x0Fu8;
        if first_four_bits == 0x8 {
            if bytes.len() < 2 {
                Err(MidiError::MissingNote)
            } else if bytes.len() < 3 {
                Err(MidiError::MissingVelocity)
            } else {
                Ok(MidiMessage::NoteOff { channel, note: bytes[1], velocity: bytes[2] })
            }
        } else if first_four_bits == 0x9 {
            if bytes.len() < 2 {
                Err(MidiError::MissingNote)
            } else if bytes.len() < 3 {
                Err(MidiError::MissingVelocity)
            } else {
                Ok(MidiMessage::NoteOn { channel, note: bytes[1], velocity: bytes[2] })
            }
        } else if first_four_bits == 0xB {
            if bytes.len() < 2 {
                Err(MidiError::MissingControl)
            } else if bytes.len() < 3 {
                Err(MidiError::MissingValue)
            } else {
                Ok(MidiMessage::ControlChange { channel, control: bytes[1], value: bytes[2] })
            }
        } else {
            Err(MidiError::UnsupportedMessage)
        }
    }
}

} // verus!
