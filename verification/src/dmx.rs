//! DMX512 channel buffers and their Art-Net wire framing.

use vstd::prelude::*;

verus! {

/// One universe's worth of DMX channel values and how many of them
/// have been set.
pub struct Dmx512Buffer {
    bytes: Vec<u8>,
    length: usize,
}

impl Dmx512Buffer {
    /// The channel values.
    pub closed spec fn spec_bytes(self) -> Seq<u8> {
        self.bytes@
    }

    /// How many leading channels are in use.
    pub closed spec fn spec_length(self) -> int {
        self.length as int
    }

    /// A full universe of channels with a bounded fill mark.
    pub open spec fn wf(self) -> bool {
        &&& self.spec_bytes().len() == 512
        &&& 0 <= self.spec_length() <= 512
    }

    /// An empty buffer: every channel zero, none in use.
    pub fn new() -> (r: Dmx512Buffer)
        ensures
            r.wf(),
            r.spec_bytes() == Seq::new(512, |i: int| 0u8),
            r.spec_length() == 0,
    {
        let bytes: Vec<u8> = vec![0u8; 512];
        proof {
            assert(bytes@ =~= Seq::new(512, |i: int| 0u8));
        }
        Dmx512Buffer { bytes, length: 0 }
    }

    /// Zeroes every channel and the fill mark.
    pub fn clear(&mut self)
        ensures
            final (self).wf(),
            final (self).spec_bytes() == Seq::new(512, |i: int| 0u8),
            final (self).spec_length() == 0,
    {
        let bytes: Vec<u8> = vec![0u8; 512];
        proof {
            assert(bytes@ =~= Seq::new(512, |i: int| 0u8));
        }
        self.bytes = bytes;
        self.length = 0;
    }

    /// Sets one channel and advances the fill mark past it; channels
    /// past the universe are ignored.
    pub fn set_channel(&mut self, channel: u16, value: u8)
        requires
            old(self).wf(),
        ensures
            final (self).wf(),
            channel < 512 ==> final (self).spec_bytes() == old(self).spec_bytes().update(
                channel as int,
                value,
            ) && final (self).spec_length() == (if channel + 1 > old(self).spec_length() {
                channel + 1
            } else {
                old(self).spec_length()
            }),
            channel >= 512 ==> *final (self) == *old(self),
    {
        let channel: usize = channel as usize;
        if channel < 512 {
            self.bytes[channel] = value;
            if channel >= self.length {
                self.length = channel + 1;
            }
        }
    }

    /// The channels in use, first to the fill mark.
    pub fn active_data(&self) -> (r: Vec<u8>)
        requires
            self.wf(),
        ensures
            r@ == self.spec_bytes().take(self.spec_length()),
    {
        let mut out: Vec<u8> = Vec::new();
        let mut i: usize = 0;
        while i < self.length
            invariant
                self.wf(),
                0 <= i <= self.length,
                out@ =~= self.spec_bytes().take(i as int),
            decreases self.length - i,
        {
            out.push(self.bytes[i]);
            proof {
                assert(out@ =~= self.spec_bytes().take(i + 1));
            }
            i += 1;
        }
        proof {
            assert(out@ =~= self.spec_bytes().take(self.spec_length()));
        }
        out
    }
}

impl Default for Dmx512Buffer {
    /// An empty buffer.
    fn default() -> (r: Dmx512Buffer)
        ensures
            r.wf(),
            r.spec_bytes() == Seq::new(512, |i: int| 0u8),
            r.spec_length() == 0,
    {
        let bytes: Vec<u8> = vec![0u8; 512];
        proof {
            assert(bytes@ =~= Seq::new(512, |i: int| 0u8));
        }
        Dmx512Buffer { bytes, length: 0 }
    }
}

/// The error type of the Art-Net protocol crate.
#[verifier::external_type_specification]
#[verifier::external_body]
pub struct ExArtnetError(artnet_protocol::Error);

/// The Art-Net wire bytes of one ArtDmx output packet: the protocol
/// header, the ArtDmx opcode in little-endian, protocol version
/// fourteen, sequencing disabled, physical port zero, the universe in
/// little-endian, the even-padded data length in big-endian, and the
/// channel data padded to an even length.
pub open spec fn artnet_dmx_frame_of(universe: int, data: Seq<u8>) -> Seq<u8> {
    let padded = if data.len() % 2 == 1 {
        data.push(0u8)
    } else {
        data
    };
    seq![
        0x41u8,
        0x72u8,
        0x74u8,
        0x2Du8,
        0x4Eu8,
        0x65u8,
        0x74u8,
        0x00u8,
        0x00u8,
        0x50u8,
        0x00u8,
        0x0Eu8,
        0x00u8,
        0x00u8,
        (universe % 256) as u8,
        (universe / 256) as u8,
        (padded.len() as int / 256) as u8,
        (padded.len() as int % 256) as u8,
    ] + padded
}

/// Relies on artnet_protocol::ArtCommand::write_to_buffer: the
/// Art-Net wire bytes of an ArtDmx output packet, a function of the
/// universe and channel data alone, and present whenever the data
/// holds at least one channel.
#[verifier::external_body]
fn encode_artnet_output(universe: u16, data: &Vec<u8>) -> (r: Result<
    Vec<u8>,
    artnet_protocol::Error,
>)
    requires
        universe <= 32767,
        data@.len() <= 512,
    ensures
        r matches Ok(bytes) ==> bytes@ == artnet_dmx_frame_of(universe as int, data@),
        data@.len() >= 1 ==> r is Ok,
{
    let port_address = match artnet_protocol::PortAddress::try_from(universe) {
        Ok(p) => p,
        Err(e) => return Err(e),
    };
    let output = artnet_protocol::Output {
        port_address,
        data: data.clone().into(),
        ..artnet_protocol::Output::default()
    };
    artnet_protocol::ArtCommand::Output(output).write_to_buffer()
}

/// Failure to frame a DMX buffer for the wire.
#[derive(Clone, Copy, Debug, PartialEq, Eq, Structural)]
pub enum DmxError {
    /// A universe beyond the 15-bit Art-Net port-address range.
    InvalidUniverse,
    /// The protocol crate refused to serialize the packet.
    EncodingFailed,
}

/// The Art-Net wire frame carrying a buffer's in-use channels for
/// `universe`.
pub fn artnet_output_frame(universe: u16, buffer: &Dmx512Buffer) -> (r: Result<Vec<u8>, DmxError>)
    requires
        buffer.wf(),
    ensures
        r matches Ok(bytes) ==> universe <= 32767 && bytes@ == artnet_dmx_frame_of(
            universe as int,
            buffer.spec_bytes().take(buffer.spec_length()),
        ),
        universe <= 32767 && buffer.spec_length() >= 1 ==> r is Ok,
        universe > 32767 ==> r == Result::<Vec<u8>, DmxError>::Err(DmxError::InvalidUniverse),
{
    if universe > 32767 {
        return Err(DmxError::InvalidUniverse);
    }
    let data: Vec<u8> = buffer.active_data();
    match encode_artnet_output(universe, &data) {
        Ok(bytes) => Ok(bytes),
        Err(_) => Err(DmxError::EncodingFailed),
    }
}

} // verus!
