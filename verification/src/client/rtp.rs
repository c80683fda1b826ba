//! RTP packets: reading their headers, and the packets as the codecs see
//! them, in order, with their position on the stream's clock and the number
//! of packets lost before them.

use crate::context::PacketContext;
use crate::error::{Error, ErrorKind};
use crate::payload::{bytes_as_slice, bytes_content, bytes_slice};
use crate::timestamp::Timestamp;
use vstd::prelude::*;
use vstd::string::StringExecFns;

verus! {

/// The length of the fixed part of an RTP header.
pub const FIXED_HEADER_LEN: usize = 12;

/// A received RTP packet.
#[derive(Debug)]
pub struct Packet {
    /// Where the packet came from.
    pub ctx: PacketContext,
    /// The index of the stream within its session.
    pub stream_id: usize,
    /// The packet's position on the stream's clock, top bits included.
    pub timestamp: Timestamp,
    /// The synchronization source.
    pub ssrc: u32,
    /// The sequence number as in the packet's header.
    pub sequence_number: u16,
    /// Number of skipped sequence numbers since the last packet.
    pub loss: u16,
    /// The header's mark bit.
    pub mark: bool,
    /// The payload, without header or padding.
    pub payload: bytes::Bytes,
}

/// What is wrong with the header of an RTP packet.
#[derive(Copy, Clone, Debug, PartialEq, Eq, Structural)]
pub enum HeaderFault {
    /// The packet is shorter than the fixed part of the header.
    TooShort,
    /// The version is not 2.
    BadVersion,
    /// The list of contributing sources goes beyond the packet.
    CsrcOverrun,
    /// The header extension goes beyond the packet.
    ExtensionOverrun,
    /// The padding is empty or goes beyond what follows the header.
    BadPadding,
}

/// What the header of an RTP packet says, and where the payload lies.
#[derive(Copy, Clone, Debug, PartialEq, Eq, Structural)]
pub struct Layout {
    /// The payload type.
    pub payload_type: u8,
    /// The mark bit.
    pub mark: bool,
    /// The sequence number.
    pub sequence_number: u16,
    /// The timestamp.
    pub timestamp: u32,
    /// The synchronization source.
    pub ssrc: u32,
    /// The index of the first byte of the payload.
    pub payload_start: usize,
    /// The index after the last byte of the payload.
    pub payload_end: usize,
}

/// The number that two bytes spell, the most significant first.
pub open spec fn be16(b0: u8, b1: u8) -> int {
    b0 * 0x100 + b1
}

/// The number that four bytes spell, the most significant first.
pub open spec fn be32(b0: u8, b1: u8, b2: u8, b3: u8) -> int {
    b0 * 0x100_0000 + b1 * 0x1_0000 + b2 * 0x100 + b3
}

/// The index after the list of contributing sources: the fixed header and
/// four bytes for each source that the first byte counts.
pub open spec fn spec_csrc_end(b: Seq<u8>) -> int {
    FIXED_HEADER_LEN + 4 * (b[0] % 16)
}

/// Whether the first byte announces a header extension.
pub open spec fn spec_has_extension(b: Seq<u8>) -> bool {
    (b[0] / 16) % 2 == 1
}

/// Whether the first byte announces padding.
pub open spec fn spec_has_padding(b: Seq<u8>) -> bool {
    (b[0] / 32) % 2 == 1
}

/// The index after the header extension, if there is one: four bytes, of
/// which the last two give the length of the rest in words of four bytes,
/// and the rest.
pub open spec fn spec_extension_end(b: Seq<u8>) -> int {
    let at = spec_csrc_end(b);
    if spec_has_extension(b) {
        at + 4 + 4 * be16(b[at + 2], b[at + 3])
    } else {
        at
    }
}

/// What the header of the packet `b` says, or what is wrong with it.
pub open spec fn spec_layout(b: Seq<u8>) -> Result<Layout, HeaderFault> {
    if b.len() < FIXED_HEADER_LEN {
        Err(HeaderFault::TooShort)
    } else if b[0] / 64 != 2 {
        Err(HeaderFault::BadVersion)
    } else if spec_csrc_end(b) > b.len() {
        Err(HeaderFault::CsrcOverrun)
    } else if spec_has_extension(b) && spec_csrc_end(b) + 4 > b.len() {
        Err(HeaderFault::ExtensionOverrun)
    } else if spec_extension_end(b) > b.len() {
        Err(HeaderFault::ExtensionOverrun)
    } else if spec_has_padding(b) && (b.last() == 0 || spec_extension_end(b) + b.last()
        > b.len()) {
        Err(HeaderFault::BadPadding)
    } else {
        Ok(
            Layout {
                payload_type: b[1] % 128,
                mark: b[1] / 128 == 1,
                sequence_number: be16(b[2], b[3]) as u16,
                timestamp: be32(b[4], b[5], b[6], b[7]) as u32,
                ssrc: be32(b[8], b[9], b[10], b[11]) as u32,
                payload_start: spec_extension_end(b) as usize,
                payload_end: if spec_has_padding(b) {
                    (b.len() - b.last()) as usize
                } else {
                    b.len() as usize
                },
            },
        )
    }
}

/// What is said of each fault.
pub open spec fn spec_fault_text(fault: HeaderFault) -> Seq<char> {
    match fault {
        HeaderFault::TooShort => "RTP packet is shorter than its header"@,
        HeaderFault::BadVersion => "RTP version is not 2"@,
        HeaderFault::CsrcOverrun => "RTP contributing sources overrun the packet"@,
        HeaderFault::ExtensionOverrun => "RTP header extension overruns the packet"@,
        HeaderFault::BadPadding => "RTP padding is empty or overruns the payload"@,
    }
}

impl HeaderFault {
    /// What is said of the fault.
    pub fn description(self) -> (r: &'static str)
        ensures
            r@ == spec_fault_text(self),
    {
        match self {
            HeaderFault::TooShort => "RTP packet is shorter than its header",
            HeaderFault::BadVersion => "RTP version is not 2",
            HeaderFault::CsrcOverrun => "RTP contributing sources overrun the packet",
            HeaderFault::ExtensionOverrun => "RTP header extension overruns the packet",
            HeaderFault::BadPadding => "RTP padding is empty or overruns the payload",
        }
    }
}

/// Reads the number that two bytes spell, the most significant first.
pub fn read_be16(data: &[u8], at: usize) -> (r: u16)
    requires
        at + 2 <= data@.len(),
    ensures
        r == be16(data@[at as int], data@[at + 1]),
{
    (data[at] as u16) * 0x100 + (data[at + 1] as u16)
}

/// Reads the number that four bytes spell, the most significant first.
pub fn read_be32(data: &[u8], at: usize) -> (r: u32)
    requires
        at + 4 <= data@.len(),
    ensures
        r == be32(data@[at as int], data@[at + 1], data@[at + 2], data@[at + 3]),
{
    (data[at] as u32) * 0x100_0000 + (data[at + 1] as u32) * 0x1_0000 + (data[at + 2] as u32)
        * 0x100 + (data[at + 3] as u32)
}

/// Reads the header of an RTP packet and finds its payload.
pub fn layout(data: &[u8]) -> (r: Result<Layout, HeaderFault>)
    ensures
        r == spec_layout(data@),
        r matches Ok(l) ==> FIXED_HEADER_LEN <= l.payload_start <= l.payload_end <= data@.len(),
{
    let len: usize = data.len();
    if len < FIXED_HEADER_LEN {
        return Err(HeaderFault::TooShort);
    }
    let first: u8 = data[0];
    if first / 64 != 2 {
        return Err(HeaderFault::BadVersion);
    }
    let csrc_end: usize = FIXED_HEADER_LEN + 4 * ((first % 16) as usize);
    if csrc_end > len {
        return Err(HeaderFault::CsrcOverrun);
    }
    let has_extension: bool = (first / 16) % 2 == 1;
    let mut extension_end: usize = csrc_end;
    if has_extension {
        if len - csrc_end < 4 {
            return Err(HeaderFault::ExtensionOverrun);
        }
        let words: u16 = read_be16(data, csrc_end + 2);
        let rest: usize = 4 * (words as usize);
        if rest > len - csrc_end - 4 {
            return Err(HeaderFault::ExtensionOverrun);
        }
        extension_end = csrc_end + 4 + rest;
    }
    let has_padding: bool = (first / 32) % 2 == 1;
    let mut payload_end: usize = len;
    if has_padding {
        let padding: usize = data[len - 1] as usize;
        if padding == 0 || padding > len - extension_end {
            return Err(HeaderFault::BadPadding);
        }
        payload_end = len - padding;
    }
    Ok(
        Layout {
            payload_type: data[1] % 128,
            mark: data[1] / 128 == 1,
            sequence_number: read_be16(data, 2),
            timestamp: read_be32(data, 4),
            ssrc: read_be32(data, 8),
            payload_start: extension_end,
            payload_end,
        },
    )
}

/// An RTP packet as it arrives: read, but not yet put in its place in the
/// stream.
#[derive(Debug)]
pub struct RawPacket {
    /// Where the packet came from.
    pub ctx: PacketContext,
    /// The payload type.
    pub payload_type: u8,
    /// The header's mark bit.
    pub mark: bool,
    /// The sequence number as in the packet's header.
    pub sequence_number: u16,
    /// The timestamp as in the packet's header.
    pub timestamp: u32,
    /// The synchronization source.
    pub ssrc: u32,
    /// The payload, without header or padding.
    pub payload: bytes::Bytes,
}

impl RawPacket {
    /// Whether `self` is the packet that `data` holds by the `layout` of
    /// its header, received in the context `ctx`.
    pub open spec fn is_packet_of(self, ctx: PacketContext, data: Seq<u8>, layout: Layout) -> bool {
        &&& self.ctx == ctx
        &&& self.payload_type == layout.payload_type
        &&& self.mark == layout.mark
        &&& self.sequence_number == layout.sequence_number
        &&& self.timestamp == layout.timestamp
        &&& self.ssrc == layout.ssrc
        &&& bytes_content(self.payload) == data.subrange(
            layout.payload_start as int,
            layout.payload_end as int,
        )
    }

    /// Reads the packet that `data` holds. A packet whose header is at
    /// fault is malformed.
    pub fn parse(ctx: PacketContext, data: &bytes::Bytes) -> (r: Result<RawPacket, Error>)
        ensures
            match spec_layout(bytes_content(*data)) {
                Ok(layout) => r matches Ok(pkt) && pkt.is_packet_of(
                    ctx,
                    bytes_content(*data),
                    layout,
                ),
                Err(fault) => r matches Err(e) && e@.kind == ErrorKind::RtpMalformed
                    && e@.description@ == spec_fault_text(fault) && e@.pkt_ctx == Some(ctx),
            },
    {
        match layout(bytes_as_slice(data)) {
            Ok(l) => Ok(
                RawPacket {
                    ctx,
                    payload_type: l.payload_type,
                    mark: l.mark,
                    sequence_number: l.sequence_number,
                    timestamp: l.timestamp,
                    ssrc: l.ssrc,
                    payload: bytes_slice(data, l.payload_start, l.payload_end),
                },
            ),
            Err(fault) => Err(
                Error::in_packet(
                    ErrorKind::RtpMalformed,
                    String::from_str(fault.description()),
                    ctx,
                ),
            ),
        }
    }
}

} // verus!
