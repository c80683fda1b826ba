//! Codec-specific logic: turning the RTP packets of a stream into frames.

use crate::client::rtp::Packet;
use crate::context::PacketContext;
use crate::error::{Error, ErrorKind};
use crate::payload::bytes_content;
use crate::timestamp::{NtpTimestamp, Timestamp};
use vstd::prelude::*;

pub mod simple_audio;

verus! {

/// Parameters which describe an audio stream.
#[derive(Debug)]
pub struct AudioParameters {
    /// The codec's name in the form of RFC 6381, where it has one.
    pub rfc6381_codec: Option<String>,
    /// The length of each frame in clock ticks, where all frames have the
    /// same length.
    pub frame_length: Option<u32>,
    /// Ticks per second.
    pub clock_rate: u32,
    /// Codec-specific configuration.
    pub extra_data: bytes::Bytes,
    /// A ready-made sample entry for an `.mp4` file, where there is one.
    pub sample_entry: Option<Vec<u8>>,
}

/// Parameters which describe a stream.
#[derive(Debug)]
pub enum Parameters {
    Audio(AudioParameters),
}

/// A single frame of audio: the payload of one packet.
#[derive(Debug)]
pub struct AudioFrame {
    /// Where the packet came from.
    pub ctx: PacketContext,
    /// The index of the stream within its session.
    pub stream_id: usize,
    /// The frame's position on the stream's clock.
    pub timestamp: Timestamp,
    /// The length of the frame in clock ticks: the number of samples.
    pub frame_length: u32,
    /// Number of lost RTP packets before this audio frame.
    pub loss: u16,
    /// The samples.
    pub data: bytes::Bytes,
}

/// What a sender report says of a stream's clock: a moment in wallclock
/// time, and the same moment on the stream's clock.
#[derive(Copy, Clone, Debug)]
pub struct SenderReport {
    /// The index of the stream within its session.
    pub stream_id: usize,
    /// Where the report came from.
    pub ctx: PacketContext,
    /// The moment on the stream's clock.
    pub timestamp: Timestamp,
    /// The moment in wallclock time.
    pub ntp_timestamp: NtpTimestamp,
}

/// An item yielded from a stream, after depacketization.
#[derive(Debug)]
pub enum CodecItem {
    AudioFrame(AudioFrame),
    SenderReport(SenderReport),
}

/// The state of a [`Depacketizer`]: that of the depacketizer of its codec.
pub enum DepacketizerModel {
    SimpleAudio(simple_audio::DepacketizerModel),
}

impl DepacketizerModel {
    /// Whether an item waits to be pulled.
    pub open spec fn has_pending(self) -> bool {
        match self {
            DepacketizerModel::SimpleAudio(m) => m.pending is Some,
        }
    }

    /// Whether the codec can take packets at all, with the parameters that
    /// it was made with.
    pub open spec fn takes_packets(self) -> bool {
        match self {
            DepacketizerModel::SimpleAudio(m) => m.takes_packets(),
        }
    }

    /// The state after the packet `pkt` has been pushed, and whether the
    /// packet was taken or what is said against it.
    pub open spec fn spec_push(self, pkt: Packet) -> (DepacketizerModel, Result<(), Seq<char>>) {
        match self {
            DepacketizerModel::SimpleAudio(m) => match simple_audio::spec_packet_frame_length(
                bytes_content(pkt.payload).len() as int,
                m.bits_per_sample as int,
            ) {
                Some(n) => (
                    DepacketizerModel::SimpleAudio(
                        simple_audio::DepacketizerModel {
                            pending: Some(
                                AudioFrame {
                                    loss: pkt.loss,
                                    ctx: pkt.ctx,
                                    stream_id: pkt.stream_id,
                                    timestamp: pkt.timestamp,
                                    frame_length: n as u32,
                                    data: pkt.payload,
                                },
                            ),
                            ..m
                        },
                    ),
                    Ok(()),
                ),
                None => (
                    self,
                    Err(
                        simple_audio::spec_invalid_length_text(
                            bytes_content(pkt.payload).len(),
                            m.bits_per_sample as nat,
                        ),
                    ),
                ),
            },
        }
    }

    /// The state after a pull, and the item that is pulled.
    pub open spec fn spec_pull(self) -> (DepacketizerModel, Option<CodecItem>) {
        match self {
            DepacketizerModel::SimpleAudio(m) => (
                DepacketizerModel::SimpleAudio(
                    simple_audio::DepacketizerModel { pending: None, ..m },
                ),
                match m.pending {
                    Some(frame) => Some(CodecItem::AudioFrame(frame)),
                    None => None,
                },
            ),
        }
    }
}

/// Turns the RTP packets of a stream into frames, each codec in its way.
#[derive(Debug)]
pub enum Depacketizer {
    SimpleAudio(simple_audio::Depacketizer),
}

impl View for Depacketizer {
    type V = DepacketizerModel;

    open spec fn view(&self) -> DepacketizerModel {
        match self {
            Depacketizer::SimpleAudio(d) => DepacketizerModel::SimpleAudio(d@),
        }
    }
}

impl Depacketizer {
    /// A depacketizer for audio in samples of `bits_per_sample` bits each,
    /// on a clock of `clock_rate` ticks per second.
    pub fn simple_audio(clock_rate: u32, bits_per_sample: u32) -> (r: Depacketizer)
        ensures
            r@ == DepacketizerModel::SimpleAudio(
                simple_audio::DepacketizerModel { clock_rate, bits_per_sample, pending: None },
            ),
    {
        Depacketizer::SimpleAudio(simple_audio::Depacketizer::new(clock_rate, bits_per_sample))
    }

    /// The parameters of the stream, as far as they are known yet.
    pub fn parameters(&self) -> (r: Option<Parameters>)
        ensures
            match self@ {
                DepacketizerModel::SimpleAudio(m) => r matches Some(Parameters::Audio(p))
                    && p.rfc6381_codec is None && p.frame_length is None && p.clock_rate
                    == m.clock_rate && bytes_content(p.extra_data) == Seq::<u8>::empty()
                    && p.sample_entry is None,
            },
    {
        match self {
            Depacketizer::SimpleAudio(d) => d.parameters(),
        }
    }

    /// Takes one packet, which has to be the next of its stream. No item
    /// may wait to be pulled. A packet that the codec cannot take is
    /// malformed, and changes nothing.
    pub fn push(&mut self, pkt: Packet) -> (r: Result<(), Error>)
        requires
            old(self)@.takes_packets(),
            !old(self)@.has_pending(),
        ensures
            final(self)@ == old(self)@.spec_push(pkt).0,
            final(self)@.takes_packets(),
            match old(self)@.spec_push(pkt).1 {
                Ok(_) => r is Ok,
                Err(text) => r matches Err(e) && e@.kind == ErrorKind::RtpMalformed
                    && e@.description@ == text && e@.pkt_ctx == Some(pkt.ctx) && e@.msg_ctx
                    is None,
            },
    {
        let ctx = pkt.ctx;
        match self {
            Depacketizer::SimpleAudio(d) => match d.push(pkt) {
                Ok(()) => Ok(()),
                Err(description) => Err(
                    Error::in_packet(ErrorKind::RtpMalformed, description, ctx),
                ),
            },
        }
    }

    /// Hands out the item that waits, if there is one.
    pub fn pull(&mut self) -> (r: Option<CodecItem>)
        ensures
            (final(self)@, r) == old(self)@.spec_pull(),
            !final(self)@.has_pending(),
            final(self)@.takes_packets() == old(self)@.takes_packets(),
    {
        match self {
            Depacketizer::SimpleAudio(d) => d.pull(),
        }
    }
}

} // verus!
