//! Fixed-size audio sample codecs as defined in
//! [RFC 3551 section 4.5](https://datatracker.ietf.org/doc/html/rfc3551#section-4.5).

use super::{AudioFrame, AudioParameters, CodecItem, Parameters};
use crate::client::rtp::Packet;
use crate::payload::bytes_content;
use crate::text::{decimal, push_decimal};
use vstd::prelude::*;
use vstd::string::StringExecFns;

verus! {

/// The longest payload that is taken, and one byte more.
pub const PAYLOAD_LEN_LIMIT: usize = 65_535;

/// The number of samples in a payload of `payload_len` bytes, where each
/// sample takes `bits_per_sample` bits: none where the payload does not hold
/// a whole number of samples.
pub open spec fn spec_frame_length(payload_len: int, bits_per_sample: int) -> Option<int> {
    if (payload_len * 8) % bits_per_sample != 0 {
        None
    } else {
        Some((payload_len * 8) / bits_per_sample)
    }
}

/// The frame length that a packet is given: that of its payload, unless the
/// payload is too long to be taken.
pub open spec fn spec_packet_frame_length(payload_len: int, bits_per_sample: int) -> Option<int> {
    if payload_len >= PAYLOAD_LEN_LIMIT {
        None
    } else {
        spec_frame_length(payload_len, bits_per_sample)
    }
}

/// What is said of a payload that holds no whole number of samples, or is
/// too long.
pub open spec fn spec_invalid_length_text(payload_len: nat, bits_per_sample: nat) -> Seq<char> {
    "invalid length "@ + decimal(payload_len) + " for payload of "@ + decimal(bits_per_sample)
        + "-bit audio samples"@
}

/// The state of a [`Depacketizer`]: its two parameters and the frame that
/// waits to be pulled.
pub struct DepacketizerModel {
    pub clock_rate: u32,
    pub bits_per_sample: u32,
    pub pending: Option<AudioFrame>,
}

impl DepacketizerModel {
    /// Whether packets can be taken: a sample has at least one bit.
    pub open spec fn takes_packets(self) -> bool {
        self.bits_per_sample > 0
    }
}

/// Turns each packet of fixed-size samples into one audio frame.
#[derive(Debug)]
pub struct Depacketizer {
    clock_rate: u32,
    pending: Option<AudioFrame>,
    bits_per_sample: u32,
}

impl View for Depacketizer {
    type V = DepacketizerModel;

    closed spec fn view(&self) -> DepacketizerModel {
        DepacketizerModel {
            clock_rate: self.clock_rate,
            bits_per_sample: self.bits_per_sample,
            pending: self.pending,
        }
    }
}

impl Depacketizer {
    /// Creates a new Depacketizer for samples of `bits_per_sample` bits each,
    /// on a clock of `clock_rate` ticks per second. Any width is taken here;
    /// packets can be pushed only where it is not zero.
    pub fn new(clock_rate: u32, bits_per_sample: u32) -> (r: Depacketizer)
        ensures
            r@ == (DepacketizerModel { clock_rate, bits_per_sample, pending: None }),
    {
        Depacketizer { clock_rate, bits_per_sample, pending: None }
    }

    /// The parameters of the stream. They are known from the start, and the
    /// frame length is left open: it varies with the packets.
    pub fn parameters(&self) -> (r: Option<Parameters>)
        ensures
            r matches Some(Parameters::Audio(p)) && p.rfc6381_codec is None && p.frame_length
                is None && p.clock_rate == self@.clock_rate && bytes_content(p.extra_data)
                == Seq::<u8>::empty() && p.sample_entry is None,
    {
        Some(
            Parameters::Audio(
                AudioParameters {
                    rfc6381_codec: None,
                    frame_length: None,  // variable
                    clock_rate: self.clock_rate,
                    extra_data: bytes::Bytes::new(),
                    sample_entry: None,
                },
            ),
        )
    }

    /// The number of samples in a payload of `payload_len` bytes.
    pub fn frame_length(&self, payload_len: usize) -> (r: Option<u32>)
        requires
            self@.takes_packets(),
            payload_len < PAYLOAD_LEN_LIMIT,
        ensures
            match spec_frame_length(payload_len as int, self@.bits_per_sample as int) {
                Some(n) => r == Some(n as u32) && n <= u32::MAX,
                None => r is None,
            },
    {
        // This calculation could be strength-reduced but it's just once per frame anyway.
        // Let's do it in a straightforward way.
        let bits_per_sample: u32 = self.bits_per_sample;
        let bits: u32 = (payload_len as u32) * 8;
        if bits % bits_per_sample != 0 {
            None
        } else {
            Some(bits / bits_per_sample)
        }
    }

    /// Takes one packet and makes its payload the waiting frame. The packet
    /// is refused, and nothing changes, where its payload holds no whole
    /// number of samples or has 65535 bytes or more.
    pub fn push(&mut self, pkt: Packet) -> (r: Result<(), String>)
        requires
            old(self)@.takes_packets(),
            old(self)@.pending is None,
        ensures
            final(self)@.clock_rate == old(self)@.clock_rate,
            final(self)@.bits_per_sample == old(self)@.bits_per_sample,
            match spec_packet_frame_length(
                bytes_content(pkt.payload).len() as int,
                old(self)@.bits_per_sample as int,
            ) {
                Some(n) => r is Ok && n <= u32::MAX && final(self)@.pending == Some(
                    AudioFrame {
                        loss: pkt.loss,
                        ctx: pkt.ctx,
                        stream_id: pkt.stream_id,
                        timestamp: pkt.timestamp,
                        frame_length: n as u32,
                        data: pkt.payload,
                    },
                ),
                None => r matches Err(text) && final(self)@.pending is None && text@
                    == spec_invalid_length_text(
                    bytes_content(pkt.payload).len(),
                    old(self)@.bits_per_sample as nat,
                ),
            },
    {
        let payload_len: usize = pkt.payload.len();
        let frame_length: Option<u32> = if payload_len >= PAYLOAD_LEN_LIMIT {
            None
        } else {
            self.frame_length(payload_len)
        };
        match frame_length {
            Some(frame_length) => {
                self.pending = Some(
                    AudioFrame {
                        loss: pkt.loss,
                        ctx: pkt.ctx,
                        stream_id: pkt.stream_id,
                        timestamp: pkt.timestamp,
                        frame_length,
                        data: pkt.payload,
                    },
                );
                Ok(())
            },
            None => Err(invalid_length_text(payload_len, self.bits_per_sample)),
        }
    }

    /// Hands out the waiting frame, if there is one.
    pub fn pull(&mut self) -> (r: Option<CodecItem>)
        ensures
            final(self)@.clock_rate == old(self)@.clock_rate,
            final(self)@.bits_per_sample == old(self)@.bits_per_sample,
            final(self)@.pending is None,
            match old(self)@.pending {
                Some(frame) => r == Some(CodecItem::AudioFrame(frame)),
                None => r is None,
            },
    {
        match self.pending.take() {
            Some(frame) => Some(CodecItem::AudioFrame(frame)),
            None => None,
        }
    }
}

/// Says that a payload of `payload_len` bytes cannot be taken as samples of
/// `bits_per_sample` bits.
pub fn invalid_length_text(payload_len: usize, bits_per_sample: u32) -> (r: String)
    ensures
        r@ == spec_invalid_length_text(payload_len as nat, bits_per_sample as nat),
{
    let mut out = String::from_str("invalid length ");
    push_decimal(&mut out, payload_len as u64);
    out.append(" for payload of ");
    push_decimal(&mut out, bits_per_sample as u64);
    out.append("-bit audio samples");
    assert(out@ =~= spec_invalid_length_text(payload_len as nat, bits_per_sample as nat));
    out
}

/// A payload of fewer than 65535 bytes is taken exactly when its bits are a
/// whole number of samples, and its frame then has that many samples.
pub proof fn lemma_frame_length_exact(payload_len: nat, bits_per_sample: nat)
    requires
        payload_len < PAYLOAD_LEN_LIMIT,
        bits_per_sample > 0,
    ensures
        spec_packet_frame_length(payload_len as int, bits_per_sample as int) is Some <==> (8
            * payload_len) % bits_per_sample == 0,
        spec_packet_frame_length(payload_len as int, bits_per_sample as int) matches Some(n)
            ==> n == (8 * payload_len) / bits_per_sample && n * bits_per_sample == 8
            * payload_len && 0 <= n <= 8 * payload_len,
{
    let bits: int = 8 * (payload_len as int);
    let b: int = bits_per_sample as int;
    if bits % b == 0 {
        vstd::arithmetic::div_mod::lemma_fundamental_div_mod(bits, b);
        assert((bits / b) * b == bits) by (nonlinear_arith)
            requires
                bits == b * (bits / b) + bits % b,
                bits % b == 0,
        ;
        assert(0 <= bits / b <= bits) by (nonlinear_arith)
            requires
                (bits / b) * b == bits,
                b >= 1,
                bits >= 0,
        ;
    }
}

} // verus!
