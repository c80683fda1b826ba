//! RTCP: reading the sender reports of a server, and writing the receiver
//! reports that answer them.

use crate::chance::draw;
use crate::client::rtp::{be16, be32, read_be16, read_be32};
use crate::timestamp::NtpTimestamp;
use vstd::prelude::*;

verus! {

/// The packet type of a sender report.
pub const PT_SENDER_REPORT: u8 = 200;

/// The packet type of a receiver report.
pub const PT_RECEIVER_REPORT: u8 = 201;

/// The length of a sender report without reception report blocks.
pub const SENDER_REPORT_LEN: usize = 28;

/// The length of a receiver report with one reception report block.
pub const RECEIVER_REPORT_LEN: usize = 32;

/// What a sender report says of the sender's clocks: a moment in wallclock
/// time, and the RTP timestamp of the same moment.
#[derive(Copy, Clone, Debug, PartialEq, Eq)]
pub struct SenderInfo {
    /// The synchronization source of the sender.
    pub ssrc: u32,
    /// The moment in wallclock time.
    pub ntp_timestamp: NtpTimestamp,
    /// The RTP timestamp of the same moment.
    pub rtp_timestamp: u32,
}

/// The length of the RTCP packet at the start of `b`, header included: four
/// bytes for each word that the header counts and for the header itself.
/// There is none where the header is cut short, the version is not 2 or the
/// packet goes beyond `b`.
pub open spec fn spec_packet_len(b: Seq<u8>) -> Option<int> {
    if b.len() >= 4 && b[0] / 64 == 2 && 4 * (be16(b[2], b[3]) + 1) <= b.len() {
        Some(4 * (be16(b[2], b[3]) + 1))
    } else {
        None
    }
}

/// What the sender report at the start of `b` says.
pub open spec fn spec_sender_info(b: Seq<u8>) -> SenderInfo {
    SenderInfo {
        ssrc: be32(b[4], b[5], b[6], b[7]) as u32,
        ntp_timestamp: NtpTimestamp(
            (be32(b[8], b[9], b[10], b[11]) * 0x1_0000_0000 + be32(b[12], b[13], b[14], b[15]))
                as u64,
        ),
        rtp_timestamp: be32(b[16], b[17], b[18], b[19]) as u32,
    }
}

/// What the first sender report of the compound packet `b` says, if one is
/// reached by going from packet to packet, and it is long enough.
pub open spec fn spec_sender_report(b: Seq<u8>) -> Option<SenderInfo>
    decreases b.len(),
{
    match spec_packet_len(b) {
        None => None,
        Some(len) => if b[1] == PT_SENDER_REPORT {
            if len >= SENDER_REPORT_LEN {
                Some(spec_sender_info(b))
            } else {
                None
            }
        } else {
            spec_sender_report(b.skip(len))
        },
    }
}

/// Finds the first sender report of a compound RTCP packet, and reads what
/// it says of the sender's clocks. A packet that is malformed before a
/// sender report is reached has none.
pub fn sender_report(buf: &[u8]) -> (r: Option<SenderInfo>)
    ensures
        r == spec_sender_report(buf@),
{
    let len: usize = buf.len();
    let mut at: usize = 0;
    proof {
        assert(buf@.skip(0) =~= buf@);
    }
    loop
        invariant
            0 <= at <= len == buf@.len(),
            spec_sender_report(buf@) == spec_sender_report(buf@.skip(at as int)),
        decreases len - at,
    {
        let ghost rest = buf@.skip(at as int);
        if len - at < 4 || buf[at] / 64 != 2 {
            return None;
        }
        let words: u16 = read_be16(buf, at + 2);
        let packet_len: usize = 4 * (words as usize + 1);
        if packet_len > len - at {
            return None;
        }
        proof {
            assert(rest[0] == buf@[at as int]);
            assert(rest[1] == buf@[at + 1]);
            assert(rest[2] == buf@[at + 2]);
            assert(rest[3] == buf@[at + 3]);
            assert(spec_packet_len(rest) == Some(packet_len as int));
        }
        if buf[at + 1] == PT_SENDER_REPORT {
            if packet_len < SENDER_REPORT_LEN {
                return None;
            }
            let ssrc: u32 = read_be32(buf, at + 4);
            let ntp_high: u32 = read_be32(buf, at + 8);
            let ntp_low: u32 = read_be32(buf, at + 12);
            let rtp_timestamp: u32 = read_be32(buf, at + 16);
            proof {
                assert forall|i: int| 0 <= i < 20 implies rest[i] == buf@[at + i] by {}
            }
            return Some(
                SenderInfo {
                    ssrc,
                    ntp_timestamp: NtpTimestamp(
                        (ntp_high as u64) * 0x1_0000_0000 + (ntp_low as u64),
                    ),
                    rtp_timestamp,
                },
            );
        }
        proof {
            assert(rest.skip(packet_len as int) =~= buf@.skip(at + packet_len));
        }
        at = at + packet_len;
    }
}

/// What a receiver has seen of one source.
#[derive(Copy, Clone, Debug, PartialEq, Eq, Structural)]
pub struct Reception {
    /// The highest extended sequence number that was handed on, if any
    /// was.
    pub highest_seq: Option<i64>,
    /// The number of packets that were lost, as far as it is known.
    pub cumulative_lost: u64,
    /// The estimate of the jitter, in sixteenths of a tick of the stream's
    /// clock.
    pub jitter_q4: u64,
    /// The transit time of the last packet that arrived, once one has: the
    /// difference between its time of arrival and its timestamp, in ticks
    /// of the stream's clock and modulo 2^32.
    pub last_transit: Option<u32>,
}

/// The time `now_ms`, which is in milliseconds, in ticks of a clock of
/// `clock_rate` ticks per second, modulo 2^32.
pub open spec fn spec_arrival_ticks(now_ms: u64, clock_rate: u32) -> u32 {
    ((now_ms * clock_rate / 1000) % 0x1_0000_0000) as u32
}

/// The transit time of a packet with the timestamp `timestamp` that arrives
/// at the time `now_ms`, modulo 2^32.
pub open spec fn spec_transit(now_ms: u64, clock_rate: u32, timestamp: u32) -> u32 {
    ((spec_arrival_ticks(now_ms, clock_rate) - timestamp) % 0x1_0000_0000) as u32
}

/// The distance between two transit times, which are known modulo 2^32
/// only: the shorter way round.
pub open spec fn spec_transit_distance(transit: u32, last: u32) -> int {
    let forth = (transit - last) % 0x1_0000_0000;
    if forth <= 0x8000_0000 {
        forth
    } else {
        0x1_0000_0000 - forth
    }
}

/// The estimate of the jitter after a packet whose transit time is `d`
/// ticks from that of the packet before it: it moves one sixteenth of the
/// way towards that distance. All is in sixteenths of a tick, and what is
/// cut off is rounded.
pub open spec fn spec_jitter_after(jitter_q4: int, d: int) -> int {
    jitter_q4 + d - (jitter_q4 + 8) / 16
}

impl Reception {
    /// What a receiver has seen before the first packet.
    pub open spec fn spec_new() -> Reception {
        Reception { highest_seq: None, cumulative_lost: 0, jitter_q4: 0, last_transit: None }
    }

    /// What a receiver has seen after one more packet has arrived, with
    /// the transit time `transit`. The first packet leaves the jitter as it
    /// is. An estimate that would leave its range stays at its end.
    pub open spec fn spec_arrived(self, transit: u32) -> Reception {
        Reception {
            jitter_q4: match self.last_transit {
                Some(last) => if spec_jitter_after(
                    self.jitter_q4 as int,
                    spec_transit_distance(transit, last),
                ) > u64::MAX {
                    u64::MAX
                } else {
                    spec_jitter_after(
                        self.jitter_q4 as int,
                        spec_transit_distance(transit, last),
                    ) as u64
                },
                None => self.jitter_q4,
            },
            last_transit: Some(transit),
            ..self
        }
    }

    /// What a receiver has seen after one more packet was handed on: the
    /// packet with the extended sequence number `seq`, before which `loss`
    /// packets were lost. A count that would leave its range stays at its
    /// end.
    pub open spec fn spec_delivered(self, seq: i64, loss: u16) -> Reception {
        Reception {
            highest_seq: match self.highest_seq {
                Some(highest) => if highest >= seq {
                    Some(highest)
                } else {
                    Some(seq)
                },
                None => Some(seq),
            },
            cumulative_lost: if self.cumulative_lost + loss > u64::MAX {
                u64::MAX
            } else {
                (self.cumulative_lost + loss) as u64
            },
            ..self
        }
    }

    /// What a receiver has seen before the first packet.
    pub fn new() -> (r: Reception)
        ensures
            r == Reception::spec_new(),
    {
        Reception { highest_seq: None, cumulative_lost: 0, jitter_q4: 0, last_transit: None }
    }

    /// Takes note of a packet that has arrived.
    pub fn arrived(&mut self, transit: u32)
        ensures
            *final(self) == old(self).spec_arrived(transit),
    {
        match self.last_transit {
            Some(last) => {
                let forth: u32 = transit.wrapping_sub(last);
                let d: u64 = if forth <= 0x8000_0000 {
                    forth as u64
                } else {
                    0x1_0000_0000 - (forth as u64)
                };
                let next: u128 = (self.jitter_q4 as u128) + (d as u128) - ((self.jitter_q4 as u128)
                    + 8) / 16;
                self.jitter_q4 = if next > u64::MAX as u128 {
                    u64::MAX
                } else {
                    next as u64
                };
            },
            None => {},
        }
        self.last_transit = Some(transit);
    }

    /// Takes note of a packet that was handed on.
    pub fn delivered(&mut self, seq: i64, loss: u16)
        ensures
            *final(self) == old(self).spec_delivered(seq, loss),
    {
        self.highest_seq = match self.highest_seq {
            Some(highest) => if highest >= seq {
                Some(highest)
            } else {
                Some(seq)
            },
            None => Some(seq),
        };
        self.cumulative_lost = self.cumulative_lost.saturating_add(loss as u64);
    }
}

/// The transit time of a packet with the timestamp `timestamp` that arrives
/// at the time `now_ms`.
pub fn transit(now_ms: u64, clock_rate: u32, timestamp: u32) -> (r: u32)
    ensures
        r == spec_transit(now_ms, clock_rate, timestamp),
{
    assert(now_ms * clock_rate <= 0xFFFF_FFFF_FFFF_FFFF * 0xFFFF_FFFF) by (nonlinear_arith)
        requires
            0 <= now_ms <= 0xFFFF_FFFF_FFFF_FFFF,
            0 <= clock_rate <= 0xFFFF_FFFF,
    ;
    let ticks: u128 = (now_ms as u128) * (clock_rate as u128) / 1000;
    let arrival: u32 = (ticks % 0x1_0000_0000) as u32;
    arrival.wrapping_sub(timestamp)
}

/// The four bytes of a number, the most significant first.
pub open spec fn spec_be32_bytes(value: u32) -> Seq<u8> {
    seq![
        (value / 0x100_0000) as u8,
        ((value / 0x1_0000) % 0x100) as u8,
        ((value / 0x100) % 0x100) as u8,
        (value % 0x100) as u8,
    ]
}

/// The number of lost packets as a receiver report holds it: in 24 bits.
pub open spec fn spec_lost_24(cumulative_lost: u64) -> u32 {
    if cumulative_lost > 0xFF_FFFF {
        0xFF_FFFF
    } else {
        cumulative_lost as u32
    }
}

/// The jitter as a receiver report holds it: in whole ticks and 32 bits.
pub open spec fn spec_jitter_32(jitter_q4: u64) -> u32 {
    if jitter_q4 / 16 > 0xFFFF_FFFF {
        0xFFFF_FFFF
    } else {
        (jitter_q4 / 16) as u32
    }
}

/// The highest sequence number as a receiver report holds it: its last 32
/// bits, or zero where no packet was handed on.
pub open spec fn spec_highest_32(highest_seq: Option<i64>) -> u32 {
    match highest_seq {
        Some(seq) => (seq % 0x1_0000_0000) as u32,
        None => 0,
    }
}

/// A receiver report of the receiver `ssrc` with one reception report
/// block, on the source `source_ssrc`:
///
/// - the header: version 2, one block, the packet type, and a length of
///   seven words after the first;
/// - the receiver;
/// - the source, no fraction lost, the number of lost packets, the highest
///   sequence number, the jitter, and no last sender report.
pub open spec fn spec_receiver_report(ssrc: u32, source_ssrc: u32, reception: Reception) -> Seq<u8> {
    seq![0x81u8, PT_RECEIVER_REPORT, 0u8, 7u8] + spec_be32_bytes(ssrc) + spec_be32_bytes(
        source_ssrc,
    ) + spec_be32_bytes(spec_lost_24(reception.cumulative_lost)) + spec_be32_bytes(
        spec_highest_32(reception.highest_seq),
    ) + spec_be32_bytes(spec_jitter_32(reception.jitter_q4)) + spec_be32_bytes(0)
        + spec_be32_bytes(0)
}

/// Appends the four bytes of a number to `out`, the most significant first.
pub fn push_be32(out: &mut Vec<u8>, value: u32)
    ensures
        final(out)@ == old(out)@ + spec_be32_bytes(value),
{
    out.push((value / 0x100_0000) as u8);
    out.push(((value / 0x1_0000) % 0x100) as u8);
    out.push(((value / 0x100) % 0x100) as u8);
    out.push((value % 0x100) as u8);
    assert(out@ =~= old(out)@ + spec_be32_bytes(value));
}

/// Writes a receiver report of the receiver `ssrc` on what it has seen of
/// the source `source_ssrc`.
pub fn receiver_report(ssrc: u32, source_ssrc: u32, reception: &Reception) -> (r: Vec<u8>)
    ensures
        r@ == spec_receiver_report(ssrc, source_ssrc, *reception),
        r@.len() == RECEIVER_REPORT_LEN,
{
    let mut out: Vec<u8> = Vec::new();
    out.push(0x81);
    out.push(PT_RECEIVER_REPORT);
    out.push(0);
    out.push(7);
    assert(out@ =~= seq![0x81u8, PT_RECEIVER_REPORT, 0u8, 7u8]);
    push_be32(&mut out, ssrc);
    push_be32(&mut out, source_ssrc);
    let lost: u32 = if reception.cumulative_lost > 0xFF_FFFF {
        0xFF_FFFF
    } else {
        reception.cumulative_lost as u32
    };
    push_be32(&mut out, lost);
    let highest: u32 = match reception.highest_seq {
        Some(seq) => {
            let low: i64 = seq & 0xFFFF_FFFF;
            assert(low == seq as int % 0x1_0000_0000 && 0 <= low <= 0xFFFF_FFFF) by {
                assert(seq & 0xFFFF_FFFF == seq as int % 0x1_0000_0000 && 0 <= seq & 0xFFFF_FFFF
                    <= 0xFFFF_FFFF) by (bit_vector);
            }
            low as u32
        },
        None => 0,
    };
    push_be32(&mut out, highest);
    let jitter: u32 = if reception.jitter_q4 / 16 > 0xFFFF_FFFF {
        0xFFFF_FFFF
    } else {
        (reception.jitter_q4 / 16) as u32
    };
    push_be32(&mut out, jitter);
    push_be32(&mut out, 0);
    push_be32(&mut out, 0);
    out
}

/// The shortest time between two receiver reports, in milliseconds.
pub const REPORT_DELAY_MIN_MS: u64 = 2_500;

/// The time by which the time between two receiver reports varies, in
/// milliseconds.
pub const REPORT_DELAY_SPREAD_MS: u64 = 5_000;

/// The time to wait before the next receiver report: five seconds, moved by
/// up to half of that to either side as `drawn` says, which is any number.
pub open spec fn spec_report_delay_ms(drawn: u32) -> u64 {
    (REPORT_DELAY_MIN_MS + (drawn as int) % (REPORT_DELAY_SPREAD_MS + 1)) as u64
}

/// The time to wait before the next receiver report.
pub fn report_delay_ms(drawn: u32) -> (r: u64)
    ensures
        r == spec_report_delay_ms(drawn),
        REPORT_DELAY_MIN_MS <= r <= REPORT_DELAY_MIN_MS + REPORT_DELAY_SPREAD_MS,
{
    REPORT_DELAY_MIN_MS + (drawn % (REPORT_DELAY_SPREAD_MS as u32 + 1)) as u64
}

/// The time to wait before the next receiver report, as chance has it:
/// between two and a half and seven and a half seconds.
pub fn next_report_delay_ms() -> (r: u64)
    ensures
        REPORT_DELAY_MIN_MS <= r <= REPORT_DELAY_MIN_MS + REPORT_DELAY_SPREAD_MS,
        exists|drawn: u32| r == #[trigger] spec_report_delay_ms(drawn),
{
    let drawn: u16 = draw(0, 5_001);
    let r = report_delay_ms(drawn as u32);
    assert(r == spec_report_delay_ms(drawn as u32));
    r
}

} // verus!
