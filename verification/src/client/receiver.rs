//! Receiving one stream: reading each RTP packet as it arrives, putting the
//! packets in order, and giving each its place on the stream's clock and
//! the number of packets lost before it.

use super::reorder::{
    lemma_flush_wf, lemma_push_wf, Delivery, ReorderBuffer, ReorderModel, SEQ_HALF_RANGE,
};
use super::rtp::{spec_fault_text, spec_layout, Layout, Packet, RawPacket};
use super::timeline::{Timeline, TimelineModel, TS_HALF_RANGE};
use crate::codec::SenderReport;
use crate::context::PacketContext;
use crate::error::{Error, ErrorKind};
use crate::payload::bytes_content;
use crate::rtcp::{sender_report, spec_sender_report, spec_transit, transit, Reception};
use crate::timestamp::TimestampModel;
use vstd::prelude::*;
use vstd::string::StringExecFns;

verus! {

/// The extended timestamp up to which a receiver takes packets.
pub const RECEIVER_TS_LIMIT: i64 = 0x4000_0000_0000_0000;

/// The state of a [`Receiver`].
pub struct ReceiverModel {
    /// The index of the stream within its session.
    pub stream_id: usize,
    /// The synchronization source of the stream, once it is known.
    pub ssrc: Option<u32>,
    /// The packets that wait for their turn.
    pub reorder: ReorderModel<RawPacket>,
    /// The stream's clock.
    pub timeline: TimelineModel,
    /// What has been seen of the stream, for receiver reports.
    pub reception: Reception,
}

/// What has been seen of a stream after the first `count` of the packets
/// `deliveries` have been handed on.
pub open spec fn spec_reception_after(
    reception: Reception,
    deliveries: Seq<Delivery<RawPacket>>,
    count: int,
) -> Reception
    decreases count,
{
    if count <= 0 {
        reception
    } else {
        spec_reception_after(reception, deliveries, count - 1).spec_delivered(
            deliveries[count - 1].seq,
            deliveries[count - 1].loss,
        )
    }
}

/// The timeline after the first `count` of the packets `deliveries` have
/// been placed on it.
pub open spec fn spec_timeline_after(
    timeline: TimelineModel,
    deliveries: Seq<Delivery<RawPacket>>,
    count: int,
) -> TimelineModel
    decreases count,
{
    if count <= 0 {
        timeline
    } else {
        spec_timeline_after(timeline, deliveries, count - 1).spec_advance(
            deliveries[count - 1].item.timestamp,
        ).0
    }
}

/// Whether `pkt` is the packet that is made of `delivery` for the stream
/// `stream_id` with the timestamp `stamp`: it has what the delivery has.
pub open spec fn is_packet_of_delivery(
    pkt: Packet,
    stream_id: usize,
    delivery: Delivery<RawPacket>,
    stamp: TimestampModel,
) -> bool {
    &&& pkt.ctx == delivery.item.ctx
    &&& pkt.stream_id == stream_id
    &&& pkt.timestamp@ == stamp
    &&& pkt.ssrc == delivery.item.ssrc
    &&& pkt.sequence_number == delivery.item.sequence_number
    &&& pkt.loss == delivery.loss
    &&& pkt.mark == delivery.item.mark
    &&& pkt.payload == delivery.item.payload
}

/// Whether `packets` are the packets that are made of `deliveries` for the
/// stream `stream_id`, one of each and in the same order, each with its
/// timestamp placed on the timeline after those before it.
pub open spec fn are_packets_of(
    packets: Seq<Packet>,
    stream_id: usize,
    timeline: TimelineModel,
    deliveries: Seq<Delivery<RawPacket>>,
) -> bool {
    &&& packets.len() == deliveries.len()
    &&& forall|i: int|
        0 <= i < packets.len() ==> is_packet_of_delivery(
            #[trigger] packets[i],
            stream_id,
            deliveries[i],
            spec_timeline_after(timeline, deliveries, i).spec_advance(
                deliveries[i].item.timestamp,
            ).1,
        )
}

/// Whether `e` says `text` of a malformed packet that was received in the
/// context `ctx`.
pub open spec fn spec_is_malformed(e: Error, text: Seq<char>, ctx: PacketContext) -> bool {
    e@.kind == ErrorKind::RtpMalformed && e@.description@ == text && e@.pkt_ctx == Some(ctx)
}

/// What is said of a packet from another source than the stream's.
pub open spec fn spec_wrong_ssrc_text() -> Seq<char> {
    "RTP packet is from another synchronization source"@
}

impl ReceiverModel {
    /// What holds of every receiver.
    pub open spec fn wf(self) -> bool {
        self.reorder.wf() && self.timeline.wf()
    }

    /// Whether the receiver can take another packet: neither its sequence
    /// numbers nor its timestamps are about to run out.
    pub open spec fn has_room(self) -> bool {
        self.reorder.has_room() && self.timeline.highest <= RECEIVER_TS_LIMIT
    }

    /// Whether a packet with the header `layout` belongs to the stream: it
    /// is from the stream's source, if that is known.
    pub open spec fn spec_accepts(self, layout: Layout) -> bool {
        self.ssrc is None || self.ssrc == Some(layout.ssrc)
    }

    /// Whether `after` and `packets` are the receiver and what it hands on
    /// once `deliveries` have left the reordering, which is then `reorder`,
    /// where `seen` is what had been seen of the stream before.
    pub open spec fn spec_handed_on(
        self,
        reorder: ReorderModel<RawPacket>,
        deliveries: Seq<Delivery<RawPacket>>,
        seen: Reception,
        after: ReceiverModel,
        packets: Seq<Packet>,
    ) -> bool {
        &&& after.stream_id == self.stream_id
        &&& after.reorder == reorder
        &&& after.reception == spec_reception_after(seen, deliveries, deliveries.len() as int)
        &&& after.timeline == spec_timeline_after(
            self.timeline,
            deliveries,
            deliveries.len() as int,
        )
        &&& are_packets_of(packets, self.stream_id, self.timeline, deliveries)
    }

    /// Whether `after` and `packets` are the receiver and what it hands on
    /// after the packet `raw` has arrived at the time `now_ms`.
    pub open spec fn spec_received(
        self,
        now_ms: u64,
        raw: RawPacket,
        after: ReceiverModel,
        packets: Seq<Packet>,
    ) -> bool {
        let (reorder, deliveries) = self.reorder.spec_push(now_ms, raw.sequence_number, raw);
        after.ssrc == Some(raw.ssrc) && self.spec_handed_on(
            reorder,
            deliveries,
            self.reception.spec_arrived(
                spec_transit(now_ms, self.timeline.clock_rate as u32, raw.timestamp),
            ),
            after,
            packets,
        )
    }

    /// Whether `after` and `r` are the receiver and what it answers after
    /// the packet that holds the bytes `data` has arrived at the time
    /// `now_ms` in the context `ctx`.
    ///
    /// A packet whose header is at fault, or which is from another source
    /// than the stream's, is malformed and changes nothing. Any other
    /// packet is read and put in its place, and its source is the stream's
    /// from then on.
    pub open spec fn spec_receive(
        self,
        now_ms: u64,
        ctx: PacketContext,
        data: Seq<u8>,
        after: ReceiverModel,
        r: Result<Vec<Packet>, Error>,
    ) -> bool {
        match spec_layout(data) {
            Ok(layout) => if self.spec_accepts(layout) {
                r is Ok && exists|raw: RawPacket|
                    raw.is_packet_of(ctx, data, layout) && #[trigger] self.spec_received(
                        now_ms,
                        raw,
                        after,
                        r->Ok_0@,
                    )
            } else {
                r is Err && after == self && spec_is_malformed(
                    r->Err_0,
                    spec_wrong_ssrc_text(),
                    ctx,
                )
            },
            Err(fault) => r is Err && after == self && spec_is_malformed(
                r->Err_0,
                spec_fault_text(fault),
                ctx,
            ),
        }
    }

    /// Whether `after` and `packets` are the receiver and what it hands on
    /// after the time `now_ms` has come.
    pub open spec fn spec_polled(self, now_ms: u64, after: ReceiverModel, packets: Seq<Packet>) -> bool {
        let (reorder, deliveries) = self.reorder.spec_poll(now_ms);
        after.ssrc == self.ssrc && self.spec_handed_on(
            reorder,
            deliveries,
            self.reception,
            after,
            packets,
        )
    }

    /// Whether `after` and `packets` are the receiver and what it hands on
    /// after it has stopped waiting.
    pub open spec fn spec_flushed(self, after: ReceiverModel, packets: Seq<Packet>) -> bool {
        let (reorder, deliveries) = self.reorder.spec_flush();
        after.ssrc == self.ssrc && self.spec_handed_on(
            reorder,
            deliveries,
            self.reception,
            after,
            packets,
        )
    }
}

/// Placing packets on a timeline moves it on by less than half the wire's
/// range for each, and leaves it as it should be.
pub proof fn lemma_timeline_after(
    timeline: TimelineModel,
    deliveries: Seq<Delivery<RawPacket>>,
    count: int,
)
    requires
        timeline.wf(),
        0 <= count,
    ensures
        spec_timeline_after(timeline, deliveries, count).wf() || spec_timeline_after(
            timeline,
            deliveries,
            count,
        ).highest > i64::MAX,
        spec_timeline_after(timeline, deliveries, count).clock_rate == timeline.clock_rate,
        spec_timeline_after(timeline, deliveries, count).start == timeline.start,
        timeline.highest <= spec_timeline_after(timeline, deliveries, count).highest
            <= timeline.highest + count * TS_HALF_RANGE,
    decreases count,
{
    if count > 0 {
        lemma_timeline_after(timeline, deliveries, count - 1);
        let before = spec_timeline_after(timeline, deliveries, count - 1);
        super::timeline::lemma_extend_timestamp(
            before.highest,
            deliveries[count - 1].item.timestamp as int,
        );
        assert((count - 1) * TS_HALF_RANGE + TS_HALF_RANGE == count * TS_HALF_RANGE)
            by (nonlinear_arith);
    }
}

/// Receives one stream.
pub struct Receiver {
    stream_id: usize,
    ssrc: Option<u32>,
    reorder: ReorderBuffer<RawPacket>,
    timeline: Timeline,
    reception: Reception,
}

impl View for Receiver {
    type V = ReceiverModel;

    closed spec fn view(&self) -> ReceiverModel {
        ReceiverModel {
            stream_id: self.stream_id,
            ssrc: self.ssrc,
            reorder: self.reorder@,
            timeline: self.timeline@,
            reception: self.reception,
        }
    }
}

/// Places the packets `deliveries` on the timeline one after the other, and
/// makes of each the packet that the codecs see.
#[verifier::rlimit(30)]
fn stamp_all(
    timeline: &mut Timeline,
    reception: &mut Reception,
    stream_id: usize,
    deliveries: Vec<Delivery<RawPacket>>,
) -> (packets: Vec<Packet>)
    requires
        old(timeline)@.wf(),
        old(timeline)@.highest <= RECEIVER_TS_LIMIT,
        deliveries@.len() <= SEQ_HALF_RANGE,
    ensures
        final(timeline)@.wf(),
        final(timeline)@ == spec_timeline_after(
            old(timeline)@,
            deliveries@,
            deliveries@.len() as int,
        ),
        *final(reception) == spec_reception_after(
            *old(reception),
            deliveries@,
            deliveries@.len() as int,
        ),
        are_packets_of(packets@, stream_id, old(timeline)@, deliveries@),
{
    let mut packets: Vec<Packet> = Vec::new();
    for delivery in it: deliveries
        invariant
            it.seq() == deliveries@,
            deliveries@.len() <= SEQ_HALF_RANGE,
            old(timeline)@.highest <= RECEIVER_TS_LIMIT,
            old(timeline)@.wf(),
            timeline@.wf(),
            timeline@ == spec_timeline_after(old(timeline)@, deliveries@, it.index() as int),
            *reception == spec_reception_after(*old(reception), deliveries@, it.index() as int),
            packets@.len() == it.index(),
            forall|i: int|
                0 <= i < it.index() ==> is_packet_of_delivery(
                    #[trigger] packets@[i],
                    stream_id,
                    deliveries@[i],
                    spec_timeline_after(old(timeline)@, deliveries@, i).spec_advance(
                        deliveries@[i].item.timestamp,
                    ).1,
                ),
    {
        proof {
            lemma_timeline_after(old(timeline)@, deliveries@, it.index() as int);
            assert(it.index() * TS_HALF_RANGE <= SEQ_HALF_RANGE * TS_HALF_RANGE)
                by (nonlinear_arith)
                requires
                    0 <= it.index() <= SEQ_HALF_RANGE,
                    TS_HALF_RANGE > 0,
            ;
            assert(delivery == deliveries@[it.index() as int]);
        }
        let timestamp = timeline.advance(delivery.item.timestamp);
        reception.delivered(delivery.seq, delivery.loss);
        packets.push(
            Packet {
                ctx: delivery.item.ctx,
                stream_id,
                timestamp,
                ssrc: delivery.item.ssrc,
                sequence_number: delivery.item.sequence_number,
                loss: delivery.loss,
                mark: delivery.item.mark,
                payload: delivery.item.payload,
            },
        );
    }
    packets
}

impl Receiver {
    /// What holds of every receiver.
    pub open spec fn wf(&self) -> bool {
        self@.wf()
    }

    /// A receiver for the stream `stream_id`, whose packets are numbered
    /// from `initial_seq` on and whose clock starts at `initial_rtptime` and
    /// makes `clock_rate` ticks per second. Up to `max_reorder` packets wait
    /// for a missing one, for `reorder_timeout_ms` milliseconds. There is
    /// none for a clock that stands still.
    pub fn new(
        stream_id: usize,
        ssrc: Option<u32>,
        initial_seq: u16,
        initial_rtptime: u32,
        clock_rate: u32,
        max_reorder: usize,
        reorder_timeout_ms: u64,
    ) -> (r: Option<Receiver>)
        ensures
            match TimelineModel::spec_new(initial_rtptime, clock_rate) {
                Some(timeline) => r matches Some(receiver) && receiver@ == (ReceiverModel {
                    stream_id,
                    ssrc,
                    reorder: ReorderModel::<RawPacket>::spec_new(
                        initial_seq,
                        max_reorder as nat,
                        reorder_timeout_ms,
                    ),
                    timeline,
                    reception: Reception::spec_new(),
                }) && receiver.wf() && receiver@.has_room(),
                None => r is None,
            },
    {
        match Timeline::new(initial_rtptime, clock_rate) {
            Some(timeline) => Some(
                Receiver {
                    stream_id,
                    ssrc,
                    reorder: ReorderBuffer::new(initial_seq, max_reorder, reorder_timeout_ms),
                    timeline,
                    reception: Reception::new(),
                },
            ),
            None => None,
        }
    }

    /// The index of the stream within its session.
    pub fn stream_id(&self) -> (r: usize)
        ensures
            r == self@.stream_id,
    {
        self.stream_id
    }

    /// The synchronization source of the stream, once it is known.
    pub fn ssrc(&self) -> (r: Option<u32>)
        ensures
            r == self@.ssrc,
    {
        self.ssrc
    }

    /// The extended sequence number of the packet that is handed on next if
    /// it arrives.
    pub fn next_expected(&self) -> (r: i64)
        ensures
            r == self@.reorder.next_expected,
    {
        self.reorder.next_expected()
    }

    /// Whether the receiver can take another packet.
    pub fn has_room(&self) -> (r: bool)
        ensures
            r == self@.has_room(),
    {
        self.reorder.has_room() && self.timeline.highest() <= RECEIVER_TS_LIMIT
    }

    /// The time at which the wait for a missing packet ends, if there is
    /// one and the time fits.
    pub fn deadline(&self) -> (r: Option<u64>)
        ensures
            match self@.reorder.spec_deadline() {
                Some(at) => if at <= u64::MAX {
                    r == Some(at as u64)
                } else {
                    r is None
                },
                None => r is None,
            },
    {
        self.reorder.deadline()
    }

    /// What has been seen of the stream, for receiver reports.
    pub fn reception(&self) -> (r: Reception)
        ensures
            r == self@.reception,
    {
        self.reception
    }

    /// Reads the compound RTCP packet `data`, which was received in the
    /// context `ctx`, and returns what its first sender report says of the
    /// stream's clock, if it has one.
    pub fn receive_rtcp(&self, ctx: PacketContext, data: &[u8]) -> (r: Option<SenderReport>)
        requires
            self.wf(),
            self@.has_room(),
        ensures
            match spec_sender_report(data@) {
                Some(info) => r matches Some(report) && report.stream_id == self@.stream_id
                    && report.ctx == ctx && report.ntp_timestamp == info.ntp_timestamp
                    && report.timestamp@ == self@.timeline.spec_advance(info.rtp_timestamp).1,
                None => r is None,
            },
    {
        match sender_report(data) {
            Some(info) => Some(
                SenderReport {
                    stream_id: self.stream_id,
                    ctx,
                    timestamp: self.timeline.place(info.rtp_timestamp),
                    ntp_timestamp: info.ntp_timestamp,
                },
            ),
            None => None,
        }
    }

    /// Takes the packet that `data` holds, which has arrived at the time
    /// `now_ms` in the context `ctx`, and returns the packets that are
    /// handed on because of it, in order.
    ///
    /// A packet whose header is at fault, or which is from another source
    /// than the stream's, is malformed and changes nothing. The source of
    /// the first packet that is taken becomes the stream's, if none was
    /// known.
    #[verifier::rlimit(30)]
    pub fn receive(&mut self, now_ms: u64, ctx: PacketContext, data: &bytes::Bytes) -> (r: Result<
        Vec<Packet>,
        Error,
    >)
        requires
            old(self).wf(),
            old(self)@.has_room(),
        ensures
            final(self).wf(),
            old(self)@.spec_receive(now_ms, ctx, bytes_content(*data), final(self)@, r),
    {
        let raw = match RawPacket::parse(ctx, data) {
            Ok(raw) => raw,
            Err(e) => {
                return Err(e);
            },
        };
        let accepted: bool = match self.ssrc {
            Some(ssrc) => ssrc == raw.ssrc,
            None => true,
        };
        if !accepted {
            return Err(
                Error::in_packet(
                    ErrorKind::RtpMalformed,
                    String::from_str("RTP packet is from another synchronization source"),
                    ctx,
                ),
            );
        }
        self.ssrc = Some(raw.ssrc);
        self.reception.arrived(transit(now_ms, self.timeline.clock_rate(), raw.timestamp));
        let wire: u16 = raw.sequence_number;
        let ghost taken = raw;
        proof {
            lemma_push_wf(old(self)@.reorder, now_ms, wire, raw);
            lemma_timeline_after(
                old(self)@.timeline,
                old(self)@.reorder.spec_push(now_ms, wire, raw).1,
                old(self)@.reorder.spec_push(now_ms, wire, raw).1.len() as int,
            );
        }
        let deliveries = self.reorder.push(now_ms, wire, raw);
        let packets = stamp_all(
            &mut self.timeline,
            &mut self.reception,
            self.stream_id,
            deliveries,
        );
        proof {
            let content = bytes_content(*data);
            let layout = spec_layout(content)->Ok_0;
            let answer: Result<Vec<Packet>, Error> = Ok(packets);
            assert(old(self)@.spec_receive(now_ms, ctx, content, self@, answer)) by {
                assert(spec_layout(content) is Ok);
                assert(old(self)@.spec_accepts(layout));
                assert(answer->Ok_0@ == packets@);
                assert(taken.is_packet_of(ctx, content, layout) && old(self)@.spec_received(
                    now_ms,
                    taken,
                    self@,
                    answer->Ok_0@,
                ));
            }
        }
        Ok(packets)
    }

    /// Takes note of the time `now_ms`, and hands on every packet that
    /// waits if the missing packet has been waited for long enough.
    pub fn poll(&mut self, now_ms: u64) -> (packets: Vec<Packet>)
        requires
            old(self).wf(),
            old(self)@.has_room(),
        ensures
            final(self).wf(),
            old(self)@.spec_polled(now_ms, final(self)@, packets@),
    {
        proof {
            lemma_flush_wf(old(self)@.reorder);
            lemma_timeline_after(
                old(self)@.timeline,
                old(self)@.reorder.spec_poll(now_ms).1,
                old(self)@.reorder.spec_poll(now_ms).1.len() as int,
            );
        }
        let deliveries = self.reorder.poll(now_ms);
        stamp_all(&mut self.timeline, &mut self.reception, self.stream_id, deliveries)
    }

    /// Hands on every packet that waits, in order and with the missing ones
    /// counted as lost.
    pub fn flush(&mut self) -> (packets: Vec<Packet>)
        requires
            old(self).wf(),
            old(self)@.has_room(),
        ensures
            final(self).wf(),
            old(self)@.spec_flushed(final(self)@, packets@),
    {
        proof {
            lemma_flush_wf(old(self)@.reorder);
            lemma_timeline_after(
                old(self)@.timeline,
                old(self)@.reorder.spec_flush().1,
                old(self)@.reorder.spec_flush().1.len() as int,
            );
        }
        let deliveries = self.reorder.flush();
        stamp_all(&mut self.timeline, &mut self.reception, self.stream_id, deliveries)
    }
}

} // verus!
