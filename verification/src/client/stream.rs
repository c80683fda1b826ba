//! One stream from packets to frames: what arrives is put in order, each
//! packet is handed to the stream's codec, and the frames that the codec
//! makes are collected, together with what it says against packets.

use super::receiver::{Receiver, ReceiverModel};
use super::rtp::Packet;
use crate::codec::{CodecItem, Depacketizer, DepacketizerModel};
use crate::context::PacketContext;
use crate::error::{Error, ErrorKind};
use crate::payload::bytes_content;
use crate::rtcp::spec_sender_report;
use vstd::prelude::*;

verus! {

/// How many packets in a row have been at fault, and whether that has been
/// too many.
#[derive(Copy, Clone, Debug, PartialEq, Eq, Structural)]
pub struct Corruption {
    /// How many packets in a row may be at fault, and one more.
    pub threshold: u32,
    /// How many packets in a row have been at fault.
    pub in_a_row: u32,
    /// Whether `threshold` packets in a row have been at fault at some
    /// time.
    pub sustained: bool,
}

impl Corruption {
    /// No packet has been at fault yet.
    pub open spec fn spec_new(threshold: u32) -> Corruption {
        Corruption { threshold, in_a_row: 0, sustained: false }
    }

    /// The state after one more packet, which was at fault or not. A good
    /// packet starts the count anew. Corruption that is sustained once
    /// stays so.
    pub open spec fn spec_note(self, at_fault: bool) -> Corruption {
        if at_fault {
            Corruption {
                in_a_row: if self.in_a_row < u32::MAX {
                    (self.in_a_row + 1) as u32
                } else {
                    u32::MAX
                },
                sustained: self.sustained || self.in_a_row + 1 >= self.threshold,
                ..self
            }
        } else {
            Corruption { in_a_row: 0, ..self }
        }
    }

    /// No packet has been at fault yet.
    pub fn new(threshold: u32) -> (r: Corruption)
        ensures
            r == Corruption::spec_new(threshold),
    {
        Corruption { threshold, in_a_row: 0, sustained: false }
    }

    /// Takes note of one more packet.
    pub fn note(&mut self, at_fault: bool)
        ensures
            *final(self) == old(self).spec_note(at_fault),
    {
        if at_fault {
            if self.in_a_row < u32::MAX {
                self.in_a_row = self.in_a_row + 1;
                if self.in_a_row >= self.threshold {
                    self.sustained = true;
                }
            } else {
                self.sustained = true;
            }
        } else {
            self.in_a_row = 0;
        }
    }
}

/// What is said against a packet.
pub struct Fault {
    /// Where the packet came from.
    pub ctx: PacketContext,
    /// What is said.
    pub text: Seq<char>,
}

/// What one step of a stream has brought.
#[derive(Debug)]
pub struct Received {
    /// The frames that were made, in order.
    pub items: Vec<CodecItem>,
    /// What was said against packets, in order. None of it ends the
    /// session by itself.
    pub errors: Vec<Error>,
}

/// The state of the codec, the frames and the faults after the first
/// `count` of `packets` have been handed to the codec, each followed by a
/// pull, and how many packets in a row were at fault.
pub struct Fed {
    pub depacketizer: DepacketizerModel,
    pub corruption: Corruption,
    pub items: Seq<CodecItem>,
    pub faults: Seq<Fault>,
}

/// What the first `count` of `packets` bring, if they are handed to the
/// codec one after the other, each followed by a pull.
pub open spec fn spec_fed(start: Fed, packets: Seq<Packet>, count: int) -> Fed
    decreases count,
{
    if count <= 0 {
        start
    } else {
        let before = spec_fed(start, packets, count - 1);
        let pkt = packets[count - 1];
        let (pushed, answer) = before.depacketizer.spec_push(pkt);
        let (pulled, item) = pushed.spec_pull();
        Fed {
            depacketizer: pulled,
            corruption: before.corruption.spec_note(answer is Err),
            items: match item {
                Some(i) => before.items.push(i),
                None => before.items,
            },
            faults: match answer {
                Ok(_) => before.faults,
                Err(text) => before.faults.push(Fault { ctx: pkt.ctx, text }),
            },
        }
    }
}

/// Whether the errors `errors` say what `faults` are, one of each and in
/// the same order, each of a malformed packet.
pub open spec fn are_errors_of(errors: Seq<Error>, faults: Seq<Fault>) -> bool {
    &&& errors.len() == faults.len()
    &&& forall|i: int|
        0 <= i < errors.len() ==> (#[trigger] errors[i])@.kind == ErrorKind::RtpMalformed
            && errors[i]@.description@ == faults[i].text && errors[i]@.pkt_ctx == Some(
            faults[i].ctx,
        )
}

/// The state of a [`Stream`].
pub struct StreamModel {
    /// The part that puts packets in order.
    pub receiver: ReceiverModel,
    /// The codec.
    pub depacketizer: DepacketizerModel,
    /// How many packets in a row have been at fault.
    pub corruption: Corruption,
}

impl StreamModel {
    /// What holds of every stream: its parts are as they should be, the
    /// codec can take packets, and no frame waits in it.
    pub open spec fn wf(self) -> bool {
        self.receiver.wf() && self.depacketizer.takes_packets()
            && !self.depacketizer.has_pending()
    }

    /// Whether `after` and `received` are the stream and what it has
    /// brought once the packets `packets` have left the receiver, which is
    /// then `receiver`.
    pub open spec fn spec_passed_on(
        self,
        receiver: ReceiverModel,
        packets: Seq<Packet>,
        after: StreamModel,
        received: Received,
    ) -> bool {
        let fed = spec_fed(
            Fed {
                depacketizer: self.depacketizer,
                corruption: self.corruption,
                items: Seq::empty(),
                faults: Seq::empty(),
            },
            packets,
            packets.len() as int,
        );
        &&& after.receiver == receiver
        &&& after.depacketizer == fed.depacketizer
        &&& after.corruption == fed.corruption
        &&& received.items@ == fed.items
        &&& are_errors_of(received.errors@, fed.faults)
    }

    /// Whether `after` and `received` are the stream and what it has
    /// brought once the receiver, which is then `receiver`, has answered
    /// `answer` to a packet: packets that it hands on are handed to the
    /// codec, and an error is passed on and counted.
    pub open spec fn spec_answered(
        self,
        receiver: ReceiverModel,
        answer: Result<Vec<Packet>, Error>,
        after: StreamModel,
        received: Received,
    ) -> bool {
        match answer {
            Ok(packets) => self.spec_passed_on(receiver, packets@, after, received),
            Err(e) => {
                &&& after.receiver == receiver
                &&& after.depacketizer == self.depacketizer
                &&& after.corruption == self.corruption.spec_note(true)
                &&& received.items@ == Seq::<CodecItem>::empty()
                &&& received.errors@ == seq![e]
            },
        }
    }
}

/// A codec in which no frame waits is in the same state after any number
/// of packets, each followed by a pull, and can take packets then if it
/// could before.
pub proof fn lemma_fed_no_pending(start: Fed, packets: Seq<Packet>, count: int)
    requires
        !start.depacketizer.has_pending(),
    ensures
        !spec_fed(start, packets, count).depacketizer.has_pending(),
        spec_fed(start, packets, count).depacketizer.takes_packets()
            == start.depacketizer.takes_packets(),
    decreases count,
{
    if count > 0 {
        lemma_fed_no_pending(start, packets, count - 1);
    }
}

/// One stream from packets to frames.
pub struct Stream {
    receiver: Receiver,
    depacketizer: Depacketizer,
    corruption: Corruption,
}

impl View for Stream {
    type V = StreamModel;

    closed spec fn view(&self) -> StreamModel {
        StreamModel {
            receiver: self.receiver@,
            depacketizer: self.depacketizer@,
            corruption: self.corruption,
        }
    }
}

/// Hands `packets` to the codec one after the other, each followed by a
/// pull, and collects what they bring.
fn feed(depacketizer: &mut Depacketizer, corruption: &mut Corruption, packets: Vec<Packet>) -> (r:
    Received)
    requires
        old(depacketizer)@.takes_packets(),
        !old(depacketizer)@.has_pending(),
    ensures
        final(depacketizer)@.takes_packets(),
        !final(depacketizer)@.has_pending(),
        ({
            let fed = spec_fed(
                Fed {
                    depacketizer: old(depacketizer)@,
                    corruption: *old(corruption),
                    items: Seq::empty(),
                    faults: Seq::empty(),
                },
                packets@,
                packets@.len() as int,
            );
            &&& final(depacketizer)@ == fed.depacketizer
            &&& *final(corruption) == fed.corruption
            &&& r.items@ == fed.items
            &&& are_errors_of(r.errors@, fed.faults)
        }),
{
    let ghost start = Fed {
        depacketizer: depacketizer@,
        corruption: *corruption,
        items: Seq::empty(),
        faults: Seq::empty(),
    };
    let mut items: Vec<CodecItem> = Vec::new();
    let mut errors: Vec<Error> = Vec::new();
    for pkt in it: packets
        invariant
            start == (Fed {
                depacketizer: old(depacketizer)@,
                corruption: *old(corruption),
                items: Seq::empty(),
                faults: Seq::empty(),
            }),
            it.seq() == packets@,
            depacketizer@.takes_packets(),
            !depacketizer@.has_pending(),
            depacketizer@ == spec_fed(start, packets@, it.index() as int).depacketizer,
            *corruption == spec_fed(start, packets@, it.index() as int).corruption,
            items@ == spec_fed(start, packets@, it.index() as int).items,
            are_errors_of(errors@, spec_fed(start, packets@, it.index() as int).faults),
    {
        let ghost after = spec_fed(start, packets@, it.index() + 1);
        proof {
            assert(pkt == packets@[it.index() as int]);
        }
        match depacketizer.push(pkt) {
            Ok(()) => {
                corruption.note(false);
            },
            Err(e) => {
                corruption.note(true);
                errors.push(e);
            },
        }
        match depacketizer.pull() {
            Some(item) => {
                items.push(item);
            },
            None => {},
        }
        proof {
            assert(items@ == after.items);
            assert(are_errors_of(errors@, after.faults));
        }
    }
    Received { items, errors }
}

impl Stream {
    /// What holds of every stream.
    pub open spec fn wf(&self) -> bool {
        self@.wf()
    }

    /// A stream whose packets `receiver` puts in order and `depacketizer`
    /// turns into frames. Corruption is sustained when `threshold` packets
    /// in a row are at fault.
    pub fn new(receiver: Receiver, depacketizer: Depacketizer, threshold: u32) -> (r: Stream)
        requires
            receiver.wf(),
            depacketizer@.takes_packets(),
            !depacketizer@.has_pending(),
        ensures
            r@ == (StreamModel {
                receiver: receiver@,
                depacketizer: depacketizer@,
                corruption: Corruption::spec_new(threshold),
            }),
            r.wf(),
    {
        Stream { receiver, depacketizer, corruption: Corruption::new(threshold) }
    }

    /// Whether the stream can take another packet.
    pub fn has_room(&self) -> (r: bool)
        ensures
            r == self@.receiver.has_room(),
    {
        self.receiver.has_room()
    }

    /// Whether so many packets in a row have been at fault that the session
    /// should be given up.
    pub fn is_corrupt(&self) -> (r: bool)
        ensures
            r == self@.corruption.sustained,
    {
        self.corruption.sustained
    }

    /// The time at which the wait for a missing packet ends, if there is
    /// one and the time fits.
    pub fn deadline(&self) -> (r: Option<u64>)
        ensures
            match self@.receiver.reorder.spec_deadline() {
                Some(at) => if at <= u64::MAX {
                    r == Some(at as u64)
                } else {
                    r is None
                },
                None => r is None,
            },
    {
        self.receiver.deadline()
    }

    /// Takes the packet that `data` holds, which has arrived at the time
    /// `now_ms` in the context `ctx`, and returns the frames that can be
    /// made because of it, with what is said against packets.
    pub fn receive(&mut self, now_ms: u64, ctx: PacketContext, data: &bytes::Bytes) -> (r:
        Received)
        requires
            old(self).wf(),
            old(self)@.receiver.has_room(),
        ensures
            final(self).wf(),
            exists|answer: Result<Vec<Packet>, Error>|
                old(self)@.receiver.spec_receive(
                    now_ms,
                    ctx,
                    bytes_content(*data),
                    final(self)@.receiver,
                    answer,
                ) && #[trigger] old(self)@.spec_answered(
                    final(self)@.receiver,
                    answer,
                    final(self)@,
                    r,
                ),
    {
        let answer = self.receiver.receive(now_ms, ctx, data);
        let ghost seen = answer;
        let r = match answer {
            Ok(packets) => {
                proof {
                    lemma_fed_no_pending(
                        Fed {
                            depacketizer: old(self)@.depacketizer,
                            corruption: old(self)@.corruption,
                            items: Seq::empty(),
                            faults: Seq::empty(),
                        },
                        packets@,
                        packets@.len() as int,
                    );
                }
                feed(&mut self.depacketizer, &mut self.corruption, packets)
            },
            Err(e) => {
                self.corruption.note(true);
                let mut errors: Vec<Error> = Vec::new();
                errors.push(e);
                assert(errors@ =~= seq![e]);
                Received { items: Vec::new(), errors }
            },
        };
        proof {
            assert(old(self)@.spec_answered(self@.receiver, seen, self@, r));
        }
        r
    }

    /// Takes note of the time `now_ms`, and returns the frames that can be
    /// made of the packets that are handed on because of it.
    pub fn poll(&mut self, now_ms: u64) -> (r: Received)
        requires
            old(self).wf(),
            old(self)@.receiver.has_room(),
        ensures
            final(self).wf(),
            exists|packets: Seq<Packet>|
                old(self)@.receiver.spec_polled(now_ms, final(self)@.receiver, packets)
                    && #[trigger] old(self)@.spec_passed_on(
                    final(self)@.receiver,
                    packets,
                    final(self)@,
                    r,
                ),
    {
        let packets = self.receiver.poll(now_ms);
        let ghost seen = packets@;
        let r = feed(&mut self.depacketizer, &mut self.corruption, packets);
        proof {
            assert(old(self)@.spec_passed_on(self@.receiver, seen, self@, r));
        }
        r
    }

    /// Stops waiting for missing packets, and returns the frames that can
    /// be made of the packets that waited.
    pub fn flush(&mut self) -> (r: Received)
        requires
            old(self).wf(),
            old(self)@.receiver.has_room(),
        ensures
            final(self).wf(),
            exists|packets: Seq<Packet>|
                old(self)@.receiver.spec_flushed(final(self)@.receiver, packets)
                    && #[trigger] old(self)@.spec_passed_on(
                    final(self)@.receiver,
                    packets,
                    final(self)@,
                    r,
                ),
    {
        let packets = self.receiver.flush();
        let ghost seen = packets@;
        let r = feed(&mut self.depacketizer, &mut self.corruption, packets);
        proof {
            assert(old(self)@.spec_passed_on(self@.receiver, seen, self@, r));
        }
        r
    }

    /// Reads the compound RTCP packet `data`, which was received in the
    /// context `ctx`, and returns what its first sender report says of the
    /// stream's clock, if it has one.
    pub fn receive_rtcp(&self, ctx: PacketContext, data: &[u8]) -> (r: Option<CodecItem>)
        requires
            self.wf(),
            self@.receiver.has_room(),
        ensures
            match spec_sender_report(data@) {
                Some(info) => r matches Some(CodecItem::SenderReport(report)) && report.stream_id
                    == self@.receiver.stream_id && report.ctx == ctx && report.ntp_timestamp
                    == info.ntp_timestamp && report.timestamp@
                    == self@.receiver.timeline.spec_advance(info.rtp_timestamp).1,
                None => r is None,
            },
    {
        match self.receiver.receive_rtcp(ctx, data) {
            Some(report) => Some(CodecItem::SenderReport(report)),
            None => None,
        }
    }
}

} // verus!
