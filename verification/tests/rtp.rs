use bytes::Bytes;
use retina::client::receiver::Receiver;
use retina::client::rtp::{layout, HeaderFault, Layout, RawPacket};
use retina::client::timeline::Timeline;
use retina::context::PacketOrigin;
use retina::{ErrorKind, PacketContext, RtspMessageContext};

fn rtp(seq: u16, timestamp: u32, ssrc: u32, mark: bool, payload: &[u8]) -> Vec<u8> {
    let mut data = vec![0x80, if mark { 0x80 | 96 } else { 96 }];
    data.extend_from_slice(&seq.to_be_bytes());
    data.extend_from_slice(&timestamp.to_be_bytes());
    data.extend_from_slice(&ssrc.to_be_bytes());
    data.extend_from_slice(payload);
    data
}

#[test]
fn layout_of_a_plain_packet() {
    let data = rtp(17_001, 3_200_160, 0xDEAD_BEEF, true, b"payload");
    assert_eq!(
        layout(&data),
        Ok(Layout {
            payload_type: 96,
            mark: true,
            sequence_number: 17_001,
            timestamp: 3_200_160,
            ssrc: 0xDEAD_BEEF,
            payload_start: 12,
            payload_end: 19,
        })
    );
}

#[test]
fn layout_of_a_bare_header() {
    let data = [0x80, 0x00, 0x00, 0x01, 0, 0, 0, 2, 0, 0, 0, 3];
    assert_eq!(
        layout(&data),
        Ok(Layout {
            payload_type: 0,
            mark: false,
            sequence_number: 1,
            timestamp: 2,
            ssrc: 3,
            payload_start: 12,
            payload_end: 12,
        })
    );
}

#[test]
fn layout_skips_sources_extension_and_padding() {
    // Two contributing sources, an extension of one word, three bytes of padding.
    let mut data = vec![0x80 | 0x20 | 0x10 | 2, 0x08];
    data.extend_from_slice(&[0x12, 0x34, 0, 0, 0, 9, 1, 2, 3, 4]);
    data.extend_from_slice(&[0; 8]);
    data.extend_from_slice(&[0xBE, 0xDE, 0, 1, 9, 9, 9, 9]);
    data.extend_from_slice(b"abcde");
    data.extend_from_slice(&[0, 0, 3]);
    let l = layout(&data).unwrap();
    assert_eq!(l.payload_type, 8);
    assert_eq!(l.sequence_number, 0x1234);
    assert_eq!(l.timestamp, 9);
    assert_eq!(l.ssrc, 0x0102_0304);
    assert_eq!(&data[l.payload_start..l.payload_end], b"abcde");
}

#[test]
fn layout_faults() {
    assert_eq!(layout(&[]), Err(HeaderFault::TooShort));
    assert_eq!(layout(&[0x80; 11]), Err(HeaderFault::TooShort));
    let mut data = rtp(1, 2, 3, false, b"");
    data[0] = 0x40;
    assert_eq!(layout(&data), Err(HeaderFault::BadVersion));
    data[0] = 0xC0;
    assert_eq!(layout(&data), Err(HeaderFault::BadVersion));
    data[0] = 0x81;
    assert_eq!(layout(&data), Err(HeaderFault::CsrcOverrun));
    data[0] = 0x90;
    assert_eq!(layout(&data), Err(HeaderFault::ExtensionOverrun));
    data.extend_from_slice(&[0, 0, 0, 1]);
    assert_eq!(layout(&data), Err(HeaderFault::ExtensionOverrun));
    data.extend_from_slice(&[0, 0, 0, 0]);
    assert_eq!(layout(&data).unwrap().payload_start, 20);
    let mut data = rtp(1, 2, 3, false, &[0]);
    data[0] = 0xA0;
    assert_eq!(layout(&data), Err(HeaderFault::BadPadding));
    let mut data = rtp(1, 2, 3, false, &[2]);
    data[0] = 0xA0;
    assert_eq!(layout(&data), Err(HeaderFault::BadPadding));
    let mut data = rtp(1, 2, 3, false, &[7, 1]);
    data[0] = 0xA0;
    assert_eq!(layout(&data).unwrap().payload_end, 13);
    let mut data = rtp(1, 2, 3, false, b"");
    data[0] = 0xA0;
    assert_eq!(layout(&data), Err(HeaderFault::BadPadding));
}

#[test]
fn fault_descriptions() {
    assert_eq!(HeaderFault::TooShort.description(), "RTP packet is shorter than its header");
    assert_eq!(HeaderFault::BadVersion.description(), "RTP version is not 2");
    assert_eq!(
        HeaderFault::CsrcOverrun.description(),
        "RTP contributing sources overrun the packet"
    );
    assert_eq!(
        HeaderFault::ExtensionOverrun.description(),
        "RTP header extension overruns the packet"
    );
    assert_eq!(
        HeaderFault::BadPadding.description(),
        "RTP padding is empty or overruns the payload"
    );
}

#[test]
fn raw_packet_holds_the_payload_only() {
    let data = Bytes::from(rtp(7, 8, 9, true, b"\x01\x02\x03"));
    let raw = RawPacket::parse(PacketContext::dummy(), &data).unwrap();
    assert_eq!(raw.payload_type, 96);
    assert!(raw.mark);
    assert_eq!(raw.sequence_number, 7);
    assert_eq!(raw.timestamp, 8);
    assert_eq!(raw.ssrc, 9);
    assert_eq!(raw.payload, Bytes::from_static(b"\x01\x02\x03"));
    assert_ne!(raw.payload, data);
}

#[test]
fn malformed_packet_is_an_error_with_its_context() {
    let ctx = PacketContext::tcp(RtspMessageContext::dummy(), 4);
    let e = RawPacket::parse(ctx, &Bytes::from_static(&[0x80, 0, 0])).unwrap_err();
    assert_eq!(e.kind(), ErrorKind::RtpMalformed);
    assert!(!e.kind().is_fatal());
    assert_eq!(e.description(), "RTP packet is shorter than its header");
    assert_eq!(e.pkt_ctx().unwrap().channel_id(), Some(4));
    assert!(e.msg_ctx().is_none());
}

#[test]
fn timeline_extends_across_the_wrap() {
    let mut t = Timeline::new(0xFFFF_FF00, 90_000).unwrap();
    assert_eq!(t.highest(), 0xFFFF_FF00);
    let a = t.advance(0xFFFF_FF00);
    assert_eq!(a.timestamp(), 0xFFFF_FF00);
    assert_eq!(a.elapsed(), 0);
    assert_eq!(a.clock_rate(), 90_000);
    assert_eq!(a.start(), 0xFFFF_FF00);
    let b = t.advance(0x0000_0100);
    assert_eq!(b.timestamp(), 0x1_0000_0100);
    assert_eq!(b.elapsed(), 0x200);
    assert_eq!(b.wire(), 0x100);
    assert_eq!(t.highest(), 0x1_0000_0100);
    // A packet from before the wrap does not move the timeline back.
    let c = t.advance(0xFFFF_FFF0);
    assert_eq!(c.timestamp(), 0xFFFF_FFF0);
    assert_eq!(t.highest(), 0x1_0000_0100);
    let d = t.advance(0x0000_0200);
    assert_eq!(d.timestamp(), 0x1_0000_0200);
    assert!(t.has_room());
}

#[test]
fn timeline_needs_a_running_clock() {
    assert!(Timeline::new(0, 0).is_none());
    assert!(Timeline::new(5, 1).is_some());
}

#[test]
fn timeline_tie_goes_to_the_past() {
    let mut t = Timeline::new(0, 8_000).unwrap();
    t.advance(0x7FFF_FFFF);
    assert_eq!(t.highest(), 0x7FFF_FFFF);
    let mut t = Timeline::new(0, 8_000).unwrap();
    let back = t.advance(0x8000_0000);
    assert_eq!(back.timestamp(), -0x8000_0000);
    assert_eq!(back.elapsed(), -0x8000_0000);
    assert_eq!(t.highest(), 0);
}

#[test]
fn first_packet_after_play_is_delivered_without_loss() {
    // RTP-Info: seq=17000;rtptime=3200000
    let mut r = Receiver::new(0, None, 17_000, 3_200_000, 90_000, 8, 100).unwrap();
    assert_eq!(r.next_expected(), 17_000);
    let data = Bytes::from(rtp(17_001, 3_203_000, 0xAABB_CCDD, false, b"video"));
    let out = r.receive(0, PacketContext::dummy(), &data).unwrap();
    assert!(out.is_empty());
    assert_eq!(r.deadline(), Some(100));
    assert!(r.poll(99).is_empty());
    let out = r.poll(100);
    assert_eq!(out.len(), 1);
    assert_eq!(out[0].sequence_number, 17_001);
    assert_eq!(out[0].loss, 0);
    assert_eq!(out[0].timestamp.timestamp(), 3_203_000);
    assert_eq!(out[0].timestamp.elapsed(), 3_000);
    assert_eq!(out[0].ssrc, 0xAABB_CCDD);
    assert_eq!(out[0].stream_id, 0);
    assert_eq!(out[0].payload, Bytes::from_static(b"video"));
    assert_eq!(r.next_expected(), 17_002);
    assert_eq!(r.ssrc(), Some(0xAABB_CCDD));
}

#[test]
fn expected_packet_after_play_is_delivered_at_once() {
    let mut r = Receiver::new(1, Some(7), 42, 0, 8_000, 8, 100).unwrap();
    let out = r.receive(0, PacketContext::dummy(), &Bytes::from(rtp(42, 160, 7, true, b"a")))
        .unwrap();
    assert_eq!(out.len(), 1);
    assert_eq!(out[0].sequence_number, 42);
    assert_eq!(out[0].loss, 0);
    assert!(out[0].mark);
    assert_eq!(out[0].stream_id, 1);
    assert_eq!(out[0].timestamp.elapsed(), 160);
    assert_eq!(r.stream_id(), 1);
}

#[test]
fn udp_packets_5_6_4_7_are_delivered_4_5_6_7() {
    let mut r = Receiver::new(0, None, 4, 1_000, 8_000, 8, 100).unwrap();
    let mut out = Vec::new();
    for (at, seq) in [5u16, 6, 4, 7].into_iter().enumerate() {
        let data = Bytes::from(rtp(seq, 1_000 + 160 * u32::from(seq - 4), 1, false, &[seq as u8]));
        out.extend(r.receive(at as u64, PacketContext::dummy(), &data).unwrap());
    }
    let got: Vec<(u16, u16, i64, u8)> = out
        .iter()
        .map(|p| (p.sequence_number, p.loss, p.timestamp.elapsed(), p.payload[0]))
        .collect();
    assert_eq!(got, vec![(4, 0, 0, 4), (5, 0, 160, 5), (6, 0, 320, 6), (7, 0, 480, 7)]);
    assert!(r.flush().is_empty());
}

#[test]
fn packet_from_another_source_is_malformed() {
    let mut r = Receiver::new(0, Some(1), 0, 0, 8_000, 8, 100).unwrap();
    let e = r
        .receive(0, PacketContext::dummy(), &Bytes::from(rtp(0, 0, 2, false, b"")))
        .unwrap_err();
    assert_eq!(e.kind(), ErrorKind::RtpMalformed);
    assert_eq!(e.description(), "RTP packet is from another synchronization source");
    assert_eq!(r.next_expected(), 0);
    assert_eq!(r.ssrc(), Some(1));
    // The first packet decides where no source is known.
    let mut r = Receiver::new(0, None, 0, 0, 8_000, 8, 100).unwrap();
    assert!(r.receive(0, PacketContext::dummy(), &Bytes::from(rtp(0, 0, 2, false, b""))).is_ok());
    assert!(r.receive(0, PacketContext::dummy(), &Bytes::from(rtp(1, 0, 3, false, b""))).is_err());
    assert_eq!(r.next_expected(), 1);
}

#[test]
fn malformed_packet_changes_nothing() {
    let mut r = Receiver::new(0, None, 0, 0, 8_000, 8, 100).unwrap();
    let e = r.receive(0, PacketContext::dummy(), &Bytes::from_static(b"short")).unwrap_err();
    assert_eq!(e.kind(), ErrorKind::RtpMalformed);
    assert_eq!(r.ssrc(), None);
    assert_eq!(r.next_expected(), 0);
    assert!(r.has_room());
}

#[test]
fn receiver_needs_a_running_clock() {
    assert!(Receiver::new(0, None, 0, 0, 0, 8, 100).is_none());
}

#[test]
fn lost_packets_are_counted_with_timestamps_in_order() {
    let mut r = Receiver::new(0, None, 100, 0, 8_000, 2, 100).unwrap();
    let mut out = Vec::new();
    for seq in [100u16, 103, 104, 105] {
        let data = Bytes::from(rtp(seq, 160 * u32::from(seq - 100), 1, false, b""));
        out.extend(r.receive(0, PacketContext::dummy(), &data).unwrap());
    }
    let got: Vec<(u16, u16, i64)> =
        out.iter().map(|p| (p.sequence_number, p.loss, p.timestamp.timestamp())).collect();
    assert_eq!(got, vec![(100, 0, 0), (103, 2, 480), (104, 0, 640), (105, 0, 800)]);
}

#[test]
fn packet_context_of_interleaved_data_is_kept() {
    let msg = RtspMessageContext::received_now(1_000);
    let ctx = PacketContext::tcp(msg, 0);
    let mut r = Receiver::new(0, None, 9, 0, 90_000, 8, 100).unwrap();
    let out = r.receive(0, ctx, &Bytes::from(rtp(9, 0, 1, false, b""))).unwrap();
    assert_eq!(out.len(), 1);
    assert_eq!(out[0].ctx.channel_id(), Some(0));
    assert!(matches!(
        out[0].ctx.origin(),
        PacketOrigin::Tcp { msg_ctx, channel_id: 0 } if msg_ctx.pos() == 1_000
    ));
}
