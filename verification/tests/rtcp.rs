use bytes::Bytes;
use retina::client::receiver::Receiver;
use retina::codec::CodecItem;
use retina::rtcp::{
    next_report_delay_ms, push_be32, receiver_report, report_delay_ms, sender_report, transit,
    Reception, SenderInfo,
};
use retina::{NtpTimestamp, PacketContext};

fn sr(ssrc: u32, ntp: u64, rtp: u32) -> Vec<u8> {
    let mut b = vec![0x80, 200, 0, 6];
    b.extend_from_slice(&ssrc.to_be_bytes());
    b.extend_from_slice(&ntp.to_be_bytes());
    b.extend_from_slice(&rtp.to_be_bytes());
    b.extend_from_slice(&[0, 0, 0, 10, 0, 0, 4, 0]);
    b
}

#[test]
fn sender_report_is_read() {
    let b = sr(0x1122_3344, 0xE3F1_0000_8000_0000, 3_600_000);
    assert_eq!(b.len(), 28);
    assert_eq!(
        sender_report(&b),
        Some(SenderInfo {
            ssrc: 0x1122_3344,
            ntp_timestamp: NtpTimestamp(0xE3F1_0000_8000_0000),
            rtp_timestamp: 3_600_000,
        })
    );
}

#[test]
fn sender_report_is_found_behind_other_packets() {
    // A receiver report without blocks, a source description, then the sender report.
    let mut b = vec![0x80, 201, 0, 1, 0, 0, 0, 9];
    b.extend_from_slice(&[0x81, 202, 0, 2, 0, 0, 0, 9, 1, 1, b'x', 0]);
    b.extend_from_slice(&sr(7, 1, 2));
    b.extend_from_slice(&[0x80, 203, 0, 1, 0, 0, 0, 7]);
    assert_eq!(
        sender_report(&b),
        Some(SenderInfo { ssrc: 7, ntp_timestamp: NtpTimestamp(1), rtp_timestamp: 2 })
    );
}

#[test]
fn malformed_rtcp_has_no_sender_report() {
    assert_eq!(sender_report(&[]), None);
    assert_eq!(sender_report(&[0x80, 200, 0]), None);
    let good = sr(7, 1, 2);
    // Cut short.
    assert_eq!(sender_report(&good[..27]), None);
    // Another version.
    let mut b = good.clone();
    b[0] = 0x40;
    assert_eq!(sender_report(&b), None);
    // Too short for a sender report.
    assert_eq!(sender_report(&[0x80, 200, 0, 1, 0, 0, 0, 1]), None);
    // A length that goes beyond the packet.
    let mut b = good.clone();
    b[3] = 7;
    assert_eq!(sender_report(&b), None);
    // No sender report at all.
    assert_eq!(sender_report(&[0x80, 201, 0, 1, 0, 0, 0, 9]), None);
    // Malformed before the sender report is reached.
    let mut b = vec![0x00, 201, 0, 1, 0, 0, 0, 9];
    b.extend_from_slice(&good);
    assert_eq!(sender_report(&b), None);
}

#[test]
fn sender_report_becomes_an_item_on_the_stream_clock() {
    let receiver = Receiver::new(3, None, 0, 0xFFFF_FF00, 90_000, 8, 100).unwrap();
    let b = sr(7, 0xE3F1_0000_0000_0000, 0x0000_0100);
    let report = receiver.receive_rtcp(PacketContext::dummy(), &b).unwrap();
    assert_eq!(report.stream_id, 3);
    assert_eq!(report.ntp_timestamp, NtpTimestamp(0xE3F1_0000_0000_0000));
    assert_eq!(report.timestamp.timestamp(), 0x1_0000_0100);
    assert_eq!(report.timestamp.elapsed(), 0x200);
    let item = CodecItem::SenderReport(report);
    assert!(matches!(item, CodecItem::SenderReport(r) if r.stream_id == 3));
    assert!(receiver.receive_rtcp(PacketContext::dummy(), &[0x80, 201, 0, 0]).is_none());
}

#[test]
fn transit_is_arrival_minus_timestamp() {
    assert_eq!(transit(1_000, 8_000, 0), 8_000);
    assert_eq!(transit(1_000, 8_000, 7_000), 1_000);
    assert_eq!(transit(0, 8_000, 1), u32::MAX);
    assert_eq!(transit(1, 90_000, 0), 90);
    assert_eq!(transit(1, 999, 0), 0);
    assert_eq!(transit(u64::MAX, u32::MAX, 0), {
        let ticks = u128::from(u64::MAX) * u128::from(u32::MAX) / 1000;
        (ticks % (1 << 32)) as u32
    });
}

#[test]
fn jitter_moves_a_sixteenth_towards_the_distance() {
    let mut r = Reception::new();
    r.arrived(1_000);
    assert_eq!(r.jitter_q4, 0);
    assert_eq!(r.last_transit, Some(1_000));
    r.arrived(1_160);
    assert_eq!(r.jitter_q4, 160);
    r.arrived(1_160);
    assert_eq!(r.jitter_q4, 160 - (160 + 8) / 16);
    assert_eq!(r.jitter_q4, 150);
    r.arrived(1_000);
    assert_eq!(r.jitter_q4, 150 + 160 - (150 + 8) / 16);
    // The shorter way round the wrap.
    let mut r = Reception::new();
    r.arrived(u32::MAX);
    r.arrived(4);
    assert_eq!(r.jitter_q4, 5);
    r.arrived(u32::MAX - 10);
    assert_eq!(r.jitter_q4, 5 + 15 - 0);
}

#[test]
fn deliveries_are_counted() {
    let mut r = Reception::new();
    r.delivered(100, 0);
    r.delivered(103, 2);
    r.delivered(102, 0);
    assert_eq!(r.highest_seq, Some(103));
    assert_eq!(r.cumulative_lost, 2);
    r.cumulative_lost = u64::MAX - 1;
    r.delivered(104, 5);
    assert_eq!(r.cumulative_lost, u64::MAX);
}

#[test]
fn receiver_report_bytes() {
    let reception = Reception {
        highest_seq: Some(0x1_0001_0203),
        cumulative_lost: 0x0A0B0C,
        jitter_q4: 16 * 0x0D0E0F10 + 15,
        last_transit: Some(9),
    };
    let b = receiver_report(0x1122_3344, 0x5566_7788, &reception);
    assert_eq!(
        b,
        vec![
            0x81, 201, 0, 7, // header
            0x11, 0x22, 0x33, 0x44, // receiver
            0x55, 0x66, 0x77, 0x88, // source
            0x00, 0x0A, 0x0B, 0x0C, // fraction and number of lost packets
            0x00, 0x01, 0x02, 0x03, // highest sequence number
            0x0D, 0x0E, 0x0F, 0x10, // jitter
            0, 0, 0, 0, // last sender report
            0, 0, 0, 0, // delay since then
        ]
    );
    let empty = receiver_report(1, 2, &Reception::new());
    assert_eq!(&empty[12..], &[0u8; 20][..]);
    let full = Reception {
        highest_seq: Some(-1),
        cumulative_lost: u64::MAX,
        jitter_q4: u64::MAX,
        last_transit: None,
    };
    let b = receiver_report(0, 0, &full);
    assert_eq!(&b[12..16], &[0x00, 0xFF, 0xFF, 0xFF]);
    assert_eq!(&b[16..20], &[0xFF, 0xFF, 0xFF, 0xFF]);
    assert_eq!(&b[20..24], &[0xFF, 0xFF, 0xFF, 0xFF]);
}

#[test]
fn big_endian_bytes() {
    let mut out = vec![9];
    push_be32(&mut out, 0x0102_0304);
    push_be32(&mut out, 0);
    push_be32(&mut out, u32::MAX);
    assert_eq!(out, vec![9, 1, 2, 3, 4, 0, 0, 0, 0, 255, 255, 255, 255]);
}

#[test]
fn report_delay_is_5_seconds_give_or_take_half() {
    assert_eq!(report_delay_ms(0), 2_500);
    assert_eq!(report_delay_ms(2_500), 5_000);
    assert_eq!(report_delay_ms(5_000), 7_500);
    assert_eq!(report_delay_ms(5_001), 2_500);
    assert_eq!(report_delay_ms(u32::MAX), 2_500 + u64::from(u32::MAX % 5_001));
    let mut low = false;
    let mut high = false;
    for _ in 0..2_000 {
        let d = next_report_delay_ms();
        assert!((2_500..=7_500).contains(&d));
        low |= d < 5_000;
        high |= d > 5_000;
    }
    assert!(low && high);
}

#[test]
fn receiver_keeps_the_statistics_of_its_stream() {
    let mut receiver = Receiver::new(0, None, 10, 0, 8_000, 8, 100).unwrap();
    let packet = |seq: u16, ts: u32| {
        let mut d = vec![0x80, 0];
        d.extend_from_slice(&seq.to_be_bytes());
        d.extend_from_slice(&ts.to_be_bytes());
        d.extend_from_slice(&[0, 0, 0, 1]);
        Bytes::from(d)
    };
    assert_eq!(receiver.reception(), Reception::new());
    receiver.receive(0, PacketContext::dummy(), &packet(10, 0)).unwrap();
    receiver.receive(20, PacketContext::dummy(), &packet(11, 160)).unwrap();
    // 12 is lost; 13 arrives late by 5 ms, which is 40 ticks.
    receiver.receive(65, PacketContext::dummy(), &packet(13, 480)).unwrap();
    let seen = receiver.reception();
    assert_eq!(seen.highest_seq, Some(11));
    assert_eq!(seen.cumulative_lost, 0);
    assert_eq!(seen.last_transit, Some(40));
    assert_eq!(seen.jitter_q4, 40);
    let out = receiver.flush();
    assert_eq!(out.len(), 1);
    let seen = receiver.reception();
    assert_eq!(seen.highest_seq, Some(13));
    assert_eq!(seen.cumulative_lost, 1);
    let report = receiver_report(99, receiver.ssrc().unwrap(), &seen);
    assert_eq!(&report[8..20], &[0, 0, 0, 1, 0, 0, 0, 1, 0, 0, 0, 13]);
    assert_eq!(&report[20..24], &[0, 0, 0, 2]);
}
