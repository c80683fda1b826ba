use bytes::Bytes;
use retina::client::receiver::Receiver;
use retina::client::reorder::{DEFAULT_MAX_REORDER, DEFAULT_REORDER_TIMEOUT_MS};
use retina::client::stream::{Corruption, Stream};
use retina::codec::{CodecItem, Depacketizer};
use retina::{ErrorKind, NtpTimestamp, PacketContext};

fn rtp(seq: u16, timestamp: u32, payload_len: usize) -> Bytes {
    let mut data = vec![0x80, 0];
    data.extend_from_slice(&seq.to_be_bytes());
    data.extend_from_slice(&timestamp.to_be_bytes());
    data.extend_from_slice(&[0, 0, 0, 1]);
    data.extend_from_slice(&vec![0x11; payload_len]);
    Bytes::from(data)
}

fn stream(initial_seq: u16, threshold: u32) -> Stream {
    assert_eq!(DEFAULT_MAX_REORDER, 8);
    assert_eq!(DEFAULT_REORDER_TIMEOUT_MS, 100);
    let receiver = Receiver::new(
        0,
        None,
        initial_seq,
        0,
        16_000,
        DEFAULT_MAX_REORDER,
        DEFAULT_REORDER_TIMEOUT_MS,
    )
    .unwrap();
    Stream::new(receiver, Depacketizer::simple_audio(16_000, 16), threshold)
}

fn frames(items: &[CodecItem]) -> Vec<(i64, u32, u16)> {
    items
        .iter()
        .map(|item| match item {
            CodecItem::AudioFrame(f) => (f.timestamp.timestamp(), f.frame_length, f.loss),
            other => panic!("unexpected item {:?}", other),
        })
        .collect()
}

#[test]
fn packets_become_frames_in_order() {
    let mut s = stream(4, 10);
    let mut items = Vec::new();
    for (at, seq) in [5u16, 6, 4, 7].into_iter().enumerate() {
        let r = s.receive(at as u64, PacketContext::dummy(), &rtp(seq, 160 * u32::from(seq), 320));
        assert!(r.errors.is_empty());
        items.extend(r.items);
    }
    assert_eq!(
        frames(&items),
        vec![(640, 160, 0), (800, 160, 0), (960, 160, 0), (1_120, 160, 0)]
    );
    assert!(!s.is_corrupt());
    assert!(s.has_room());
    assert_eq!(s.deadline(), None);
}

#[test]
fn lost_packets_show_in_the_next_frame() {
    let mut s = stream(0, 10);
    assert_eq!(frames(&s.receive(0, PacketContext::dummy(), &rtp(0, 0, 2)).items), vec![(0, 1, 0)]);
    assert!(s.receive(5, PacketContext::dummy(), &rtp(3, 3, 2)).items.is_empty());
    assert_eq!(s.deadline(), Some(105));
    assert!(s.poll(104).items.is_empty());
    assert_eq!(frames(&s.poll(105).items), vec![(3, 1, 2)]);
    assert!(s.receive(6, PacketContext::dummy(), &rtp(5, 5, 4)).items.is_empty());
    assert_eq!(frames(&s.flush().items), vec![(5, 2, 1)]);
}

#[test]
fn malformed_payload_is_said_and_the_stream_goes_on() {
    let mut s = stream(0, 10);
    let r = s.receive(0, PacketContext::dummy(), &rtp(0, 0, 319));
    assert!(r.items.is_empty());
    assert_eq!(r.errors.len(), 1);
    assert_eq!(r.errors[0].kind(), ErrorKind::RtpMalformed);
    assert_eq!(
        r.errors[0].description(),
        "invalid length 319 for payload of 16-bit audio samples"
    );
    let r = s.receive(1, PacketContext::dummy(), &rtp(1, 160, 320));
    assert!(r.errors.is_empty());
    assert_eq!(frames(&r.items), vec![(160, 160, 0)]);
    assert!(!s.is_corrupt());
}

#[test]
fn malformed_header_is_said_and_changes_nothing() {
    let mut s = stream(0, 10);
    let r = s.receive(0, PacketContext::dummy(), &Bytes::from_static(b"\x80\x00"));
    assert!(r.items.is_empty());
    assert_eq!(r.errors.len(), 1);
    assert_eq!(r.errors[0].description(), "RTP packet is shorter than its header");
    let r = s.receive(1, PacketContext::dummy(), &rtp(0, 0, 2));
    assert_eq!(frames(&r.items), vec![(0, 1, 0)]);
}

#[test]
fn faults_in_a_row_are_sustained_corruption() {
    let mut s = stream(0, 3);
    s.receive(0, PacketContext::dummy(), &rtp(0, 0, 1));
    s.receive(0, PacketContext::dummy(), &Bytes::new());
    assert!(!s.is_corrupt());
    // A good packet in between starts the count anew.
    s.receive(0, PacketContext::dummy(), &rtp(1, 0, 2));
    s.receive(0, PacketContext::dummy(), &rtp(2, 0, 1));
    s.receive(0, PacketContext::dummy(), &rtp(3, 0, 3));
    assert!(!s.is_corrupt());
    s.receive(0, PacketContext::dummy(), &Bytes::new());
    assert!(s.is_corrupt());
    // It stays so.
    s.receive(0, PacketContext::dummy(), &rtp(4, 0, 2));
    assert!(s.is_corrupt());
}

#[test]
fn corruption_counts_faults_in_a_row() {
    let mut c = Corruption::new(2);
    c.note(true);
    assert_eq!(c, Corruption { threshold: 2, in_a_row: 1, sustained: false });
    c.note(false);
    assert_eq!(c, Corruption { threshold: 2, in_a_row: 0, sustained: false });
    c.note(true);
    c.note(true);
    assert_eq!(c, Corruption { threshold: 2, in_a_row: 2, sustained: true });
    c.note(false);
    assert_eq!(c, Corruption { threshold: 2, in_a_row: 0, sustained: true });
    let mut c = Corruption { threshold: 0, in_a_row: u32::MAX, sustained: false };
    c.note(true);
    assert_eq!(c, Corruption { threshold: 0, in_a_row: u32::MAX, sustained: true });
    let mut c = Corruption::new(0);
    c.note(false);
    assert!(!c.sustained);
    c.note(true);
    assert!(c.sustained);
}

#[test]
fn sender_report_is_an_item_of_the_stream() {
    let s = stream(0, 3);
    let mut b = vec![0x80, 200, 0, 6, 0, 0, 0, 1];
    b.extend_from_slice(&0xE3F1_0000_4000_0000u64.to_be_bytes());
    b.extend_from_slice(&16_000u32.to_be_bytes());
    b.extend_from_slice(&[0; 8]);
    match s.receive_rtcp(PacketContext::dummy(), &b) {
        Some(CodecItem::SenderReport(report)) => {
            assert_eq!(report.ntp_timestamp, NtpTimestamp(0xE3F1_0000_4000_0000));
            assert_eq!(report.timestamp.elapsed(), 16_000);
            assert_eq!(report.stream_id, 0);
        }
        other => panic!("unexpected item {:?}", other),
    }
    assert!(s.receive_rtcp(PacketContext::dummy(), &[]).is_none());
}
