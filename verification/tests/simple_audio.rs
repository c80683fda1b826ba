use bytes::Bytes;
use retina::client::rtp::Packet;
use retina::codec::simple_audio::{invalid_length_text, Depacketizer};
use retina::codec::{CodecItem, Parameters};
use retina::{PacketContext, Timestamp};

fn packet(payload_len: usize, loss: u16) -> Packet {
    Packet {
        ctx: PacketContext::dummy(),
        stream_id: 3,
        timestamp: Timestamp::new(48_000, 16_000, 0).unwrap(),
        ssrc: 0x1234_5678,
        sequence_number: 17,
        loss,
        mark: false,
        payload: Bytes::from(vec![0x5Au8; payload_len]),
    }
}

#[test]
fn frame_of_320_bytes_of_16_bit_samples_has_160_samples() {
    let mut d = Depacketizer::new(16_000, 16);
    assert!(d.pull().is_none());
    d.push(packet(320, 2)).unwrap();
    match d.pull() {
        Some(CodecItem::AudioFrame(frame)) => {
            assert_eq!(frame.frame_length, 160);
            assert_eq!(frame.loss, 2);
            assert_eq!(frame.stream_id, 3);
            assert_eq!(frame.timestamp.timestamp(), 48_000);
            assert_eq!(frame.data, Bytes::from(vec![0x5Au8; 320]));
        }
        other => panic!("no frame: {:?}", other),
    }
    assert!(d.pull().is_none());
}

#[test]
fn payload_of_319_bytes_of_16_bit_samples_is_refused() {
    let mut d = Depacketizer::new(16_000, 16);
    let e = d.push(packet(319, 0)).unwrap_err();
    assert_eq!(e, "invalid length 319 for payload of 16-bit audio samples");
    assert!(d.pull().is_none());
    // The depacketizer can go on.
    d.push(packet(2, 0)).unwrap();
    assert!(matches!(d.pull(), Some(CodecItem::AudioFrame(f)) if f.frame_length == 1));
}

#[test]
fn push_succeeds_exactly_on_whole_samples() {
    for bits in [1u32, 4, 8, 12, 16, 20, 24, 32, 7] {
        for len in 0usize..64 {
            let mut d = Depacketizer::new(8_000, bits);
            let whole = (8 * len as u32) % bits == 0;
            let r = d.push(packet(len, 0));
            assert_eq!(r.is_ok(), whole, "{} bytes of {}-bit samples", len, bits);
            match d.pull() {
                Some(CodecItem::AudioFrame(f)) => {
                    assert!(whole);
                    assert_eq!(f.frame_length, 8 * len as u32 / bits);
                    assert_eq!(f.data.len(), len);
                }
                None => assert!(!whole),
                other => panic!("unexpected item {:?}", other),
            }
        }
    }
}

#[test]
fn empty_payload_is_a_frame_without_samples() {
    let mut d = Depacketizer::new(8_000, 8);
    d.push(packet(0, 0)).unwrap();
    assert!(matches!(d.pull(), Some(CodecItem::AudioFrame(f)) if f.frame_length == 0));
}

#[test]
fn payload_of_65535_bytes_is_refused() {
    let mut d = Depacketizer::new(8_000, 8);
    let e = d.push(packet(65_535, 0)).unwrap_err();
    assert_eq!(e, "invalid length 65535 for payload of 8-bit audio samples");
    assert!(d.pull().is_none());
    let mut d = Depacketizer::new(8_000, 8);
    d.push(packet(65_534, 0)).unwrap();
    assert!(matches!(d.pull(), Some(CodecItem::AudioFrame(f)) if f.frame_length == 65_534));
    let mut d = Depacketizer::new(8_000, 8);
    assert!(d.push(packet(70_000, 0)).is_err());
}

#[test]
fn frame_length_of_payload_lengths() {
    let d = Depacketizer::new(8_000, 16);
    assert_eq!(d.frame_length(320), Some(160));
    assert_eq!(d.frame_length(319), None);
    assert_eq!(d.frame_length(0), Some(0));
    let d = Depacketizer::new(8_000, 12);
    assert_eq!(d.frame_length(3), Some(2));
    assert_eq!(d.frame_length(4), None);
    assert_eq!(d.frame_length(65_534), None);
    assert_eq!(d.frame_length(65_532), Some(43_688));
}

#[test]
fn parameters_are_known_from_the_start() {
    let d = Depacketizer::new(44_100, 16);
    match d.parameters() {
        Some(Parameters::Audio(p)) => {
            assert_eq!(p.clock_rate, 44_100);
            assert_eq!(p.frame_length, None);
            assert_eq!(p.rfc6381_codec, None);
            assert!(p.extra_data.is_empty());
            assert_eq!(p.sample_entry, None);
        }
        None => panic!("no parameters"),
    }
}

#[test]
fn invalid_length_text_names_both_numbers() {
    assert_eq!(
        invalid_length_text(0, 4_294_967_295),
        "invalid length 0 for payload of 4294967295-bit audio samples"
    );
    assert_eq!(
        invalid_length_text(1_000_001, 24),
        "invalid length 1000001 for payload of 24-bit audio samples"
    );
}

#[test]
fn any_sample_width_makes_a_depacketizer() {
    let mut d = Depacketizer::new(8_000, 0);
    assert!(d.pull().is_none());
    match d.parameters() {
        Some(retina::codec::Parameters::Audio(p)) => assert_eq!(p.clock_rate, 8_000),
        None => panic!("no parameters"),
    }
    let mut d = retina::codec::Depacketizer::simple_audio(8_000, 0);
    assert!(d.pull().is_none());
    assert!(d.parameters().is_some());
}
