use bytes::Bytes;
use retina::client::rtp::Packet;
use retina::codec::{CodecItem, Depacketizer, Parameters};
use retina::{ErrorKind, PacketContext, RtspMessageContext, Timestamp};

fn packet(payload_len: usize) -> Packet {
    Packet {
        ctx: PacketContext::tcp(RtspMessageContext::dummy(), 2),
        stream_id: 1,
        timestamp: Timestamp::new(1_600, 16_000, 0).unwrap(),
        ssrc: 1,
        sequence_number: 2,
        loss: 0,
        mark: false,
        payload: Bytes::from(vec![0u8; payload_len]),
    }
}

#[test]
fn audio_payload_of_320_bytes_is_one_frame_of_160_samples() {
    let mut d = Depacketizer::simple_audio(16_000, 16);
    d.push(packet(320)).unwrap();
    match d.pull() {
        Some(CodecItem::AudioFrame(frame)) => {
            assert_eq!(frame.frame_length, 160);
            assert_eq!(frame.data.len(), 320);
            assert_eq!(frame.timestamp.elapsed(), 1_600);
            assert_eq!(frame.ctx.channel_id(), Some(2));
        }
        other => panic!("no frame: {:?}", other),
    }
    assert!(d.pull().is_none());
}

#[test]
fn audio_payload_of_319_bytes_is_malformed() {
    let mut d = Depacketizer::simple_audio(16_000, 16);
    let e = d.push(packet(319)).unwrap_err();
    assert_eq!(e.kind(), ErrorKind::RtpMalformed);
    assert_eq!(e.description(), "invalid length 319 for payload of 16-bit audio samples");
    assert_eq!(e.pkt_ctx().unwrap().channel_id(), Some(2));
    assert!(e.msg_ctx().is_none());
    assert!(d.pull().is_none());
    // The error is shared by its clones.
    let copy = e.clone();
    assert_eq!(copy.kind(), ErrorKind::RtpMalformed);
    assert_eq!(copy.description(), e.description());
}

#[test]
fn dispatcher_knows_the_parameters() {
    let d = Depacketizer::simple_audio(8_000, 8);
    assert!(matches!(d.parameters(), Some(Parameters::Audio(p)) if p.clock_rate == 8_000));
}

#[test]
fn only_errors_of_single_packets_are_not_fatal() {
    for kind in [
        ErrorKind::ConnectionFailed,
        ErrorKind::RtspFraming,
        ErrorKind::RtspResponse,
        ErrorKind::Unauthorized,
        ErrorKind::SdpInvalid,
        ErrorKind::SessionTimeout,
        ErrorKind::Cancelled,
    ] {
        assert!(kind.is_fatal(), "{:?}", kind);
    }
    for kind in [
        ErrorKind::RtpLoss,
        ErrorKind::RtpMalformed,
        ErrorKind::RtpUnknownPayloadType,
        ErrorKind::Depacketizer,
    ] {
        assert!(!kind.is_fatal(), "{:?}", kind);
    }
}

#[test]
fn error_on_a_connection_has_its_context() {
    let local = retina::SocketAddress::V4 { ip: 0x0A00_0001, port: 40_000 };
    let peer = retina::SocketAddress::V4 { ip: 0x0A00_0002, port: 554 };
    let ctx = retina::ConnectionContext::established_now(local, peer);
    let e = retina::Error::on_connection(
        ErrorKind::ConnectionFailed,
        String::from("connection refused"),
        ctx,
    );
    assert_eq!(e.kind(), ErrorKind::ConnectionFailed);
    assert_eq!(e.description(), "connection refused");
    assert_eq!(e.conn_ctx().unwrap().peer_addr(), peer);
    assert!(e.msg_ctx().is_none());
    assert!(e.pkt_ctx().is_none());
}

#[test]
fn plain_error_has_no_context() {
    let e = retina::Error::new(ErrorKind::SessionTimeout, String::from("no answer"));
    assert_eq!(e.kind(), ErrorKind::SessionTimeout);
    assert_eq!(e.description(), "no answer");
    assert!(e.conn_ctx().is_none());
    assert!(e.msg_ctx().is_none());
    assert!(e.pkt_ctx().is_none());
}
