use bytes::Bytes;
use retina::client::receiver::Receiver;
use retina::context::PacketOrigin;
use retina::framing::{front, Codec, Front, Item, Parsed};
use retina::{ErrorKind, PacketContext};

const RTP_HEADER: [u8; 12] = [0x80, 0x60, 0x42, 0x69, 0x00, 0x30, 0xD4, 0x00, 0x12, 0x34, 0x56, 0x78];

#[test]
fn interleaved_rtp_on_channel_0_is_one_packet() {
    let mut buf = vec![0x24, 0x00, 0x00, 0x0C];
    buf.extend_from_slice(&RTP_HEADER);
    let mut codec = Codec::new(65_535);
    let decoded = codec.decode(&buf).unwrap().unwrap();
    assert_eq!(decoded.consumed, 16);
    assert_eq!(codec.read_pos(), 16);
    let (ctx, channel_id, data) = match decoded.item {
        Item::InterleavedData { ctx, channel_id, data } => (ctx, channel_id, data),
        other => panic!("unexpected item {:?}", other),
    };
    assert_eq!(ctx.pos(), 0);
    assert_eq!(channel_id, 0);
    assert_eq!(data, Bytes::from_static(&RTP_HEADER));

    let mut receiver = Receiver::new(0, None, 0x4269, 0x0030_D400, 90_000, 8, 100).unwrap();
    let packets = receiver.receive(0, PacketContext::tcp(ctx, channel_id), &data).unwrap();
    assert_eq!(packets.len(), 1);
    let packet = &packets[0];
    assert!(matches!(packet.ctx.origin(), PacketOrigin::Tcp { channel_id: 0, .. }));
    assert_eq!(packet.ctx.channel_id(), Some(0));
    assert_eq!(packet.sequence_number, 0x4269);
    assert_eq!(packet.ssrc, 0x1234_5678);
    assert_eq!(packet.timestamp.timestamp(), 3_200_000);
    assert_eq!(packet.loss, 0);
    assert!(!packet.mark);
    assert!(packet.payload.is_empty());
}

#[test]
fn interleaved_data_is_taken_one_by_one() {
    let buf = [0x24, 1, 0, 2, 0xAA, 0xBB, 0x24, 7, 0, 0, 0x24, 2, 0, 3, 1];
    let mut codec = Codec::new(1_000);
    let first = codec.decode(&buf).unwrap().unwrap();
    assert_eq!(first.consumed, 6);
    assert!(matches!(
        &first.item,
        Item::InterleavedData { ctx, channel_id: 1, data }
            if ctx.pos() == 0 && data[..] == [0xAA, 0xBB]
    ));
    let second = codec.decode(&buf[6..]).unwrap().unwrap();
    assert_eq!(second.consumed, 4);
    assert!(matches!(
        &second.item,
        Item::InterleavedData { ctx, channel_id: 7, data } if ctx.pos() == 6 && data.is_empty()
    ));
    assert_eq!(codec.read_pos(), 10);
    // The third lacks two bytes of its payload.
    assert!(codec.decode(&buf[10..]).unwrap().is_none());
    assert_eq!(codec.read_pos(), 10);
    assert!(codec.finish(5).is_err());
    assert!(codec.finish(0).is_ok());
}

#[test]
fn front_of_a_buffer() {
    assert_eq!(front(&[], 10), Front::NeedMore);
    assert_eq!(front(&[0x24], 10), Front::NeedMore);
    assert_eq!(front(&[0x24, 0, 0], 10), Front::NeedMore);
    assert_eq!(front(&[0x24, 9, 0, 0], 10), Front::Interleaved { channel_id: 9, len: 0 });
    assert_eq!(front(&[0x24, 9, 0, 1], 10), Front::NeedMore);
    assert_eq!(front(&[0x24, 9, 0, 1, 5], 10), Front::Interleaved { channel_id: 9, len: 1 });
    assert_eq!(front(&[0x24, 9, 0, 11], 10), Front::TooLong { len: 11 });
    assert_eq!(front(&[0x24, 9, 1, 2], 65_535), Front::NeedMore);
    assert_eq!(front(&[0x24, 9, 1, 2], 257), Front::TooLong { len: 258 });
    assert_eq!(front(&[0x24, 9, 0xFF, 0xFF], 65_534), Front::TooLong { len: 65_535 });
    assert_eq!(front(b"RTSP/1.0 200 OK\r\n", 10), Front::Text);
    assert_eq!(front(b"\r\n", 10), Front::Text);
}

#[test]
fn interleaved_data_over_the_limit_is_a_framing_error() {
    let mut codec = Codec::new(4);
    let ok = codec.decode(&[0x24, 0, 0, 4, 1, 2, 3, 4]).unwrap().unwrap();
    assert_eq!(ok.consumed, 8);
    let e = codec.decode(&[0x24, 0, 0, 5, 1, 2, 3, 4, 5]).unwrap_err();
    assert_eq!(e.kind(), ErrorKind::RtspFraming);
    assert!(e.kind().is_fatal());
    assert_eq!(e.description(), "interleaved data is longer than the limit");
    assert_eq!(e.msg_ctx().unwrap().pos(), 8);
    assert!(e.pkt_ctx().is_none());
    assert_eq!(codec.read_pos(), 8);
}

#[test]
fn rtsp_response_is_a_message() {
    let buf = b"RTSP/1.0 200 OK\r\nCSeq: 1\r\nPublic: OPTIONS, DESCRIBE\r\n\r\n$\x00\x00\x00";
    let mut codec = Codec::new(65_535);
    let decoded = codec.decode(buf).unwrap().unwrap();
    assert_eq!(decoded.consumed, buf.len() - 4);
    match decoded.item {
        Item::Message(received) => {
            assert_eq!(received.ctx.pos(), 0);
            match received.msg {
                rtsp_types::Message::Response(response) => {
                    assert_eq!(response.status(), rtsp_types::StatusCode::Ok);
                    assert_eq!(
                        response.header(&rtsp_types::headers::CSEQ).unwrap().as_str(),
                        "1"
                    );
                }
                other => panic!("unexpected message {:?}", other),
            }
        }
        other => panic!("unexpected item {:?}", other),
    }
    assert_eq!(codec.read_pos(), (buf.len() - 4) as u64);
    let next = codec.decode(&buf[decoded.consumed..]).unwrap().unwrap();
    assert!(matches!(
        next.item,
        Item::InterleavedData { ctx, channel_id: 0, .. } if ctx.pos() == (buf.len() - 4) as u64
    ));
}

#[test]
fn rtsp_response_with_body_is_taken_whole() {
    let buf = b"RTSP/1.0 200 OK\r\nCSeq: 2\r\nContent-Length: 5\r\n\r\nv=0\r\n";
    let mut codec = Codec::new(65_535);
    for end in 1..buf.len() {
        assert!(codec.decode(&buf[..end]).unwrap().is_none(), "{} bytes", end);
        assert_eq!(codec.read_pos(), 0);
    }
    let decoded = codec.decode(buf).unwrap().unwrap();
    assert_eq!(decoded.consumed, buf.len());
    match decoded.item {
        Item::Message(received) => match received.msg {
            rtsp_types::Message::Response(response) => assert_eq!(response.body(), b"v=0\r\n"),
            other => panic!("unexpected message {:?}", other),
        },
        other => panic!("unexpected item {:?}", other),
    }
}

#[test]
fn bytes_that_are_no_message_are_a_framing_error() {
    let mut codec = Codec::new(65_535);
    let first = codec.decode(&[0x24, 0, 0, 1, 9]).unwrap().unwrap();
    assert_eq!(first.consumed, 5);
    let e = codec.decode(b"\xFF\xFE not a message\r\n\r\n").unwrap_err();
    assert_eq!(e.kind(), ErrorKind::RtspFraming);
    assert_eq!(e.description(), "invalid RTSP message");
    assert_eq!(e.msg_ctx().unwrap().pos(), 5);
    assert_eq!(codec.read_pos(), 5);
}

#[test]
fn connection_that_ends_within_a_message_is_a_framing_error() {
    let mut codec = Codec::new(65_535);
    assert!(codec.decode(b"RTSP/1.0 200 OK\r\nCSeq").unwrap().is_none());
    let e = codec.finish(21).unwrap_err();
    assert_eq!(e.kind(), ErrorKind::RtspFraming);
    assert_eq!(e.description(), "connection ended within a message");
    assert_eq!(e.msg_ctx().unwrap().pos(), 0);
}

#[test]
fn frame_message_of_each_outcome() {
    let mut codec = Codec::new(10);
    assert!(codec.frame_message(Parsed::Incomplete).unwrap().is_none());
    assert_eq!(codec.read_pos(), 0);
    let e = codec.frame_message(Parsed::Invalid).unwrap_err();
    assert_eq!(e.kind(), ErrorKind::RtspFraming);
    assert_eq!(e.msg_ctx().unwrap().pos(), 0);
    let msg: rtsp_types::Message<Vec<u8>> = rtsp_types::Response::builder(
        rtsp_types::Version::V1_0,
        rtsp_types::StatusCode::Ok,
    )
    .build(Vec::new())
    .into();
    let decoded = codec.frame_message(Parsed::Complete { msg: msg.clone(), consumed: 19 })
        .unwrap()
        .unwrap();
    assert_eq!(decoded.consumed, 19);
    assert!(matches!(decoded.item, Item::Message(received) if received.msg == msg));
    assert_eq!(codec.read_pos(), 19);
    let decoded = codec.frame_message(Parsed::Complete { msg, consumed: 1 }).unwrap().unwrap();
    assert!(matches!(decoded.item, Item::Message(received) if received.ctx.pos() == 19));
    assert_eq!(codec.read_pos(), 20);
}
