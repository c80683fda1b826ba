use retina::context::{
    connection_text, message_context_text, tcp_packet_text, udp_packet_text, PacketOrigin,
};
use retina::{ConnectionContext, PacketContext, RtspMessageContext, SocketAddress, WallTime};

#[test]
fn connection_text_marks_the_local_side() {
    assert_eq!(
        connection_text("192.168.1.2:50000", "192.168.1.9:554", "2021-03-07T16:20:00"),
        "192.168.1.2:50000(me)->192.168.1.9:554@2021-03-07T16:20:00"
    );
}

#[test]
fn message_context_text_is_position_and_time() {
    assert_eq!(message_context_text(0, "t"), "0@t");
    assert_eq!(
        message_context_text(18_446_744_073_709_551_615, "2021-03-07T16:20:00"),
        "18446744073709551615@2021-03-07T16:20:00"
    );
    assert_eq!(message_context_text(1_000, ""), "1000@");
}

#[test]
fn packet_texts() {
    assert_eq!(tcp_packet_text("1234@2021-03-07T16:20:00", 0), "1234@2021-03-07T16:20:00 ch=0");
    assert_eq!(tcp_packet_text("x", 255), "x ch=255");
    assert_eq!(
        udp_packet_text("192.168.1.9:6970", "192.168.1.2:5000", "2021-03-07T16:20:00"),
        "192.168.1.9:6970->192.168.1.2:5000@2021-03-07T16:20:00"
    );
}

#[test]
fn dummy_contexts() {
    let c = ConnectionContext::dummy();
    assert_eq!(c.local_addr(), SocketAddress::V4 { ip: 0, port: 0 });
    assert_eq!(c.peer_addr(), SocketAddress::V4 { ip: 0, port: 0 });
    let m = RtspMessageContext::dummy();
    assert_eq!(m.pos(), 0);
    assert!(m.received() <= std::time::Instant::now());
    let p = PacketContext::dummy();
    assert!(matches!(p.origin(), PacketOrigin::Dummy));
    assert_eq!(p.channel_id(), None);
    assert_eq!(p.to_text("", "").unwrap(), "dummy");
}

#[test]
fn message_context_to_text_starts_with_the_position() {
    let m = RtspMessageContext::received_now(4_321);
    assert_eq!(m.pos(), 4_321);
    let wall = m.received_wall().to_text().unwrap();
    assert_eq!(m.to_text().unwrap(), format!("4321@{}", wall));
}

#[test]
fn tcp_packet_context_names_the_channel() {
    let m = RtspMessageContext::received_now(77);
    let p = PacketContext::tcp(m, 2);
    assert_eq!(p.channel_id(), Some(2));
    let wall = m.received_wall().to_text().unwrap();
    assert_eq!(p.to_text("ignored", "ignored").unwrap(), format!("77@{} ch=2", wall));
}

#[test]
fn udp_packet_context_prints_the_peer_first() {
    let local = SocketAddress::V4 { ip: 0xC0A8_0102, port: 5_000 };
    let peer = SocketAddress::V6 { ip: 1, port: 6_970, flowinfo: 0, scope_id: 0 };
    let p = PacketContext::udp_now(local, peer);
    assert_eq!(p.channel_id(), None);
    match p.origin() {
        PacketOrigin::Udp { local_addr, peer_addr, received_wall, .. } => {
            assert_eq!(local_addr, local);
            assert_eq!(peer_addr, peer);
            assert_eq!(local_addr.port(), 5_000);
            assert_eq!(peer_addr.port(), 6_970);
            let wall = received_wall.to_text().unwrap();
            assert_eq!(
                p.to_text("192.168.1.2:5000", "[::1]:6970").unwrap(),
                format!("[::1]:6970->192.168.1.2:5000@{}", wall)
            );
        }
        other => panic!("unexpected origin {:?}", other),
    }
}

#[test]
fn connection_context_to_text() {
    let local = SocketAddress::V4 { ip: 0x7F00_0001, port: 40_000 };
    let peer = SocketAddress::V4 { ip: 0x7F00_0001, port: 554 };
    let c = ConnectionContext::established_now(local, peer);
    assert_eq!(c.local_addr(), local);
    assert_eq!(c.peer_addr(), peer);
    assert!(c.established() <= std::time::Instant::now());
    let wall = c.established_wall().to_text().unwrap();
    assert_eq!(
        c.to_text("127.0.0.1:40000", "127.0.0.1:554").unwrap(),
        format!("127.0.0.1:40000(me)->127.0.0.1:554@{}", wall)
    );
}

#[test]
fn wall_time_text_is_the_local_calendar_form() {
    let w = WallTime::from_parts(1_615_130_400, 123);
    assert_eq!(w.sec(), 1_615_130_400);
    assert_eq!(w.nsec(), 123);
    let expected = time::at(time::Timespec { sec: 1_615_130_400, nsec: 123 })
        .strftime("%FT%T")
        .unwrap()
        .to_string();
    assert_eq!(w.to_text().unwrap(), expected);
    assert_eq!(expected.len(), 19);
}

#[test]
fn wall_time_without_calendar_form_has_no_text() {
    assert!(WallTime::from_parts(-1, 0).to_text().is_none());
    assert!(WallTime::from_parts(253_402_300_800, 0).to_text().is_none());
    assert!(WallTime::from_parts(i64::MAX, 0).to_text().is_none());
    assert!(WallTime::from_parts(0, 0).to_text().is_some());
    assert!(WallTime::from_parts(253_402_300_799, 0).to_text().is_some());
}

#[test]
fn wall_time_now_is_a_recent_moment() {
    let w = WallTime::now();
    assert!(w.sec() > 1_600_000_000);
    assert!((0..1_000_000_000).contains(&w.nsec()));
    assert!(w.to_text().is_some());
}

#[test]
fn contexts_of_now_have_a_text() {
    assert!(RtspMessageContext::dummy().to_text().is_some());
    assert!(ConnectionContext::dummy().to_text("0.0.0.0:0", "0.0.0.0:0").is_some());
    for sec in [0i64, 1, 86_399, 951_782_400, 4_102_444_800, 253_402_300_799] {
        let text = WallTime::from_parts(sec, 999_999_999).to_text().unwrap();
        assert!(text.len() >= 19, "{}", text);
        assert_eq!(text.as_bytes()[text.len() - 9], b'T');
    }
}

#[test]
fn contexts_keep_their_moment() {
    let before = std::time::Instant::now();
    let c = ConnectionContext::dummy();
    let m = RtspMessageContext::received_now(9);
    let after = std::time::Instant::now();
    assert_eq!(c.established(), c.established());
    assert_eq!(m.received(), m.received());
    assert!(before <= c.established() && c.established() <= m.received());
    assert!(m.received() <= after);
}
