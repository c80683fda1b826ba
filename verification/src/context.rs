//! Contexts: small values that say where a connection, a message or a packet
//! came from, so that it can be found again in a packet capture.
//!
//! Addresses are held as plain numbers. Their printed form is not decided
//! here: the functions that print a context take each address as text.

use crate::clock::{has_calendar_form, monotonic_now, WallTime};
use crate::text::{decimal, push_decimal};
use vstd::prelude::*;
use vstd::string::StringExecFns;

verus! {

/// An IP address with a port, in plain numbers.
#[allow(inconsistent_fields)]
#[derive(Copy, Clone, Debug, PartialEq, Eq, Structural)]
pub enum SocketAddress {
    /// An IPv4 address, its four octets from the most significant down.
    V4 { ip: u32, port: u16 },
    /// An IPv6 address, its sixteen octets from the most significant down,
    /// with the flow information and the scope of its socket address.
    V6 { ip: u128, port: u16, flowinfo: u32, scope_id: u32 },
}

impl SocketAddress {
    /// The IPv4 address `0.0.0.0` with port 0.
    pub fn unspecified() -> (r: SocketAddress)
        ensures
            r == (SocketAddress::V4 { ip: 0, port: 0 }),
    {
        SocketAddress::V4 { ip: 0, port: 0 }
    }

    /// The port.
    pub fn port(&self) -> (r: u16)
        ensures
            r == match *self {
                SocketAddress::V4 { port, .. } => port,
                SocketAddress::V6 { port, .. } => port,
            },
    {
        match *self {
            SocketAddress::V4 { port, .. } => port,
            SocketAddress::V6 { port, .. } => port,
        }
    }
}

/// RTSP connection context.
///
/// This gives enough information to pick out the flow in a packet capture.
#[derive(Copy, Clone, Debug)]
pub struct ConnectionContext {
    local_addr: SocketAddress,
    peer_addr: SocketAddress,
    established_wall: WallTime,
    established: std::time::Instant,
}

/// The printed form of a connection, seen from the client: the local address,
/// marked as ours, then the peer's and the time of establishment.
pub open spec fn spec_connection_text(
    local_addr: Seq<char>,
    peer_addr: Seq<char>,
    established_wall: Seq<char>,
) -> Seq<char> {
    local_addr + seq!['(', 'm', 'e', ')', '-', '>'] + peer_addr + seq!['@'] + established_wall
}

/// Prints a connection from the printed forms of its parts.
pub fn connection_text(local_addr: &str, peer_addr: &str, established_wall: &str) -> (r: String)
    ensures
        r@ == spec_connection_text(local_addr@, peer_addr@, established_wall@),
{
    proof {
        reveal_strlit("(me)->");
        reveal_strlit("@");
    }
    let mut out = String::from_str(local_addr);
    out.append("(me)->");
    out.append(peer_addr);
    out.append("@");
    out.append(established_wall);
    assert(out@ =~= spec_connection_text(local_addr@, peer_addr@, established_wall@));
    out
}

impl ConnectionContext {
    /// The local address of the connection.
    pub closed spec fn spec_local_addr(&self) -> SocketAddress {
        self.local_addr
    }

    /// The peer's address.
    pub closed spec fn spec_peer_addr(&self) -> SocketAddress {
        self.peer_addr
    }

    /// The wall time at which the connection was established.
    pub closed spec fn spec_established_wall(&self) -> WallTime {
        self.established_wall
    }

    /// The moment on the monotonic clock at which the connection was
    /// established.
    pub closed spec fn spec_established(&self) -> std::time::Instant {
        self.established
    }

    /// The context of a connection between the two addresses that is
    /// established now.
    pub fn established_now(local_addr: SocketAddress, peer_addr: SocketAddress) -> (r:
        ConnectionContext)
        ensures
            r.spec_local_addr() == local_addr,
            r.spec_peer_addr() == peer_addr,
    {
        ConnectionContext {
            local_addr,
            peer_addr,
            established_wall: WallTime::now(),
            established: monotonic_now(),
        }
    }

    /// A context for use where there is no connection: both addresses are
    /// `0.0.0.0:0`, and the time is now.
    pub fn dummy() -> (r: ConnectionContext)
        ensures
            r.spec_local_addr() == (SocketAddress::V4 { ip: 0, port: 0 }),
            r.spec_peer_addr() == (SocketAddress::V4 { ip: 0, port: 0 }),
    {
        let addr = SocketAddress::unspecified();
        ConnectionContext {
            local_addr: addr,
            peer_addr: addr,
            established_wall: WallTime::now(),
            established: monotonic_now(),
        }
    }

    /// The local address of the connection.
    pub fn local_addr(&self) -> (r: SocketAddress)
        ensures
            r == self.spec_local_addr(),
    {
        self.local_addr
    }

    /// The peer's address.
    pub fn peer_addr(&self) -> (r: SocketAddress)
        ensures
            r == self.spec_peer_addr(),
    {
        self.peer_addr
    }

    /// The wall time at which the connection was established.
    pub fn established_wall(&self) -> (r: WallTime)
        ensures
            r == self.spec_established_wall(),
    {
        self.established_wall
    }

    /// The moment on the monotonic clock at which the connection was
    /// established.
    pub fn established(&self) -> (r: std::time::Instant)
        ensures
            r == self.spec_established(),
    {
        self.established
    }

    /// Prints the context, with the two addresses printed as given. There is
    /// a text exactly where the time of establishment has one: where it has
    /// a calendar form.
    pub fn to_text(&self, local_addr: &str, peer_addr: &str) -> (r: Option<String>)
        ensures
            r is Some <==> has_calendar_form(self.spec_established_wall()@.sec),
            r matches Some(text) ==> exists|wall: Seq<char>|
                text@ == #[trigger] spec_connection_text(local_addr@, peer_addr@, wall),
    {
        match self.established_wall.to_text() {
            Some(wall) => {
                let text = connection_text(local_addr, peer_addr, wall.as_str());
                assert(text@ == spec_connection_text(local_addr@, peer_addr@, wall@));
                Some(text)
            },
            None => None,
        }
    }
}

/// Context of a received message (or read error) within an RTSP connection.
///
/// When paired with a [`ConnectionContext`], this should allow picking the
/// message out of a packet capture.
#[derive(Copy, Clone, Debug)]
pub struct RtspMessageContext {
    /// The starting byte position within the input stream. The bottom 32 bits
    /// can be compared to the relative TCP sequence number.
    pos: u64,
    /// Time when the application parsed the message. Caveat: this may not
    /// closely match the time on a packet capture if the application is
    /// overloaded (or if the realtime clock jumps).
    received_wall: WallTime,
    received: std::time::Instant,
}

/// The printed form of a message context: the position, then the time of
/// reception.
pub open spec fn spec_message_context_text(pos: nat, received_wall: Seq<char>) -> Seq<char> {
    decimal(pos) + seq!['@'] + received_wall
}

/// Prints a message context from its position and the printed form of its
/// time of reception.
pub fn message_context_text(pos: u64, received_wall: &str) -> (r: String)
    ensures
        r@ == spec_message_context_text(pos as nat, received_wall@),
{
    proof {
        reveal_strlit("@");
    }
    let mut out = String::new();
    push_decimal(&mut out, pos);
    out.append("@");
    out.append(received_wall);
    assert(out@ =~= spec_message_context_text(pos as nat, received_wall@));
    out
}

impl RtspMessageContext {
    /// The starting byte position within the input stream.
    pub closed spec fn spec_pos(&self) -> u64 {
        self.pos
    }

    /// The wall time at which the message was received.
    pub closed spec fn spec_received_wall(&self) -> WallTime {
        self.received_wall
    }

    /// The moment on the monotonic clock at which the message was received.
    pub closed spec fn spec_received(&self) -> std::time::Instant {
        self.received
    }

    /// The context of a message that starts at `pos` and is received now.
    pub fn received_now(pos: u64) -> (r: RtspMessageContext)
        ensures
            r.spec_pos() == pos,
    {
        RtspMessageContext { pos, received_wall: WallTime::now(), received: monotonic_now() }
    }

    /// A context for use where there is no message: position 0, received
    /// now.
    pub fn dummy() -> (r: RtspMessageContext)
        ensures
            r.spec_pos() == 0,
    {
        RtspMessageContext { pos: 0, received_wall: WallTime::now(), received: monotonic_now() }
    }

    /// The moment on the monotonic clock at which the message was received.
    pub fn received(&self) -> (r: std::time::Instant)
        ensures
            r == self.spec_received(),
    {
        self.received
    }

    /// The wall time at which the message was received.
    pub fn received_wall(&self) -> (r: WallTime)
        ensures
            r == self.spec_received_wall(),
    {
        self.received_wall
    }

    /// The starting byte position within the input stream.
    pub fn pos(&self) -> (r: u64)
        ensures
            r == self.spec_pos(),
    {
        self.pos
    }

    /// Prints the context. There is a text exactly where the time of
    /// reception has one: where it has a calendar form.
    pub fn to_text(&self) -> (r: Option<String>)
        ensures
            r is Some <==> has_calendar_form(self.spec_received_wall()@.sec),
            r matches Some(text) ==> exists|wall: Seq<char>|
                text@ == #[trigger] spec_message_context_text(self.spec_pos() as nat, wall),
    {
        match self.received_wall.to_text() {
            Some(wall) => {
                let text = message_context_text(self.pos, wall.as_str());
                assert(text@ == spec_message_context_text(self.spec_pos() as nat, wall@));
                Some(text)
            },
            None => None,
        }
    }
}

/// Where a packet came from.
#[derive(Copy, Clone, Debug)]
pub enum PacketOrigin {
    /// Interleaved data on the RTSP connection.
    Tcp { msg_ctx: RtspMessageContext, channel_id: u8 },
    /// A UDP datagram.
    Udp {
        local_addr: SocketAddress,
        peer_addr: SocketAddress,
        received_wall: WallTime,
        received: std::time::Instant,
    },
    /// Nowhere: it stands in where there is no packet.
    Dummy,
}

/// Context for an RTP or RTCP packet, received either via RTSP interleaved
/// data or UDP.
///
/// Should be paired with the [`ConnectionContext`] of the RTSP connection that
/// started the session. In the interleaved data case, it's assumed the packet
/// was received over that same connection.
#[derive(Copy, Clone, Debug)]
pub struct PacketContext(PacketOrigin);

/// The printed form of the context of an interleaved packet: the message
/// context, then the channel.
pub open spec fn spec_tcp_packet_text(msg_ctx: Seq<char>, channel_id: u8) -> Seq<char> {
    msg_ctx + seq![' ', 'c', 'h', '='] + decimal(channel_id as nat)
}

/// The printed form of the context of a UDP packet: the sender first, then
/// the receiver and the time of reception.
pub open spec fn spec_udp_packet_text(
    peer_addr: Seq<char>,
    local_addr: Seq<char>,
    received_wall: Seq<char>,
) -> Seq<char> {
    peer_addr + seq!['-', '>'] + local_addr + seq!['@'] + received_wall
}

/// The printed form of the context that stands in for none.
pub open spec fn spec_dummy_packet_text() -> Seq<char> {
    seq!['d', 'u', 'm', 'm', 'y']
}

/// Prints the context of an interleaved packet from the printed form of its
/// message context and its channel.
pub fn tcp_packet_text(msg_ctx: &str, channel_id: u8) -> (r: String)
    ensures
        r@ == spec_tcp_packet_text(msg_ctx@, channel_id),
{
    proof {
        reveal_strlit(" ch=");
    }
    let mut out = String::from_str(msg_ctx);
    out.append(" ch=");
    push_decimal(&mut out, channel_id as u64);
    assert(out@ =~= spec_tcp_packet_text(msg_ctx@, channel_id));
    out
}

/// Prints the context of a UDP packet from the printed forms of its parts.
pub fn udp_packet_text(peer_addr: &str, local_addr: &str, received_wall: &str) -> (r: String)
    ensures
        r@ == spec_udp_packet_text(peer_addr@, local_addr@, received_wall@),
{
    proof {
        reveal_strlit("->");
        reveal_strlit("@");
    }
    let mut out = String::from_str(peer_addr);
    out.append("->");
    out.append(local_addr);
    out.append("@");
    out.append(received_wall);
    assert(out@ =~= spec_udp_packet_text(peer_addr@, local_addr@, received_wall@));
    out
}

impl PacketContext {
    /// Where the packet came from.
    pub closed spec fn spec_origin(&self) -> PacketOrigin {
        self.0
    }

    /// The context of an interleaved packet that was read as the message
    /// `msg_ctx` on the channel `channel_id`.
    pub fn tcp(msg_ctx: RtspMessageContext, channel_id: u8) -> (r: PacketContext)
        ensures
            r.spec_origin() == (PacketOrigin::Tcp { msg_ctx, channel_id }),
    {
        PacketContext(PacketOrigin::Tcp { msg_ctx, channel_id })
    }

    /// The context of a UDP packet from `peer_addr` that is received on
    /// `local_addr` now.
    pub fn udp_now(local_addr: SocketAddress, peer_addr: SocketAddress) -> (r: PacketContext)
        ensures
            r.spec_origin() matches PacketOrigin::Udp { local_addr: l, peer_addr: p, .. } && l
                == local_addr && p == peer_addr,
    {
        PacketContext(
            PacketOrigin::Udp {
                local_addr,
                peer_addr,
                received_wall: WallTime::now(),
                received: monotonic_now(),
            },
        )
    }

    /// A context for use where there is no packet.
    pub fn dummy() -> (r: PacketContext)
        ensures
            r.spec_origin() is Dummy,
    {
        PacketContext(PacketOrigin::Dummy)
    }

    /// Where the packet came from.
    pub fn origin(&self) -> (r: PacketOrigin)
        ensures
            r == self.spec_origin(),
    {
        self.0
    }

    /// The channel of an interleaved packet.
    pub fn channel_id(&self) -> (r: Option<u8>)
        ensures
            r == match self.spec_origin() {
                PacketOrigin::Tcp { channel_id, .. } => Some(channel_id),
                _ => None,
            },
    {
        match self.0 {
            PacketOrigin::Tcp { channel_id, .. } => Some(channel_id),
            _ => None,
        }
    }

    /// Prints the context. The two addresses are printed as given, and only
    /// for a UDP packet. There is a text exactly where the time of reception
    /// has one.
    pub fn to_text(&self, local_addr: &str, peer_addr: &str) -> (r: Option<String>)
        ensures
            match self.spec_origin() {
                PacketOrigin::Tcp { msg_ctx, channel_id } => {
                    &&& r is Some <==> has_calendar_form(msg_ctx.spec_received_wall()@.sec)
                    &&& r matches Some(text) ==> exists|wall: Seq<char>|
                        text@ == #[trigger] spec_tcp_packet_text(
                            spec_message_context_text(msg_ctx.spec_pos() as nat, wall),
                            channel_id,
                        )
                },
                PacketOrigin::Udp { received_wall, .. } => {
                    &&& r is Some <==> has_calendar_form(received_wall@.sec)
                    &&& r matches Some(text) ==> exists|wall: Seq<char>|
                        text@ == #[trigger] spec_udp_packet_text(peer_addr@, local_addr@, wall)
                },
                PacketOrigin::Dummy => r matches Some(text) && text@
                    == spec_dummy_packet_text(),
            },
    {
        match self.0 {
            PacketOrigin::Udp { received_wall, .. } => {
                match received_wall.to_text() {
                    Some(wall) => {
                        let text = udp_packet_text(peer_addr, local_addr, wall.as_str());
                        assert(text@ == spec_udp_packet_text(peer_addr@, local_addr@, wall@));
                        Some(text)
                    },
                    None => None,
                }
            },
            PacketOrigin::Tcp { msg_ctx, channel_id } => {
                match msg_ctx.to_text() {
                    Some(msg) => {
                        let text = tcp_packet_text(msg.as_str(), channel_id);
                        proof {
                            let wall = choose|wall: Seq<char>|
                                msg@ == #[trigger] spec_message_context_text(
                                    msg_ctx.spec_pos() as nat,
                                    wall,
                                );
                            assert(text@ == spec_tcp_packet_text(
                                spec_message_context_text(msg_ctx.spec_pos() as nat, wall),
                                channel_id,
                            ));
                        }
                        Some(text)
                    },
                    None => None,
                }
            },
            PacketOrigin::Dummy => {
                proof {
                    reveal_strlit("dummy");
                }
                let text = String::from_str("dummy");
                assert(text@ =~= spec_dummy_packet_text());
                Some(text)
            },
        }
    }
}

} // verus!
