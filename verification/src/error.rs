//! The one error that is handed to callers: a shared handle to the kind of
//! failure, what is said of it, and where in the input it was found.

use crate::context::{ConnectionContext, PacketContext, RtspMessageContext};
use std::sync::Arc;
use vstd::prelude::*;

verus! {

/// What went wrong.
#[derive(Copy, Clone, Debug, PartialEq, Eq, Structural)]
pub enum ErrorKind {
    /// The transport couldn't be established.
    ConnectionFailed,
    /// The byte stream of the RTSP connection is malformed.
    RtspFraming,
    /// The status, headers or body of a response break the protocol.
    RtspResponse,
    /// The server refuses the credentials.
    Unauthorized,
    /// The session description is invalid.
    SdpInvalid,
    /// RTP packets were lost where none may be.
    RtpLoss,
    /// An RTP packet is malformed.
    RtpMalformed,
    /// An RTP packet has a payload type that no stream is set up for.
    RtpUnknownPayloadType,
    /// A codec could not put a frame together.
    Depacketizer,
    /// No answer to keep-alive requests, and no media.
    SessionTimeout,
    /// The caller gave up.
    Cancelled,
}

impl ErrorKind {
    /// Whether an error of this kind ends the session: errors of framing
    /// and of the RTSP dialog do, errors of single RTP packets do not.
    pub open spec fn spec_is_fatal(self) -> bool {
        !(self is RtpLoss || self is RtpMalformed || self is RtpUnknownPayloadType
            || self is Depacketizer)
    }

    /// Whether an error of this kind ends the session.
    pub fn is_fatal(self) -> (r: bool)
        ensures
            r == self.spec_is_fatal(),
    {
        match self {
            ErrorKind::RtpLoss
            | ErrorKind::RtpMalformed
            | ErrorKind::RtpUnknownPayloadType
            | ErrorKind::Depacketizer => false,
            _ => true,
        }
    }
}

/// What an [`Error`] holds.
#[derive(Debug)]
pub struct ErrorInt {
    /// What went wrong.
    pub kind: ErrorKind,
    /// What is said of it.
    pub description: String,
    /// The connection on which it happened, where there is one.
    pub conn_ctx: Option<ConnectionContext>,
    /// The message in which it was found, where there is one.
    pub msg_ctx: Option<RtspMessageContext>,
    /// The packet in which it was found, where there is one.
    pub pkt_ctx: Option<PacketContext>,
}

/// An error of this library. It is cheap to clone: clones share what they
/// hold.
#[derive(Clone, Debug)]
pub struct Error(Arc<ErrorInt>);

impl View for Error {
    type V = ErrorInt;

    closed spec fn view(&self) -> ErrorInt {
        *self.0
    }
}

impl Error {
    /// An error of the given kind, of which `description` is said.
    pub fn new(kind: ErrorKind, description: String) -> (r: Error)
        ensures
            r@.kind == kind,
            r@.description == description,
            r@.conn_ctx is None,
            r@.msg_ctx is None,
            r@.pkt_ctx is None,
    {
        Error(Arc::new(ErrorInt { kind, description, conn_ctx: None, msg_ctx: None, pkt_ctx: None }))
    }

    /// An error that happened on the connection of `conn_ctx`.
    pub fn on_connection(kind: ErrorKind, description: String, conn_ctx: ConnectionContext) -> (r:
        Error)
        ensures
            r@.kind == kind,
            r@.description == description,
            r@.conn_ctx == Some(conn_ctx),
            r@.msg_ctx is None,
            r@.pkt_ctx is None,
    {
        Error(
            Arc::new(
                ErrorInt {
                    kind,
                    description,
                    conn_ctx: Some(conn_ctx),
                    msg_ctx: None,
                    pkt_ctx: None,
                },
            ),
        )
    }

    /// An error that was found in the packet of `pkt_ctx`.
    pub fn in_packet(kind: ErrorKind, description: String, pkt_ctx: PacketContext) -> (r: Error)
        ensures
            r@.kind == kind,
            r@.description == description,
            r@.conn_ctx is None,
            r@.msg_ctx is None,
            r@.pkt_ctx == Some(pkt_ctx),
    {
        Error(
            Arc::new(
                ErrorInt {
                    kind,
                    description,
                    conn_ctx: None,
                    msg_ctx: None,
                    pkt_ctx: Some(pkt_ctx),
                },
            ),
        )
    }

    /// An error that was found in the message of `msg_ctx`.
    pub fn in_message(kind: ErrorKind, description: String, msg_ctx: RtspMessageContext) -> (r:
        Error)
        ensures
            r@.kind == kind,
            r@.description == description,
            r@.conn_ctx is None,
            r@.msg_ctx == Some(msg_ctx),
            r@.pkt_ctx is None,
    {
        Error(
            Arc::new(
                ErrorInt {
                    kind,
                    description,
                    conn_ctx: None,
                    msg_ctx: Some(msg_ctx),
                    pkt_ctx: None,
                },
            ),
        )
    }

    /// What went wrong.
    pub fn kind(&self) -> (r: ErrorKind)
        ensures
            r == self@.kind,
    {
        self.0.kind
    }

    /// What is said of it.
    pub fn description(&self) -> (r: &str)
        ensures
            r@ == self@.description@,
    {
        self.0.description.as_str()
    }

    /// The connection on which it happened, where there is one.
    pub fn conn_ctx(&self) -> (r: Option<ConnectionContext>)
        ensures
            r == self@.conn_ctx,
    {
        self.0.conn_ctx
    }

    /// The message in which it was found, where there is one.
    pub fn msg_ctx(&self) -> (r: Option<RtspMessageContext>)
        ensures
            r == self@.msg_ctx,
    {
        self.0.msg_ctx
    }

    /// The packet in which it was found, where there is one.
    pub fn pkt_ctx(&self) -> (r: Option<PacketContext>)
        ensures
            r == self@.pkt_ctx,
    {
        self.0.pkt_ctx
    }
}

} // verus!
