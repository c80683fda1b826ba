//! The core of an RTSP client for IP cameras: what is decided and computed
//! between the bytes of a connection and the frames of a stream.
//!
//! - [`framing`] tells RTSP messages and interleaved data apart.
//! - [`client`] holds the dialog of a session and the path of a stream:
//!   RTP packets are read, put in order with their losses counted, placed on
//!   the stream's clock and handed to its codec.
//! - [`codec`] turns packets into frames.
//! - [`rtcp`] reads sender reports and writes receiver reports.
//! - [`timestamp`], [`context`] and [`error`] are the values that go with
//!   all of it.
//!
//! Nothing here reads from a socket or sleeps. The caller does, and hands
//! over bytes and times.

mod chance;
pub mod client;
pub mod clock;
pub mod codec;
pub mod context;
pub mod error;
pub mod framing;
pub mod headers;
pub mod payload;
pub mod range;
pub mod rtcp;
pub mod text;
pub mod timestamp;
pub mod udp;

pub use clock::WallTime;
pub use error::{Error, ErrorKind};
pub use range::as_range;
pub use context::{ConnectionContext, PacketContext, RtspMessageContext, SocketAddress};
pub use timestamp::{unix_epoch, NtpTimestamp, Timestamp, TimestampModel, UNIX_EPOCH_NTP};
