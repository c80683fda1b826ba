//! Telling apart what arrives on an RTSP connection: RTSP messages, which
//! `rtsp_types` reads, and interleaved data, which is framed in binary.
//!
//! Interleaved data starts with a dollar sign. One byte follows with the
//! channel, two with the length of the payload, the most significant first,
//! and then the payload.

use crate::context::RtspMessageContext;
use crate::error::{Error, ErrorKind};
use crate::payload::bytes_content;
use vstd::prelude::*;
use vstd::string::StringExecFns;

verus! {

/// `rtsp_types::Message`, an RTSP request or response, or interleaved data.
/// It is handed on as `rtsp_types` has made it, and not looked into.
#[verifier::external_type_specification]
#[verifier::external_body]
#[verifier::reject_recursive_types(Body)]
pub struct ExMessage<Body>(rtsp_types::Message<Body>);

/// The byte with which interleaved data starts: a dollar sign.
pub const INTERLEAVED_MAGIC: u8 = 0x24;

/// The length of what comes before the payload of interleaved data.
pub const INTERLEAVED_HEADER_LEN: usize = 4;

/// What `rtsp_types` makes of the front of a buffer.
#[derive(Debug)]
pub enum Parsed {
    /// A message, which takes the first `consumed` bytes.
    Complete { msg: rtsp_types::Message<Vec<u8>>, consumed: usize },
    /// The start of a message. More bytes are needed.
    Incomplete,
    /// No message.
    Invalid,
}

/// What `rtsp_types` makes of the front of a buffer, the message itself
/// left out.
#[derive(Copy, Clone, Debug, PartialEq, Eq, Structural)]
pub enum Shape {
    /// A message, which takes the first `consumed` bytes.
    Complete { consumed: usize },
    /// The start of a message.
    Incomplete,
    /// No message.
    Invalid,
}

impl Parsed {
    /// The shape of what was parsed.
    pub open spec fn shape(self) -> Shape {
        match self {
            Parsed::Complete { consumed, .. } => Shape::Complete { consumed },
            Parsed::Incomplete => Shape::Incomplete,
            Parsed::Invalid => Shape::Invalid,
        }
    }
}

/// What `rtsp_types::Message::parse` makes of the bytes `input`.
pub uninterp spec fn message_shape(input: Seq<u8>) -> Shape;

/// Reads an RTSP message from the front of `buf` with
/// `rtsp_types::Message::parse`.
///
/// Trusted: the outcome depends on the bytes alone, and a message takes no
/// more bytes than there are.
#[verifier::external_body]
fn parse_message(buf: &[u8]) -> (r: Parsed)
    ensures
        r.shape() == message_shape(buf@),
        r matches Parsed::Complete { consumed, .. } ==> consumed <= buf@.len(),
{
    match rtsp_types::Message::<Vec<u8>>::parse(buf) {
        Ok((msg, consumed)) => Parsed::Complete { msg, consumed },
        Err(rtsp_types::ParseError::Incomplete(_)) => Parsed::Incomplete,
        Err(rtsp_types::ParseError::Error) => Parsed::Invalid,
    }
}

/// A received RTSP message.
#[derive(Debug)]
pub struct ReceivedMessage {
    /// Where in the input the message starts, and when it was received.
    pub ctx: RtspMessageContext,
    /// The message.
    pub msg: rtsp_types::Message<Vec<u8>>,
}

/// What is read from an RTSP connection in one piece.
#[derive(Debug)]
pub enum Item {
    /// An RTSP message.
    Message(ReceivedMessage),
    /// Interleaved data: an RTP or RTCP packet.
    InterleavedData { ctx: RtspMessageContext, channel_id: u8, data: bytes::Bytes },
}

/// An item, with the number of bytes that it takes at the front of the
/// buffer.
#[derive(Debug)]
pub struct Decoded {
    /// The item.
    pub item: Item,
    /// The number of bytes that the item takes.
    pub consumed: usize,
}

/// What stands at the front of a buffer, as far as the first bytes tell.
#[derive(Copy, Clone, Debug, PartialEq, Eq, Structural)]
pub enum Front {
    /// Nothing, or interleaved data of which bytes are missing.
    NeedMore,
    /// Interleaved data for the channel `channel_id` with a payload of
    /// `len` bytes.
    Interleaved { channel_id: u8, len: usize },
    /// Interleaved data with a payload of `len` bytes, which is more than
    /// is taken.
    TooLong { len: usize },
    /// Anything else: an RTSP message, if it is one.
    Text,
}

/// What stands at the front of the buffer `buf`, where the payload of
/// interleaved data may have up to `max_data_len` bytes.
pub open spec fn spec_front(buf: Seq<u8>, max_data_len: usize) -> Front {
    if buf.len() == 0 {
        Front::NeedMore
    } else if buf[0] != INTERLEAVED_MAGIC {
        Front::Text
    } else if buf.len() < INTERLEAVED_HEADER_LEN {
        Front::NeedMore
    } else {
        let len = (buf[2] * 0x100 + buf[3]) as usize;
        if len > max_data_len {
            Front::TooLong { len }
        } else if buf.len() < INTERLEAVED_HEADER_LEN + len {
            Front::NeedMore
        } else {
            Front::Interleaved { channel_id: buf[1], len }
        }
    }
}

/// Looks at the front of the buffer `buf`.
pub fn front(buf: &[u8], max_data_len: usize) -> (r: Front)
    ensures
        r == spec_front(buf@, max_data_len),
        r matches Front::Interleaved { len, .. } ==> INTERLEAVED_HEADER_LEN + len <= buf@.len(),
{
    if buf.len() == 0 {
        return Front::NeedMore;
    }
    if buf[0] != INTERLEAVED_MAGIC {
        return Front::Text;
    }
    if buf.len() < INTERLEAVED_HEADER_LEN {
        return Front::NeedMore;
    }
    let len: usize = (buf[2] as usize) * 0x100 + (buf[3] as usize);
    if len > max_data_len {
        Front::TooLong { len }
    } else if buf.len() - INTERLEAVED_HEADER_LEN < len {
        Front::NeedMore
    } else {
        Front::Interleaved { channel_id: buf[1], len }
    }
}

/// What is said of interleaved data that is longer than is taken.
pub open spec fn spec_too_long_text() -> Seq<char> {
    "interleaved data is longer than the limit"@
}

/// What is said of bytes that are no RTSP message.
pub open spec fn spec_invalid_text() -> Seq<char> {
    "invalid RTSP message"@
}

/// What is said of a connection that ends within an item.
pub open spec fn spec_truncated_text() -> Seq<char> {
    "connection ended within a message"@
}

/// Whether `e` is an error of framing that says `text` of what stands at
/// the position `pos` of the input.
pub open spec fn spec_is_framing_error(e: Error, text: Seq<char>, pos: u64) -> bool {
    e@.kind == ErrorKind::RtspFraming && e@.description@ == text && e@.msg_ctx is Some
        && e@.msg_ctx->Some_0.spec_pos() == pos && e@.pkt_ctx is None
}

/// The state of a [`Codec`].
pub struct CodecModel {
    /// The number of bytes that were taken from the connection so far.
    pub read_pos: u64,
    /// The longest payload of interleaved data that is taken.
    pub max_data_len: usize,
}

/// Reads items from the bytes of an RTSP connection.
#[derive(Debug)]
pub struct Codec {
    read_pos: u64,
    max_data_len: usize,
}

impl View for Codec {
    type V = CodecModel;

    closed spec fn view(&self) -> CodecModel {
        CodecModel { read_pos: self.read_pos, max_data_len: self.max_data_len }
    }
}

impl CodecModel {
    /// Whether `after` and `r` are the codec and its answer once
    /// `rtsp_types` has made `parsed` of the front of the input: a message
    /// is taken, an incomplete one asks for more bytes, and anything else is
    /// an error of framing at the position that was reached.
    pub open spec fn spec_frame_message(
        self,
        parsed: Parsed,
        after: CodecModel,
        r: Result<Option<Decoded>, Error>,
    ) -> bool {
        &&& after.max_data_len == self.max_data_len
        &&& match parsed {
            Parsed::Complete { msg, consumed } => {
                &&& after.read_pos == self.read_pos + consumed
                &&& r is Ok
                &&& r->Ok_0 is Some
                &&& r->Ok_0->Some_0.consumed == consumed
                &&& r->Ok_0->Some_0.item matches Item::Message(received)
                &&& received.msg == msg
                &&& received.ctx.spec_pos() == self.read_pos
            },
            Parsed::Incomplete => after.read_pos == self.read_pos && r is Ok && r->Ok_0 is None,
            Parsed::Invalid => after.read_pos == self.read_pos && r is Err
                && spec_is_framing_error(r->Err_0, spec_invalid_text(), self.read_pos),
        }
    }

    /// Whether `after` and `r` are the codec and its answer once interleaved
    /// data for the channel `channel_id` with a payload of `len` bytes has
    /// been found at the front of `buf`.
    pub open spec fn spec_frame_data(
        self,
        buf: Seq<u8>,
        channel_id: u8,
        len: usize,
        after: CodecModel,
        r: Result<Option<Decoded>, Error>,
    ) -> bool {
        &&& after.max_data_len == self.max_data_len
        &&& after.read_pos == self.read_pos + INTERLEAVED_HEADER_LEN + len
        &&& r is Ok
        &&& r->Ok_0 is Some
        &&& r->Ok_0->Some_0.consumed == INTERLEAVED_HEADER_LEN + len
        &&& r->Ok_0->Some_0.item matches Item::InterleavedData { ctx, channel_id: channel, data }
        &&& channel == channel_id
        &&& ctx.spec_pos() == self.read_pos
        &&& bytes_content(data) == buf.subrange(
            INTERLEAVED_HEADER_LEN as int,
            INTERLEAVED_HEADER_LEN + len,
        )
    }
}

impl Codec {
    /// A codec for a connection of which no byte has been taken yet.
    pub fn new(max_data_len: usize) -> (r: Codec)
        ensures
            r@ == (CodecModel { read_pos: 0, max_data_len }),
    {
        Codec { read_pos: 0, max_data_len }
    }

    /// The number of bytes that were taken from the connection so far.
    pub fn read_pos(&self) -> (r: u64)
        ensures
            r == self@.read_pos,
    {
        self.read_pos
    }

    /// Takes what `rtsp_types` has made of the front of the input.
    pub fn frame_message(&mut self, parsed: Parsed) -> (r: Result<Option<Decoded>, Error>)
        requires
            parsed matches Parsed::Complete { consumed, .. } ==> old(self)@.read_pos + consumed
                <= u64::MAX,
        ensures
            old(self)@.spec_frame_message(parsed, final(self)@, r),
    {
        let ctx = RtspMessageContext::received_now(self.read_pos);
        match parsed {
            Parsed::Complete { msg, consumed } => {
                self.read_pos = self.read_pos + consumed as u64;
                Ok(Some(Decoded { item: Item::Message(ReceivedMessage { ctx, msg }), consumed }))
            },
            Parsed::Incomplete => Ok(None),
            Parsed::Invalid => Err(
                Error::in_message(
                    ErrorKind::RtspFraming,
                    String::from_str("invalid RTSP message"),
                    ctx,
                ),
            ),
        }
    }

    /// Reads the item at the front of the buffer `buf`, if all of it is
    /// there.
    ///
    /// - Interleaved data is taken with its channel and its payload; one
    ///   that is longer than is taken is an error of framing.
    /// - Anything else is left to `rtsp_types`: a message is taken, an
    ///   incomplete one asks for more bytes, and anything else is an error
    ///   of framing.
    ///
    /// An error of framing says at which position of the input it is.
    pub fn decode(&mut self, buf: &[u8]) -> (r: Result<Option<Decoded>, Error>)
        requires
            old(self)@.read_pos + buf@.len() <= u64::MAX,
        ensures
            match spec_front(buf@, old(self)@.max_data_len) {
                Front::NeedMore => final(self)@ == old(self)@ && r is Ok && r->Ok_0 is None,
                Front::Interleaved { channel_id, len } => old(self)@.spec_frame_data(
                    buf@,
                    channel_id,
                    len,
                    final(self)@,
                    r,
                ),
                Front::TooLong { .. } => final(self)@ == old(self)@ && r is Err
                    && spec_is_framing_error(
                    r->Err_0,
                    spec_too_long_text(),
                    old(self)@.read_pos,
                ),
                Front::Text => exists|parsed: Parsed|
                    parsed.shape() == message_shape(buf@) && #[trigger] old(
                        self,
                    )@.spec_frame_message(parsed, final(self)@, r),
            },
    {
        match front(buf, self.max_data_len) {
            Front::NeedMore => Ok(None),
            Front::Interleaved { channel_id, len } => {
                let ctx = RtspMessageContext::received_now(self.read_pos);
                let end: usize = INTERLEAVED_HEADER_LEN + len;
                let data = bytes::Bytes::copy_from_slice(
                    vstd::slice::slice_subrange(buf, INTERLEAVED_HEADER_LEN, end),
                );
                self.read_pos = self.read_pos + end as u64;
                Ok(
                    Some(
                        Decoded {
                            item: Item::InterleavedData { ctx, channel_id, data },
                            consumed: end,
                        },
                    ),
                )
            },
            Front::TooLong { .. } => {
                let ctx = RtspMessageContext::received_now(self.read_pos);
                Err(
                    Error::in_message(
                        ErrorKind::RtspFraming,
                        String::from_str("interleaved data is longer than the limit"),
                        ctx,
                    ),
                )
            },
            Front::Text => {
                let parsed = parse_message(buf);
                let ghost seen = parsed;
                let r = self.frame_message(parsed);
                proof {
                    assert(old(self)@.spec_frame_message(seen, self@, r));
                }
                r
            },
        }
    }

    /// Takes note of the end of the connection, at which `remaining` bytes
    /// are left in the buffer: bytes that are left are an error of framing.
    pub fn finish(&self, remaining: usize) -> (r: Result<(), Error>)
        ensures
            remaining == 0 ==> r is Ok,
            remaining > 0 ==> r is Err && spec_is_framing_error(
                r->Err_0,
                spec_truncated_text(),
                self@.read_pos,
            ),
    {
        if remaining == 0 {
            Ok(())
        } else {
            let ctx = RtspMessageContext::received_now(self.read_pos);
            Err(
                Error::in_message(
                    ErrorKind::RtspFraming,
                    String::from_str("connection ended within a message"),
                    ctx,
                ),
            )
        }
    }
}

} // verus!
