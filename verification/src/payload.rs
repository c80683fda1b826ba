//! Packet payloads: the byte buffers of the `bytes` crate, as far as this
//! library reads them.

use vstd::prelude::*;

verus! {

/// `bytes::Bytes`, a buffer of bytes that is cheap to share. What it holds
/// is [`bytes_content`].
#[verifier::external_type_specification]
#[verifier::external_body]
pub struct ExBytes(bytes::Bytes);

/// The bytes that a buffer holds, in order.
pub uninterp spec fn bytes_content(buffer: bytes::Bytes) -> Seq<u8>;

/// `Bytes::new` makes a buffer that holds no byte.
pub assume_specification[ bytes::Bytes::new ]() -> (buffer: bytes::Bytes)
    ensures
        bytes_content(buffer) == Seq::<u8>::empty(),
;

/// `Bytes::len` is the number of bytes that the buffer holds.
pub assume_specification[ bytes::Bytes::len ](buffer: &bytes::Bytes) -> (len: usize)
    ensures
        len == bytes_content(*buffer).len(),
;

/// `Bytes::copy_from_slice` makes a buffer that holds the bytes of the slice.
pub assume_specification[ bytes::Bytes::copy_from_slice ](data: &[u8]) -> (buffer: bytes::Bytes)
    ensures
        bytes_content(buffer) == data@,
;

/// Makes a buffer of the bytes from `start` up to `end` of another, with
/// `Bytes::slice`.
///
/// Trusted: within the bounds of the buffer, the result holds exactly those
/// bytes.
#[verifier::external_body]
pub(crate) fn bytes_slice(buffer: &bytes::Bytes, start: usize, end: usize) -> (part: bytes::Bytes)
    requires
        start <= end <= bytes_content(*buffer).len(),
    ensures
        bytes_content(part) == bytes_content(*buffer).subrange(start as int, end as int),
{
    buffer.slice(start..end)
}

/// Lends the bytes of a buffer as a slice, through `AsRef<[u8]>`.
#[verifier::external_body]
pub(crate) fn bytes_as_slice(buffer: &bytes::Bytes) -> (slice: &[u8])
    ensures
        slice@ == bytes_content(*buffer),
{
    buffer.as_ref()
}

} // verus!
