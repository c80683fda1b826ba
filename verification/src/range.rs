//! Where a part of a buffer lies within the buffer.

use core::ops::Range;
use vstd::prelude::*;

verus! {

/// Whether the `subset_len` bytes at `subset_addr` lie within the `buf_len`
/// bytes at `buf_addr`.
pub open spec fn lies_within(buf_addr: int, buf_len: int, subset_addr: int, subset_len: int) -> bool {
    buf_addr <= subset_addr && subset_addr + subset_len <= buf_addr + buf_len
}

/// Returns the range within a buffer that a part of it takes, both given by
/// the address of their first byte and their length.
///
/// If the part is empty, returns `None`, wherever it lies; a part that is not
/// empty has to lie within the buffer.
pub fn as_range(buf_addr: usize, buf_len: usize, subset_addr: usize, subset_len: usize) -> (r:
    Option<Range<usize>>)
    requires
        subset_len > 0 ==> lies_within(
            buf_addr as int,
            buf_len as int,
            subset_addr as int,
            subset_len as int,
        ),
    ensures
        subset_len == 0 ==> r is None,
        subset_len > 0 ==> r == Some(
            Range {
                start: (subset_addr - buf_addr) as usize,
                end: (subset_addr - buf_addr + subset_len) as usize,
            },
        ),
        r matches Some(range) ==> range.start < range.end <= buf_len && range.end - range.start
            == subset_len,
{
    if subset_len == 0 {
        return None;
    }
    let off: usize = subset_addr - buf_addr;
    let end: usize = off + subset_len;
    Some(off..end)
}

} // verus!
