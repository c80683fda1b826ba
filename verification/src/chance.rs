//! Chance, where the library leaves a choice to it.

use vstd::prelude::*;

verus! {

/// Draws a number with `rand::Rng::gen_range`, on the generator that
/// `rand::thread_rng` gives.
///
/// Trusted: the number is within the range. Which one it is, chance decides.
#[verifier::external_body]
pub(crate) fn draw(start: u16, end: u16) -> (r: u16)
    requires
        start < end,
    ensures
        start <= r < end,
{
    rand::Rng::gen_range(&mut rand::thread_rng(), start..end)
}

} // verus!
