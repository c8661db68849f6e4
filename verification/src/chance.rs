//! Numbers drawn at random.

use rand::Rng;
use vstd::prelude::*;

verus! {

/// `rand::Rng::gen_range` over `low..high`, on the generator that
/// `rand::thread_rng` hands out: some number of the range. Which one is not
/// said, and two draws may differ. An empty range is left out, on which
/// `gen_range` panics.
#[verifier::external_body]
pub(crate) fn draw_u32(low: u32, high: u32) -> (n: u32)
    requires
        low < high,
    ensures
        low <= n < high,
{
    rand::thread_rng().gen_range(low..high)
}

/// `rand::Rng::gen_range` over `low..high`, on the generator that
/// `rand::thread_rng` hands out: some number of the range. Which one is not
/// said, and two draws may differ. An empty range is left out, on which
/// `gen_range` panics.
#[verifier::external_body]
pub(crate) fn draw_u8(low: u8, high: u8) -> (n: u8)
    requires
        low < high,
    ensures
        low <= n < high,
{
    rand::thread_rng().gen_range(low..high)
}

} // verus!
