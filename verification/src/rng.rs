//! The game's source of chance.
use vstd::prelude::*;

verus! {

/// Calls `macroquad::rand::gen_range` (the generator of `quad-rand`) on
/// `i32`. Its source draws a `u32`, scales it into `[0, 1)`, computes
/// `low + (high - low) * that` in `f64` and truncates. That sum stays below
/// `high` by at least `2^-32`, which survives rounding only while the
/// values stay below `2^21`; above that a narrow range can round up to
/// `high` itself. So the contract is given only for `0 <= low < high <=
/// 2^21`, where the result is an integer in `low..high`. Which one it is
/// depends on the generator's state and is left unsaid.
#[verifier::external_body]
pub(crate) fn random_range(low: i32, high: i32) -> (r: i32)
    requires
        0 <= low < high <= 0x20_0000,
    ensures
        low <= r < high,
{
    macroquad::rand::gen_range(low, high)
}

} // verus!
