//! The one source of chance in the game.
use vstd::prelude::*;
use rand::Rng;

verus! {

/// Draws an integer from `low` up to, not including, `high`.
///
/// Trusted: the body calls `rand::Rng::gen_range(low, high)` on
/// `rand::thread_rng()`. The crate's documentation promises a value in the
/// half-open range and a panic when `low >= high`; the contract claims the
/// range and rules the panic out. Which value comes is left open, and two
/// calls with the same bounds may differ.
#[verifier::external_body]
pub(crate) fn random_between(low: i64, high: i64) -> (drawn: i64)
    requires
        low < high,
    ensures
        low <= drawn < high,
{
    rand::thread_rng().gen_range(low, high)
}

} // verus!
