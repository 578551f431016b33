//! Chance.

use vstd::prelude::*;

verus! {

/// `rand::Rng::random_range` over `low..high` on the thread's generator: a
/// number from `low` up to, but not including, `high`. Which one is chance.
/// The call panics on an empty range; such a range is not accepted.
#[verifier::external_body]
pub(crate) fn random_in(low: u64, high: u64) -> (n: u64)
    requires
        low < high,
    ensures
        low <= n < high,
{
    rand::Rng::random_range(&mut rand::rng(), low..high)
}

} // verus!
