//! The random number source of the random-byte instruction.

use vstd::prelude::*;
use rand::Rng;

verus! {

/// A byte drawn uniformly from `low..=high` by `rand::thread_rng().gen_range`.
///
/// Trusted: the contract claims only that the byte lies in the range, as the
/// `gen_range` documentation promises; which byte comes back is left open.
/// `thread_rng` panics if the operating system cannot seed the generator;
/// no clause excludes that.
#[verifier::external_body]
pub(crate) fn random_in(low: u8, high: u8) -> (r: u8)
    requires
        low <= high,
    ensures
        low <= r <= high,
{
    rand::thread_rng().gen_range(low..=high)
}

} // verus!
