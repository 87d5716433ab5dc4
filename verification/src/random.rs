//! Random numbers.

use rand::RngExt;

use vstd::prelude::*;

verus! {

/// `random_range` of the [`rand`] crate on the thread's generator: any value from `low`
/// up to but not including `high`, which must be larger.
#[verifier::external_body]
pub(crate) fn random_between(low: u64, high: u64) -> (r: u64)
    requires
        low < high,
    ensures
        low <= r < high,
{
    rand::rng().random_range(low..high)
}

} // verus!
