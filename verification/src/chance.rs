//! What is taken on trust about the `rand` crate.
//!
//! Nothing in this file is proved. The function below is one call into
//! `rand`, and its contract says only what holds of every number drawn.

use vstd::prelude::*;

verus! {

/// `rand::random_range` on the half-open range from `low` to `high`: some
/// number of that range, which one is left to chance. The call panics on an
/// empty range, which the precondition excludes.
#[verifier::external_body]
pub(crate) fn random_between(low: u32, high: u32) -> (n: u32)
    requires
        low < high,
    ensures
        low <= n < high,
{
    rand::random_range(low..high)
}

} // verus!
