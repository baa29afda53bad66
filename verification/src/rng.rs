//! The randomness boundary: effects draw small random numbers through one
//! wrapper whose contract promises only a range, never a distribution, so
//! every caller is verified for every outcome.

use vstd::prelude::*;

verus! {

/// Relies on rand::Rng::gen_range over a thread-local generator: the result
/// always lies in the requested half-open range. Nothing more is assumed of
/// it; two calls with the same bound may differ.
#[verifier::external_body]
pub(crate) fn random_below(n: u32) -> (r: u32)
    requires
        n > 0,
    ensures
        r < n,
{
    rand::Rng::gen_range(&mut rand::thread_rng(), 0..n)
}

} // verus!
