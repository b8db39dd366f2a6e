//! The injected source of randomness for tie-breaking (roam direction,
//! flee-destination choice).

use vstd::prelude::*;

verus! {

/// Relies on rand::Rng::gen_range over rand::thread_rng: a random index
/// below the bound. Nothing is promised about which one, and two calls on
/// the same bound may differ.
#[verifier::external_body]
pub(crate) fn random_below(n: usize) -> (r: usize)
    requires
        n > 0,
    ensures
        r < n,
{
    rand::Rng::gen_range(&mut rand::thread_rng(), 0..n)
}

} // verus!
