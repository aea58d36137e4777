//! Draws from the thread-local random generator of the `rand` crate. What
//! is drawn depends on chance, so only its range is stated.

use vstd::prelude::*;
use rand::Rng;

verus! {

/// Calls `rand::Rng::gen_range` over `0..n` on `rand::thread_rng()`. The
/// value is uniform in the range; `gen_range` panics on an empty range, so
/// `n` must be positive. Only the range of the result is stated.
#[verifier::external_body]
pub(crate) fn random_below(n: usize) -> (r: usize)
    requires
        n > 0,
    ensures
        r < n,
{
    rand::thread_rng().gen_range(0..n)
}

/// Calls `rand::Rng::fill` on twelve bytes with `rand::thread_rng()`. The
/// bytes are random, so nothing is stated of them.
#[verifier::external_body]
pub(crate) fn random_nonce() -> [u8; 12] {
    let mut bytes = [0u8; 12];
    rand::thread_rng().fill(&mut bytes);
    bytes
}

} // verus!
