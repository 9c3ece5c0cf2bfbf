//! The source of randomness.

use vstd::prelude::*;

verus! {

/// Draws a number with `rand::random::<u32>()`, which asks the thread-local
/// generator of the `rand` crate for 32 uniformly distributed bits.
///
/// The contract promises nothing of the value: every `u32` can come back, and
/// two calls need not agree. The generator panics if the operating system
/// cannot seed it, which no argument of this function can prevent.
#[verifier::external_body]
pub(crate) fn draw() -> (value: u32) {
    rand::random::<u32>()
}

} // verus!
