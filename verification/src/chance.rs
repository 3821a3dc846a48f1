//! Numbers drawn at random.

use vstd::prelude::*;

verus! {

/// Draws a number with `rand::random::<u64>()`, which takes it from the
/// generator of the calling thread. Nothing is claimed of the number. The
/// call panics if the operating system cannot seed the generator.
#[verifier::external_body]
pub(crate) fn random_u64() -> u64 {
    rand::random::<u64>()
}

} // verus!
