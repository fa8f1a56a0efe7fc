//! The source of the random bytes that `CXNN` consumes.

use vstd::prelude::*;

verus! {

/// Draws one byte from `rand::random`, which samples the thread-local
/// generator of the `rand` crate. Nothing is claimed of the byte: every value
/// of a `u8` may come back, and two calls need not agree.
#[verifier::external_body]
pub(crate) fn random_byte() -> (byte: u8) {
    rand::random()
}

} // verus!
