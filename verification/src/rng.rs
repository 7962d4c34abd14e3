//! The source of random bytes for the masked random instruction.

use vstd::prelude::*;

verus! {

/// Relies on rand::random: draws one byte from the thread-local generator.
/// The value is random, so nothing is promised of it; the caller states
/// what holds of every byte that could come back.
#[verifier::external_body]
pub(crate) fn random_byte() -> u8 {
    rand::random()
}

} // verus!
