//! The random source behind the `Rand` instruction.

use vstd::prelude::*;

verus! {

/// Relies on `rand::random`: one byte from the thread-local generator.
/// Nothing is promised of the value; callers must hold for every byte.
#[verifier::external_body]
pub(crate) fn random_byte() -> u8 {
    rand::random::<u8>()
}

} // verus!
