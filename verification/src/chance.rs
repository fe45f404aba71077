//! The source of random bits behind the simulation's tie-breaks and noise.

use vstd::prelude::*;

verus! {

/// Draws a boolean from `rand::random::<bool>()`, which samples the thread's
/// generator. Nothing is claimed of the outcome: either value may come back,
/// and two draws need not agree. The call can fail only where the generator
/// cannot be seeded from the operating system.
#[verifier::external_body]
pub(crate) fn coin_flip() -> (heads: bool) {
    rand::random::<bool>()
}

/// Draws a byte from `rand::random::<u8>()`, which samples the thread's
/// generator. Nothing is claimed of the outcome beyond its type. The call can
/// fail only where the generator cannot be seeded from the operating system.
#[verifier::external_body]
pub(crate) fn random_byte() -> (byte: u8) {
    rand::random::<u8>()
}

} // verus!
