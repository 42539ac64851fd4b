//! The source of the random bytes that `CXNN` uses: a ChaCha generator of
//! `rand`, seeded once from the operating system's entropy source, as the
//! thread-local generator of `rand` is.

use vstd::prelude::*;
use rand::rngs::{OsRng, StdRng};
use rand::{Rng, SeedableRng};

verus! {

/// `rand::rngs::StdRng`, the generator that the machine draws its random
/// bytes from. Verus sees nothing of its state.
#[verifier::external_type_specification]
#[verifier::external_body]
pub struct ExStdRng(StdRng);

/// Calls `SeedableRng::from_rng(OsRng)` for `rand::rngs::StdRng`: a new
/// generator seeded from the operating system's entropy source (through
/// `OsRng::try_fill_bytes`, that is `getrandom`). Returns `None` when the
/// entropy source reported an error; the call does not panic. Nothing is
/// claimed of when the source fails.
#[verifier::external_body]
pub(crate) fn seed_generator() -> Option<StdRng> {
    match StdRng::from_rng(OsRng) {
        Ok(generator) => Some(generator),
        Err(_) => None,
    }
}

/// Calls `Rng::gen::<u8>()` on the generator, as `rand::random::<u8>()`
/// does on the thread-local one. The generator works in memory and does
/// not fail. Nothing is claimed of the byte, nor of the generator's new
/// state.
#[verifier::external_body]
pub(crate) fn next_byte(generator: &mut StdRng) -> u8 {
    generator.gen::<u8>()
}

} // verus!
