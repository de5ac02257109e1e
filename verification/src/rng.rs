//! Source of uniform random draws.
//!
//! The sampling routines take an explicit generator, so a render can be
//! reproduced by seeding it; nothing else in the library holds random
//! state.

use vstd::prelude::*;
use crate::fx::SCALE;

verus! {

#[verifier::external_type_specification]
#[verifier::external_body]
pub struct ExStdRng(rand::rngs::StdRng);

/// Relies on rand's `SeedableRng::seed_from_u64` for `StdRng`: it builds a
/// generator from the given seed.
#[verifier::external_body]
pub fn seed_rng(seed: u64) -> rand::rngs::StdRng {
    <rand::rngs::StdRng as rand::SeedableRng>::seed_from_u64(seed)
}

/// Relies on rand's `Rng::random::<u16>`: a draw over all of `u16`, taken
/// here as a fixed-point value uniform in `[0, 1)`.
#[verifier::external_body]
pub fn next_fx(rng: &mut rand::rngs::StdRng) -> (r: i64)
    ensures
        0 <= r < SCALE,
{
    rand::Rng::random::<u16>(rng) as i64
}

} // verus!
