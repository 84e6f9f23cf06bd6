//! Randomness capability.
//!
//! The simulation needs a deterministic, seedable stream of pseudorandom
//! values for player placement and enemy spawning. Any source of 32-bit
//! values can drive it; the default source is the PCG32 generator of the
//! `pcg_rand` crate behind trusted wrappers.

use vstd::prelude::*;

verus! {

/// A source of pseudorandom 32-bit values.
///
/// Nothing is promised of the values drawn: every consumer in the library
/// is verified for every possible sequence of results.
pub trait RandomSource {
    /// Draws the next value from the source.
    fn next_u32(&mut self) -> u32;
}

/// Two draws combined into one 64-bit value, high word first.
pub fn next_u64<R: RandomSource>(rng: &mut R) -> (r: u64) {
    let hi: u32 = rng.next_u32();
    let lo: u32 = rng.next_u32();
    ((hi as u64) << 32) | (lo as u64)
}

#[verifier::external_type_specification]
#[verifier::external_body]
pub struct ExPcg32Basic(pcg_rand::Pcg32Basic);

/// The default random source: a seeded PCG32 generator.
pub struct PcgSource {
    rng: pcg_rand::Pcg32Basic,
}

impl PcgSource {
    /// Relies on pcg_rand's `Pcg32Basic::from_seed` with `PcgSeeder::seed`:
    /// builds a generator whose state is determined by the seed alone, so
    /// equal seeds yield equal streams.
    #[verifier::external_body]
    pub fn from_seed(seed: u64) -> PcgSource {
        PcgSource {
            rng: <pcg_rand::Pcg32Basic as rand::SeedableRng>::from_seed(
                pcg_rand::seeds::PcgSeeder::seed(seed),
            ),
        }
    }

    /// Relies on pcg_rand's `RngCore::next_u32` for `Pcg32Basic`: one step
    /// of the PCG32 output stream.
    #[verifier::external_body]
    fn step(&mut self) -> u32 {
        rand::RngCore::next_u32(&mut self.rng)
    }
}

impl RandomSource for PcgSource {
    fn next_u32(&mut self) -> u32 {
        self.step()
    }
}

} // verus!
