//! The seeded pseudorandom source that terrain generation draws from.

use vstd::prelude::*;

verus! {

/// `pcg_rand::Pcg32`, the 32-bit PCG generator with a stream of its own.
/// The verifier does not take a declaration of the generic type behind that
/// name, so the generator is held here as a whole and nothing is known of
/// its state.
#[verifier::external_body]
struct Engine {
    inner: pcg_rand::Pcg32,
}

/// A pseudorandom generator with a state of its own. Beside the generator
/// it keeps a record of the seed that it was made from. The record is a
/// label: it is written when the source is made and is not read from the
/// generator, of whose state nothing is known.
pub struct RandomSource {
    engine: Engine,
    seed: Ghost<u64>,
}

/// `Rng::gen::<bool>` on the engine: either value may come back.
#[verifier::external_body]
fn engine_bool(engine: &mut Engine) -> (r: bool) {
    rand::Rng::gen(&mut engine.inner)
}

/// `Rng::gen::<[u8; 3]>` on the engine: any three bytes may come back.
#[verifier::external_body]
fn engine_bytes(engine: &mut Engine) -> (r: [u8; 3]) {
    rand::Rng::gen(&mut engine.inner)
}

/// `Rng::gen_ratio` on the engine: always `true` for a numerator equal to the
/// denominator, always `false` for a numerator of zero, and else either
/// value. The outside function panics on a zero denominator and on a
/// numerator above the denominator.
#[verifier::external_body]
fn engine_ratio(engine: &mut Engine, numerator: u32, denominator: u32) -> (r: bool)
    requires
        0 < denominator,
        numerator <= denominator,
    ensures
        numerator == denominator ==> r,
        numerator == 0 ==> !r,
{
    rand::Rng::gen_ratio(&mut engine.inner, numerator, denominator)
}

/// `SeedableRng::from_seed` on a seed made by `PcgSeeder::seed`.
#[verifier::external_body]
fn engine_from_seed(seed: u64) -> (engine: Engine) {
    Engine { inner: rand::SeedableRng::from_seed(pcg_rand::seeds::PcgSeeder::seed(seed)) }
}

/// The 64-bit seed whose low half is `low` and whose high half is `high`.
pub open spec fn seed_of(low: u32, high: u32) -> int {
    low as int + high as int * 0x1_0000_0000
}

/// Joins the two words of entropy that a host supplies into one seed.
pub fn join_seed(low: u32, high: u32) -> (seed: u64)
    ensures
        seed == seed_of(low, high),
{
    let l: u64 = low as u64;
    let h: u64 = high as u64;
    let seed: u64 = l | (h << 32);
    assert(seed == l + h * 0x1_0000_0000) by (bit_vector)
        requires
            seed == l | (h << 32),
            l <= 0xFFFF_FFFF,
            h <= 0xFFFF_FFFF,
    ;
    seed
}

impl RandomSource {
    /// A source that starts from `seed`.
    pub fn from_seed(seed: u64) -> (source: Self)
        ensures
            source.seed() == seed,
    {
        RandomSource { engine: engine_from_seed(seed), seed: Ghost(seed) }
    }

    /// A source that starts from the seed whose low half is `low` and whose
    /// high half is `high`, the two words of entropy that a host supplies.
    pub fn from_seed_words(low: u32, high: u32) -> (source: Self)
        ensures
            source.seed() == seed_of(low, high),
    {
        RandomSource::from_seed(join_seed(low, high))
    }

    /// A fair coin. The record of the seed stays as it is.
    pub fn next_bool(&mut self) -> (r: bool)
        ensures
            final(self).seed() == old(self).seed(),
    {
        engine_bool(&mut self.engine)
    }

    /// A coin that shows `true` with probability `numerator / denominator`.
    /// The record of the seed stays as it is.
    pub fn next_ratio(&mut self, numerator: u32, denominator: u32) -> (r: bool)
        requires
            0 < denominator,
            numerator <= denominator,
        ensures
            numerator == denominator ==> r,
            numerator == 0 ==> !r,
            final(self).seed() == old(self).seed(),
    {
        engine_ratio(&mut self.engine, numerator, denominator)
    }

    /// Three uniform bytes. The record of the seed stays as it is.
    pub fn next_bytes(&mut self) -> (r: [u8; 3])
        ensures
            final(self).seed() == old(self).seed(),
    {
        engine_bytes(&mut self.engine)
    }

    /// The seed that the source was made from, as its record has it. This
    /// is the label beside the generator, not a reading of the generator.
    pub closed spec fn seed(&self) -> u64 {
        self.seed@
    }
}

} // verus!
