//! Sources of randomness for the aggregation engine.
//!
//! The engine only ever needs uniform integers below a caller-chosen bound:
//! a starting coordinate, one of the eight neighbour offsets, or a draw that
//! is compared against the stickiness threshold. The source is injected into
//! the grid, so a deterministic scripted source can stand in for the fast
//! generator when the simulation must be reproducible.

use vstd::prelude::*;

verus! {

/// A supply of uniform integers. Every draw lies below the requested bound;
/// nothing else is promised, so verified callers must hold for every value
/// the source could return.
pub trait RandomSource {
    /// Draws the next value from the source, uniform in `[0, bound)`.
    fn next_below(&mut self, bound: u64) -> (r: u64)
        requires
            bound > 0,
        ensures
            r < bound,
    ;
}

#[verifier::external_type_specification]
#[verifier::external_body]
pub struct ExSmallRng(rand::rngs::SmallRng);

/// Relies on `rand::RngExt::random_range`: for the nonempty range
/// `0..bound` it returns a value uniform in `[0, bound)`.
#[verifier::external_body]
fn small_rng_below(rng: &mut rand::rngs::SmallRng, bound: u64) -> (r: u64)
    requires
        bound > 0,
    ensures
        r < bound,
{
    rand::RngExt::random_range(rng, 0..bound)
}

/// Relies on `rand::SeedableRng::seed_from_u64`: builds the generator
/// deterministically from an integer seed.
#[verifier::external_body]
fn small_rng_from_seed(seed: u64) -> rand::rngs::SmallRng {
    <rand::rngs::SmallRng as rand::SeedableRng>::seed_from_u64(seed)
}

/// Relies on `rand::make_rng`: builds the generator with a fresh seed drawn
/// from the process-wide thread generator.
#[verifier::external_body]
fn small_rng_fresh() -> rand::rngs::SmallRng {
    rand::make_rng()
}

/// The production source: rand's small fast generator.
pub struct FastSource {
    pub rng: rand::rngs::SmallRng,
}

impl FastSource {
    /// A deterministic generator: the same seed always yields the same stream.
    pub fn from_seed(seed: u64) -> FastSource {
        FastSource { rng: small_rng_from_seed(seed) }
    }

    /// A generator seeded from the process-wide source of entropy.
    pub fn fresh() -> FastSource {
        FastSource { rng: small_rng_fresh() }
    }
}

impl RandomSource for FastSource {
    fn next_below(&mut self, bound: u64) -> (r: u64) {
        small_rng_below(&mut self.rng, bound)
    }
}

/// A deterministic source for reproducible runs: it replays a fixed script
/// of draws, reduced modulo the requested bound, and yields `0` once the
/// script is exhausted.
pub struct ScriptedSource {
    pub script: Vec<u64>,
    pub pos: usize,
}

impl ScriptedSource {
    pub fn new(script: Vec<u64>) -> (r: ScriptedSource)
        ensures
            r.script == script,
            r.pos == 0,
    {
        ScriptedSource { script, pos: 0 }
    }
}

impl RandomSource for ScriptedSource {
    fn next_below(&mut self, bound: u64) -> (r: u64)
        ensures
            final(self).script == old(self).script,
            old(self).pos < old(self).script.len() ==> r == old(self).script@[
                old(self).pos as int
            ] % bound && final(self).pos == old(self).pos + 1,
            old(self).pos >= old(self).script.len() ==> r == 0 && final(self).pos == old(self).pos,
    {
        if self.pos < self.script.len() {
            let v = self.script[self.pos];
            self.pos = self.pos + 1;
            v % bound
        } else {
            0
        }
    }
}

} // verus!
