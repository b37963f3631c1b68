//! The injected randomness capability: a narrow interface for drawing a
//! uniform integer below a bound, with an operating-system-backed source for
//! production and a seeded deterministic source for reproducible runs.

use vstd::prelude::*;
use rand::Rng;

verus! {

/// A source of random integers: the one capability the engine needs.
///
/// A source may declare itself deterministic; the draws of such a source are
/// pinned exactly by `next_value` and `next_state`, so everything computed
/// from them is reproducible.
pub trait RandomSource: Sized {
    /// Whether the source's draws are a function of its state alone.
    spec fn deterministic(&self) -> bool;

    /// For a deterministic source: the value the next draw returns.
    spec fn next_value(&self, bound: usize) -> usize;

    /// For a deterministic source: the state after the next draw.
    spec fn next_state(&self, bound: usize) -> Self;

    /// Draw an integer in `0 .. bound`.
    fn pick(&mut self, bound: usize) -> (r: usize)
        requires
            bound >= 1,
        ensures
            r < bound,
            old(self).deterministic() ==> r == old(self).next_value(bound) && *final(self)
                == old(self).next_state(bound) && final(self).deterministic(),
    ;
}

/// Randomness from the process-wide generator the operating system seeds;
/// the production source.
pub struct OsRandom {}

impl OsRandom {
    pub fn new() -> (r: OsRandom)
        ensures
            !r.deterministic(),
    {
        OsRandom {  }
    }
}

/// Relies on `rand::thread_rng` and `rand::Rng::gen_range`: `gen_range(0..bound)`
/// returns a value in that range, and panics only on an empty range, which
/// `bound >= 1` rules out.
#[verifier::external_body]
fn os_random_below(bound: usize) -> (r: usize)
    requires
        bound >= 1,
    ensures
        r < bound,
{
    rand::thread_rng().gen_range(0..bound)
}

impl RandomSource for OsRandom {
    open spec fn deterministic(&self) -> bool {
        false
    }

    open spec fn next_value(&self, bound: usize) -> usize {
        0
    }

    open spec fn next_state(&self, bound: usize) -> OsRandom {
        OsRandom {  }
    }

    fn pick(&mut self, bound: usize) -> (r: usize) {
        os_random_below(bound)
    }
}

/// The successor of `state` under a 64-bit linear congruential generator.
pub open spec fn lcg_next(state: u64) -> u64 {
    (((state as int) * 6364136223846793005 + 1442695040888963407) % 0x1_0000_0000_0000_0000) as u64
}

/// The value a seeded source in `state` draws when asked for an integer
/// below `bound`.
pub open spec fn lcg_pick(state: u64, bound: usize) -> usize {
    (((lcg_next(state) >> 33) as usize) % bound) as usize
}

/// A deterministic source: a 64-bit linear congruential generator. Sources
/// built from the same seed make exactly the same draws, which makes
/// everything computed from them reproducible.
pub struct SeededRandom {
    pub state: u64,
}

impl SeededRandom {
    /// A source whose draws are fixed by `seed`.
    pub fn from_seed(seed: u64) -> (r: SeededRandom)
        ensures
            r.state == seed,
            r.deterministic(),
    {
        SeededRandom { state: seed }
    }
}

impl RandomSource for SeededRandom {
    open spec fn deterministic(&self) -> bool {
        true
    }

    open spec fn next_value(&self, bound: usize) -> usize {
        lcg_pick(self.state, bound)
    }

    open spec fn next_state(&self, bound: usize) -> SeededRandom {
        SeededRandom { state: lcg_next(self.state) }
    }

    fn pick(&mut self, bound: usize) -> (r: usize) {
        let wide: u128 = (self.state as u128) * 6364136223846793005u128 + 1442695040888963407u128;
        let next: u64 = (wide % 0x1_0000_0000_0000_0000u128) as u64;
        self.state = next;
        let hi: u64 = next >> 33;
        (hi as usize) % bound
    }
}

} // verus!
