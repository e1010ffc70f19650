//! Where the ordering takes its random draws from.

use vstd::prelude::*;

verus! {

/// A source of random draws. The ordering reduces each draw modulo the number
/// of outcomes it chooses between, so an implementation owes nothing about the
/// values it hands out; how evenly they are spread decides how closely the
/// picks follow the weights.
pub trait RandomSource {
    /// Hands out the next draw.
    fn next_u64(&mut self) -> u64;
}

/// Step by which the state of a `SeededRng` moves between two draws.
pub const SEED_STEP: u64 = 0x9E37_79B9_7F4A_7C15;

/// First multiplier of the output scrambling.
pub const MIX_A: u64 = 0xBF58_476D_1CE4_E5B9;

/// Second multiplier of the output scrambling.
pub const MIX_B: u64 = 0x94D0_49BB_1331_11EB;

/// The state that follows `state`.
pub open spec fn next_state(state: u64) -> u64 {
    state.wrapping_add(SEED_STEP)
}

/// The draw that a generator hands out on reaching `state`.
pub open spec fn scramble(state: u64) -> u64 {
    let a = (state ^ (state >> 30)).wrapping_mul(MIX_A);
    let b = (a ^ (a >> 27)).wrapping_mul(MIX_B);
    b ^ (b >> 31)
}

/// A deterministic generator: equal seeds give equal sequences of draws.
#[derive(Debug, Clone, Copy, PartialEq, Eq)]
pub struct SeededRng {
    state: u64,
}

impl SeededRng {
    /// The current state.
    pub closed spec fn state(&self) -> u64 {
        self.state
    }

    /// A generator that starts from `seed`.
    pub fn new(seed: u64) -> (rng: SeededRng)
        ensures
            rng.state() == seed,
    {
        SeededRng { state: seed }
    }
}

impl RandomSource for SeededRng {
    fn next_u64(&mut self) -> (draw: u64)
        ensures
            final(self).state() == next_state(old(self).state()),
            draw == scramble(final(self).state()),
    {
        self.state = self.state.wrapping_add(SEED_STEP);
        let a: u64 = (self.state ^ (self.state >> 30)).wrapping_mul(MIX_A);
        let b: u64 = (a ^ (a >> 27)).wrapping_mul(MIX_B);
        b ^ (b >> 31)
    }
}

} // verus!
