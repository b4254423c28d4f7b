//! The game's seeded random number generator (SplitMix64), saved with the game.
use vstd::prelude::*;

verus! {

/// Step added to the state on every draw.
pub open spec fn golden_gamma() -> u64 {
    0x9e37_79b9_7f4a_7c15u64
}

/// State after one draw.
pub open spec fn next_state(state: u64) -> u64 {
    state.wrapping_add(0x9e37_79b9_7f4a_7c15u64)
}

/// The SplitMix64 output mix applied to a state.
pub open spec fn mix(z: u64) -> u64 {
    let z1 = (z ^ (z >> 30u64)).wrapping_mul(0xbf58_476d_1ce4_e5b9u64);
    let z2 = (z1 ^ (z1 >> 27u64)).wrapping_mul(0x94d0_49bb_1331_11ebu64);
    z2 ^ (z2 >> 31u64)
}

/// Number drawn from a state.
pub open spec fn output(state: u64) -> u64 {
    mix(next_state(state))
}

/// Die face (1 to 6) drawn from a state.
pub open spec fn die_face(state: u64) -> u8 {
    (output(state) % 6 + 1) as u8
}

/// A seeded, copyable pseudo-random generator.
#[derive(Debug, Clone, Copy, PartialEq, Eq)]
pub struct SimpleRng {
    state: u64,
}

impl SimpleRng {
    /// The generator's state.
    pub closed spec fn spec_state(&self) -> u64 {
        self.state
    }

    /// A generator seeded with `seed`; a zero seed is replaced by the gamma constant.
    pub fn new(seed: u64) -> (rng: Self)
        ensures
            rng.spec_state() == if seed == 0 { golden_gamma() } else { seed },
    {
        SimpleRng { state: if seed == 0 { 0x9e37_79b9_7f4a_7c15 } else { seed } }
    }

    /// A generator resumed at a saved state.
    pub fn from_state(state: u64) -> (rng: Self)
        ensures
            rng.spec_state() == state,
    {
        SimpleRng { state }
    }

    /// The current state, for saving.
    pub fn state(&self) -> (state: u64)
        ensures
            state == self.spec_state(),
    {
        self.state
    }

    /// Draws the next 64-bit number.
    pub fn next(&mut self) -> (value: u64)
        ensures
            final(self).spec_state() == next_state(old(self).spec_state()),
            value == output(old(self).spec_state()),
    {
        self.state = self.state.wrapping_add(0x9e37_79b9_7f4a_7c15);
        let mut z = self.state;
        z = (z ^ (z >> 30)).wrapping_mul(0xbf58_476d_1ce4_e5b9);
        z = (z ^ (z >> 27)).wrapping_mul(0x94d0_49bb_1331_11eb);
        z ^ (z >> 31)
    }

    /// Rolls a six-sided die.
    pub fn die(&mut self) -> (face: u8)
        ensures
            final(self).spec_state() == next_state(old(self).spec_state()),
            face == die_face(old(self).spec_state()),
            1 <= face <= 6,
    {
        let value = self.next();
        (value % 6 + 1) as u8
    }
}

} // verus!
