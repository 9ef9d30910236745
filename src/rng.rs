//! A small seedable pseudo-random generator (SplitMix64), so that every
//! resampling run can be repeated from an explicit seed.

use vstd::prelude::*;

verus! {

/// Added to the state before each output.
pub const GOLDEN_GAMMA: u64 = 0x9E37_79B9_7F4A_7C15;

/// First multiplier of the output mix.
pub const MIX_A: u64 = 0xBF58_476D_1CE4_E5B9;

/// Second multiplier of the output mix.
pub const MIX_B: u64 = 0x94D0_49BB_1331_11EB;

/// Sum modulo 2^64.
pub open spec fn wrap_add(a: u64, b: u64) -> u64 {
    ((a as int + b as int) % 0x1_0000_0000_0000_0000) as u64
}

/// Product modulo 2^64.
pub open spec fn wrap_mul(a: u64, b: u64) -> u64 {
    ((a as int * b as int) % 0x1_0000_0000_0000_0000) as u64
}

/// The output that a state yields once it has been advanced.
pub open spec fn mix(z: u64) -> u64 {
    let a = wrap_mul(z ^ (z >> 30u64), MIX_A);
    let b = wrap_mul(a ^ (a >> 27u64), MIX_B);
    b ^ (b >> 31u64)
}

/// The generator; its view is the 64-bit state.
pub struct SplitMix64 {
    state: u64,
}

impl View for SplitMix64 {
    type V = u64;

    closed spec fn view(&self) -> u64 {
        self.state
    }
}

impl SplitMix64 {
    /// A generator whose state is `seed`.
    pub fn new(seed: u64) -> (r: SplitMix64)
        ensures
            r@ == seed,
    {
        SplitMix64 { state: seed }
    }

    /// Advances the state and returns the mixed output.
    pub fn next_u64(&mut self) -> (r: u64)
        ensures
            final(self)@ == wrap_add(old(self)@, GOLDEN_GAMMA),
            r == mix(final(self)@),
    {
        self.state = self.state.wrapping_add(GOLDEN_GAMMA);
        let z = self.state;
        let a = (z ^ (z >> 30u64)).wrapping_mul(MIX_A);
        let b = (a ^ (a >> 27u64)).wrapping_mul(MIX_B);
        b ^ (b >> 31u64)
    }

    /// A number below `n`: the next output reduced modulo `n`.
    pub fn below(&mut self, n: u64) -> (r: u64)
        requires
            n > 0,
        ensures
            final(self)@ == wrap_add(old(self)@, GOLDEN_GAMMA),
            r == mix(final(self)@) % n,
            r < n,
    {
        let x = self.next_u64();
        x % n
    }

    /// A fresh generator seeded by the next output of this one, for handing
    /// to an independent trial.
    pub fn split(&mut self) -> (r: SplitMix64)
        ensures
            final(self)@ == wrap_add(old(self)@, GOLDEN_GAMMA),
            r@ == mix(final(self)@),
    {
        let seed = self.next_u64();
        SplitMix64::new(seed)
    }
}

} // verus!
