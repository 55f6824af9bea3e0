//! Deterministic pseudo-random stream: a 32-bit xorshift generator.

use vstd::prelude::*;

verus! {

/// One xorshift step: `x ^= x << 13; x ^= x >> 17; x ^= x << 5`.
pub open spec fn spec_step(x: u32) -> u32 {
    let a = x ^ (x << 13u32);
    let b = a ^ (a >> 17u32);
    b ^ (b << 5u32)
}

/// The stream's state after `n` steps from `seed`. For `n >= 1` this is also
/// the `n`-th emitted value, since each step returns the new state.
pub open spec fn spec_state(seed: u32, n: nat) -> u32
    decreases n,
{
    if n == 0 {
        seed
    } else {
        spec_step(spec_state(seed, (n - 1) as nat))
    }
}

/// A minimal pseudo-random number generator producing a reproducible
/// sequence of 32-bit values from a seed.
pub struct Xorshift32 {
    x: u32,
}

impl Xorshift32 {
    /// The current internal state.
    pub closed spec fn view(&self) -> u32 {
        self.x
    }

    /// Creates a stream whose state is exactly the given seed.
    pub fn new(seed: u32) -> (s: Self)
        ensures
            s@ == seed,
    {
        Xorshift32 { x: seed }
    }

    /// Advances the stream by one xorshift step and returns the new state.
    pub fn next_u32(&mut self) -> (r: u32)
        ensures
            r == spec_step(old(self)@),
            final(self)@ == spec_step(old(self)@),
    {
        let mut x = self.x;
        x = x ^ (x << 13u32);
        x = x ^ (x >> 17u32);
        x = x ^ (x << 5u32);
        self.x = x;
        x
    }
}

/// Determinism: two streams created from equal seeds are in the same state
/// after the same number of steps, so they emit identical sequences.
pub proof fn lemma_stream_deterministic(seed1: u32, seed2: u32, n: nat)
    requires
        seed1 == seed2,
    ensures
        spec_state(seed1, n) == spec_state(seed2, n),
{
}

/// A seed of 0 is degenerate: the state stays 0 forever, so every emitted
/// value is 0.
pub proof fn lemma_zero_seed(n: nat)
    ensures
        spec_state(0, n) == 0,
    decreases n,
{
    if n > 0 {
        lemma_zero_seed((n - 1) as nat);
        assert(spec_step(0u32) == 0u32) by (bit_vector);
    }
}

} // verus!
