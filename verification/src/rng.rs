//! A minimal xorshift pseudo-random generator over a 64-bit word.
//!
//! `next` hands out the current state and then advances it by three
//! shift-and-xor steps; `new` seeds the state and discards the first 32
//! outputs so that low-entropy seeds do not show through in the first draws.

use vstd::prelude::*;

verus! {

/// One xorshift update of the generator state: xor in a left shift by 13,
/// a right shift by 17, then a left shift by 43.
pub open spec fn xorshift_step(s: u64) -> u64 {
    let a = s ^ (s << 13u64);
    let b = a ^ (a >> 17u64);
    b ^ (b << 43u64)
}

/// The state reached from `s` after `n` xorshift steps.
pub open spec fn xorshift_iter(s: u64, n: nat) -> u64
    decreases n,
{
    if n == 0 {
        s
    } else {
        xorshift_step(xorshift_iter(s, (n - 1) as nat))
    }
}

/// The number of initial outputs a fresh generator discards.
pub const WARMUP_ROUNDS: usize = 32;

/// A pseudo-random generator; its abstract value is its 64-bit state word.
pub struct Rng {
    state: u64,
}

impl View for Rng {
    type V = u64;

    closed spec fn view(&self) -> u64 {
        self.state
    }
}

impl Rng {
    /// Seeds the generator and runs the warm-up: the resulting state is the
    /// seed advanced by 32 xorshift steps.
    pub fn new(seed: u64) -> (rng: Rng)
        ensures
            rng@ == xorshift_iter(seed, WARMUP_ROUNDS as nat),
    {
        let mut rng = Rng { state: seed };
        let mut i: usize = 0;
        while i < WARMUP_ROUNDS
            invariant
                i <= WARMUP_ROUNDS,
                rng@ == xorshift_iter(seed, i as nat),
            decreases WARMUP_ROUNDS - i,
        {
            rng.next();
            i = i + 1;
        }
        rng
    }

    /// Returns the current state and advances it by one xorshift step.
    pub fn next(&mut self) -> (r: u64)
        ensures
            r == old(self)@,
            final(self)@ == xorshift_step(old(self)@),
    {
        let ret = self.state;
        self.state = self.state ^ (self.state << 13u64);
        self.state = self.state ^ (self.state >> 17u64);
        self.state = self.state ^ (self.state << 43u64);
        ret
    }
}

} // verus!
