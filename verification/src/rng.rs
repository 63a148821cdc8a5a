//! A small deterministic pseudo-random generator.
//!
//! World construction scatters the agents pseudo-randomly; keeping the
//! generator inside the library, seeded by the caller, makes every run
//! a pure function of the construction arguments.

use vstd::prelude::*;

verus! {

/// The linear-congruential step (Knuth's MMIX constants) on a 64-bit
/// state.
pub open spec fn next_state(s: u64) -> u64 {
    (((s as int) * 6364136223846793005 + 1442695040888963407) % 18446744073709551616) as u64
}

/// A 64-bit linear-congruential pseudo-random generator.
#[derive(Clone, Copy, PartialEq, Eq, Structural, Debug)]
pub struct Lcg {
    /// The current state; the next draw is a function of it alone.
    pub state: u64,
}

impl Lcg {
    /// A generator whose whole stream is determined by `seed`.
    pub fn seeded(seed: u64) -> (r: Lcg)
        ensures
            r.state == seed,
    {
        Lcg { state: seed }
    }

    /// Advances the state and returns it.
    pub fn next(&mut self) -> (r: u64)
        ensures
            final(self).state == next_state(old(self).state),
            r == next_state(old(self).state),
    {
        let wide: u128 = (self.state as u128) * 6364136223846793005u128 + 1442695040888963407u128;
        proof {
            assert((self.state as u128) * 6364136223846793005u128
                <= 18446744073709551615 * 6364136223846793005) by (nonlinear_arith)
                requires
                    self.state as int <= 18446744073709551615,
            {
            }
        }
        let next: u64 = (wide % 18446744073709551616u128) as u64;
        self.state = next;
        next
    }

    /// Advances the state and returns a draw below `bound`.
    pub fn below(&mut self, bound: u64) -> (r: u64)
        requires
            bound > 0,
        ensures
            final(self).state == next_state(old(self).state),
            r == next_state(old(self).state) % bound,
            r < bound,
    {
        let n = self.next();
        n % bound
    }
}

} // verus!
