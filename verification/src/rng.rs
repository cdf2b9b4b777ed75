//! The generator's randomness source: a small deterministic xorshift
//! generator seeded once per attempt, and the entropy tap used to draw a
//! fresh seed.

use vstd::prelude::*;

verus! {

/// The next state of the xorshift sequence.
pub open spec fn spec_xorshift(s: u64) -> u64 {
    let a = s ^ (s << 13);
    let b = a ^ (a >> 7);
    b ^ (b << 17)
}

/// A deterministic pseudo-random sequence. The same seed always yields the
/// same sequence of draws.
#[derive(Clone, Copy, Debug, PartialEq, Eq, Structural)]
pub struct RngState {
    /// Current state of the sequence.
    pub state: u64,
}

impl RngState {
    /// Starts the sequence determined by `seed`.
    pub fn new(seed: u64) -> (r: RngState)
        ensures
            r.state == seed | 1,
    {
        RngState { state: seed | 1 }
    }

    /// Advances the sequence and returns the new raw value.
    pub fn next_u64(&mut self) -> (r: u64)
        ensures
            final(self).state == spec_xorshift(old(self).state),
            r == final(self).state,
    {
        let mut s = self.state;
        s = s ^ (s << 13);
        s = s ^ (s >> 7);
        s = s ^ (s << 17);
        self.state = s;
        s
    }

    /// Draws a value below `bound`.
    pub fn next_below(&mut self, bound: u64) -> (r: u64)
        requires
            1 <= bound,
        ensures
            final(self).state == spec_xorshift(old(self).state),
            r == spec_xorshift(old(self).state) % bound,
            r < bound,
    {
        let v = self.next_u64();
        v % bound
    }
}

/// Relies on rand::random: draws one machine word from the thread-local
/// generator. Nothing is promised of the value.
#[verifier::external_body]
pub(crate) fn fresh_entropy() -> u64 {
    rand::random::<u64>()
}

} // verus!
