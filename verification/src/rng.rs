//! A small deterministic pseudo-random number generator (the splitmix64
//! step function). Every draw is pinned to a spec-level function of the
//! generator's state, so a run of the engine is a mathematical function of
//! its seed: two runs from the same seed draw the same stream.

use vstd::prelude::*;

verus! {

pub const GOLDEN_GAMMA: u64 = 0x9E3779B97F4A7C15;
pub const MIX_MUL_1: u64 = 0xBF58476D1CE4E5B9;
pub const MIX_MUL_2: u64 = 0x94D049BB133111EB;

/// The state advance of splitmix64.
pub open spec fn spec_advance(s: u64) -> u64 {
    s.wrapping_add(GOLDEN_GAMMA)
}

/// One mixing round: xor-shift, then a wrapping multiply.
pub open spec fn spec_mix_round(z: u64, shift: u64, mul: u64) -> u64 {
    (z ^ (z >> shift)).wrapping_mul(mul)
}

/// The output function of splitmix64, applied to an advanced state.
pub open spec fn spec_output(s: u64) -> u64 {
    let z1 = spec_mix_round(s, 30, MIX_MUL_1);
    let z2 = spec_mix_round(z1, 27, MIX_MUL_2);
    z2 ^ (z2 >> 31u64)
}

/// The first of two distinct positions drawn from state `s`, for a range
/// of length `len`.
pub open spec fn spec_pair_first(s: u64, len: u64) -> u64 {
    spec_output(spec_advance(s)) % len
}

/// The second of two distinct positions: drawn among the remaining
/// `len - 1` positions, then shifted past the first, so the two never
/// coincide.
pub open spec fn spec_pair_second(s: u64, len: u64) -> u64 {
    let a = spec_pair_first(s, len);
    let t = spec_output(spec_advance(spec_advance(s))) % ((len - 1) as u64);
    if t >= a {
        (t + 1) as u64
    } else {
        t
    }
}

/// A seeded deterministic random-number generator.
pub struct Prng {
    pub state: u64,
}

impl Prng {
    pub fn new(seed: u64) -> (r: Prng)
        ensures
            r.state == seed,
    {
        Prng { state: seed }
    }

    /// Draw the next 64-bit value. Both the value drawn and the state after
    /// the call are functions of the state before it.
    pub fn next_u64(&mut self) -> (r: u64)
        ensures
            final(self).state == spec_advance(old(self).state),
            r == spec_output(final(self).state),
    {
        self.state = self.state.wrapping_add(GOLDEN_GAMMA);
        let mut z: u64 = self.state;
        z = (z ^ (z >> 30u64)).wrapping_mul(MIX_MUL_1);
        z = (z ^ (z >> 27u64)).wrapping_mul(MIX_MUL_2);
        z ^ (z >> 31u64)
    }

    /// Draw a value uniformly below `bound`.
    pub fn below(&mut self, bound: u64) -> (r: u64)
        requires
            bound > 0,
        ensures
            r < bound,
            final(self).state == spec_advance(old(self).state),
            r == spec_output(final(self).state) % bound,
    {
        let v = self.next_u64();
        v % bound
    }

    /// Draw two distinct indices below `bound`: the first uniformly, the
    /// second uniformly among the remaining positions.
    pub fn distinct_pair(&mut self, bound: usize) -> (r: (usize, usize))
        requires
            2 <= bound,
            bound <= u64::MAX,
        ensures
            r.0 < bound,
            r.1 < bound,
            r.0 != r.1,
            r.0 as u64 == spec_pair_first(old(self).state, bound as u64),
            r.1 as u64 == spec_pair_second(old(self).state, bound as u64),
            final(self).state == spec_advance(spec_advance(old(self).state)),
    {
        let a = self.index_below(bound);
        let t = self.index_below(bound - 1);
        let b = if t >= a {
            t + 1
        } else {
            t
        };
        (a, b)
    }

    /// Draw an index uniformly below `bound`.
    pub fn index_below(&mut self, bound: usize) -> (r: usize)
        requires
            bound > 0,
        ensures
            r < bound,
            final(self).state == spec_advance(old(self).state),
            r == spec_output(final(self).state) % (bound as u64),
    {
        let v = self.below(bound as u64);
        v as usize
    }
}

} // verus!
