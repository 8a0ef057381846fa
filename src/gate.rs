use vstd::prelude::*;

verus! {

/// Parts per million that stand for a probability of one.
pub const RATIO_ONE: u32 = 1_000_000;

/// The state that follows `s` in the xorshift sequence.
pub open spec fn next_state(s: u64) -> u64 {
    let a = s ^ (s << 13u64);
    let b = a ^ (a >> 7u64);
    b ^ (b << 17u64)
}

/// Whether a draw from state `s` fires for a probability of `ratio` parts per million.
pub open spec fn fires_spec(s: u64, ratio: u32) -> bool {
    (next_state(s) % (RATIO_ONE as u64)) < ratio as u64
}

/// The state a gate seeded with `seed` starts from: xorshift cannot leave a
/// zero state, so a zero seed is replaced by a fixed odd constant.
pub open spec fn seeded_state(seed: u64) -> u64 {
    if seed == 0 {
        0x9e37_79b9_7f4a_7c15u64
    } else {
        seed
    }
}

/// A deterministic Bernoulli source: one xorshift draw per decision.
pub struct ProbabilisticGate {
    state: u64,
}

impl ProbabilisticGate {
    pub closed spec fn state(&self) -> u64 {
        self.state
    }

    /// A gate seeded with `seed` (a zero seed, which xorshift cannot leave, is replaced).
    pub fn new(seed: u64) -> (r: ProbabilisticGate)
        ensures
            r.state() == seeded_state(seed),
    {
        ProbabilisticGate { state: if seed == 0 { 0x9e37_79b9_7f4a_7c15u64 } else { seed } }
    }

    /// Draws once and reports whether an event of probability `ratio`
    /// (parts per million) happened. A ratio of zero never fires; a ratio of
    /// one million or more always fires.
    pub fn fires(&mut self, ratio: u32) -> (r: bool)
        ensures
            final(self).state() == next_state(old(self).state()),
            r == fires_spec(old(self).state(), ratio),
            ratio == 0 ==> !r,
            ratio >= RATIO_ONE ==> r,
    {
        let s = self.state;
        let a = s ^ (s << 13u64);
        let b = a ^ (a >> 7u64);
        let n = b ^ (b << 17u64);
        self.state = n;
        let draw = n % (RATIO_ONE as u64);
        draw < ratio as u64
    }
}

} // verus!
