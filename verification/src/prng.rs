//! Deterministic 64-bit xorshift pseudo-random generator.
//!
//! Probabilities are fixed-point: a draw with threshold `t` succeeds when the
//! next generator output is below `t`, so `t` encodes the probability
//! `t / 2^64`. Ranged draws map an output `x` to `lo + (x * (hi - lo)) / 2^64`.

use vstd::prelude::*;

verus! {

/// Cap on the number of trials a single Poisson-like draw may consume, so
/// that the draw terminates even for degenerate thresholds.
pub const POISSON_CAP: u64 = 65536;

/// One step of the 64-bit xorshift generator: three shift-and-xor rounds.
pub open spec fn xorshift_step(s: u64) -> u64 {
    let a = s ^ (s << 13);
    let b = a ^ (a >> 7);
    b ^ (b << 17)
}

/// Number of successful trials a Poisson-like draw makes from state `s` with
/// threshold `t`, stopping at the first failure or after `fuel` trials.
pub open spec fn poisson_count(s: u64, t: u64, fuel: nat) -> nat
    decreases fuel,
{
    if fuel == 0 {
        0
    } else if xorshift_step(s) < t {
        1 + poisson_count(xorshift_step(s), t, (fuel - 1) as nat)
    } else {
        0
    }
}

/// Generator state after the Poisson-like draw described by [`poisson_count`].
pub open spec fn poisson_state(s: u64, t: u64, fuel: nat) -> u64
    decreases fuel,
{
    if fuel == 0 {
        s
    } else if xorshift_step(s) < t {
        poisson_state(xorshift_step(s), t, (fuel - 1) as nat)
    } else {
        xorshift_step(s)
    }
}

/// Value of a ranged draw: output `x` scaled into the half-open interval
/// `[lo, hi)` by `lo + floor(x * (hi - lo) / 2^64)`.
pub open spec fn range_value(x: u64, lo: int, hi: int) -> int {
    lo + (x * (hi - lo)) / 0x1_0000_0000_0000_0000
}

/// Deterministic 64-bit xorshift pseudo-random generator.
#[derive(Debug, Clone, Copy, PartialEq, Eq, Structural)]
pub struct Xorshift64(pub u64);

impl Xorshift64 {
    /// Advance the state by one xorshift round and return the new state.
    pub fn next_u64(&mut self) -> (r: u64)
        ensures
            final(self).0 == xorshift_step(old(self).0),
            r == final(self).0,
    {
        self.0 ^= self.0 << 13;
        self.0 ^= self.0 >> 7;
        self.0 ^= self.0 << 17;
        self.0
    }

    /// Bernoulli trial with probability `t / 2^64`: draw once and succeed when
    /// the draw lies below the threshold.
    pub fn bernoulli(&mut self, t: u64) -> (r: bool)
        ensures
            final(self).0 == xorshift_step(old(self).0),
            r == (xorshift_step(old(self).0) < t),
    {
        let x = self.next_u64();
        x < t
    }

    /// Poisson-like draw: count successful Bernoulli trials with threshold `t`
    /// until the first failure, consuming at most [`POISSON_CAP`] trials.
    pub fn poisson(&mut self, t: u64) -> (r: u64)
        ensures
            r == poisson_count(old(self).0, t, POISSON_CAP as nat),
            final(self).0 == poisson_state(old(self).0, t, POISSON_CAP as nat),
            r <= POISSON_CAP,
    {
        let ghost s0 = self.0;
        let mut count: u64 = 0;
        loop
            invariant_except_break
                poisson_count(s0, t, POISSON_CAP as nat) == count + poisson_count(
                    self.0,
                    t,
                    (POISSON_CAP - count) as nat,
                ),
                poisson_state(s0, t, POISSON_CAP as nat) == poisson_state(
                    self.0,
                    t,
                    (POISSON_CAP - count) as nat,
                ),
            invariant
                count <= POISSON_CAP,
            ensures
                count == poisson_count(s0, t, POISSON_CAP as nat),
                self.0 == poisson_state(s0, t, POISSON_CAP as nat),
            decreases POISSON_CAP - count,
        {
            if count >= POISSON_CAP {
                break ;
            }
            if !self.bernoulli(t) {
                break ;
            }
            count = count + 1;
        }
        count
    }

    /// Draw an integer from the half-open range `[lo, hi)` by scaling one
    /// generator output into the range.
    pub fn range(&mut self, lo: usize, hi: usize) -> (r: usize)
        requires
            lo < hi,
        ensures
            final(self).0 == xorshift_step(old(self).0),
            r == range_value(xorshift_step(old(self).0), lo as int, hi as int),
            lo <= r < hi,
    {
        let x = self.next_u64();
        let span = (hi - lo) as u128;
        proof {
            assert((x as u128) * span <= u64::MAX as u128 * u64::MAX as u128) by (nonlinear_arith)
                requires
                    x <= u64::MAX,
                    span <= u64::MAX as u128,
            ;
            assert((x * span) / 0x1_0000_0000_0000_0000 < span) by (nonlinear_arith)
                requires
                    x < 0x1_0000_0000_0000_0000,
                    span > 0,
            ;
        }
        let prod = (x as u128) * span;
        let off = (prod / 0x1_0000_0000_0000_0000) as usize;
        lo + off
    }
}

} // verus!
