//! A deterministic random-number source, threaded through the evaluator so
//! that a whole run is a pure function of the program and the seed. Fresh
//! seeds for unseeded runs are drawn from the `rand` crate.

use vstd::prelude::*;

verus! {

/// The additive constant of the splitmix64 sequence.
pub open spec fn rng_increment() -> u64 {
    0x9E3779B97F4A7C15u64
}

/// The state after one advance.
pub open spec fn rng_advance(s: u64) -> u64 {
    vstd::wrapping::u64_specs::wrapping_add(s, rng_increment())
}

/// The output word mixed out of a state.
pub open spec fn rng_output(s: u64) -> u64 {
    let z1 = vstd::wrapping::u64_specs::wrapping_mul(s ^ (s >> 30u64), 0xBF58476D1CE4E5B9u64);
    let z2 = vstd::wrapping::u64_specs::wrapping_mul(z1 ^ (z1 >> 27u64), 0x94D049BB133111EBu64);
    z2 ^ (z2 >> 31u64)
}

/// The draw of `random(lo, hi)`: for `lo < hi`, the state advances once and
/// the value is `lo` plus the output word reduced modulo the span; otherwise
/// the state is unchanged and the value is `lo`. The modulo reduction makes
/// the draw very slightly non-uniform: values below `2^64 mod span` are
/// favoured by at most one part in `2^64 / span`.
pub open spec fn rng_draw(s: u64, lo: int, hi: int) -> (u64, int) {
    if lo < hi {
        let s2 = rng_advance(s);
        (s2, lo + (rng_output(s2) as int % (hi - lo)))
    } else {
        (s, lo)
    }
}

/// The state of a generator seeded with `seed` after `n` draws.
pub open spec fn rng_state_after(seed: u64, n: int) -> u64
    decreases n,
{
    if n <= 0 {
        seed
    } else {
        rng_advance(rng_state_after(seed, n - 1))
    }
}

/// A splitmix64 generator.
pub struct Rng {
    pub state: u64,
}

impl Rng {
    /// A generator starting from `seed`.
    pub fn new(seed: u64) -> (r: Rng)
        ensures
            r.state == seed,
    {
        Rng { state: seed }
    }

    /// Advances the state once and mixes out a word.
    pub fn next_word(&mut self) -> (r: u64)
        ensures
            final(self).state == rng_advance(old(self).state),
            r == rng_output(final(self).state),
    {
        self.state = self.state.wrapping_add(0x9E3779B97F4A7C15u64);
        let s = self.state;
        let z1 = (s ^ (s >> 30u64)).wrapping_mul(0xBF58476D1CE4E5B9u64);
        let z2 = (z1 ^ (z1 >> 27u64)).wrapping_mul(0x94D049BB133111EBu64);
        z2 ^ (z2 >> 31u64)
    }

    /// A uniform draw in `[lo, hi)`, or `lo` itself when `hi <= lo`.
    pub fn gen_range(&mut self, lo: i32, hi: i32) -> (r: i32)
        ensures
            (final(self).state, r as int) == rng_draw(old(self).state, lo as int, hi as int),
            hi > lo ==> lo <= r < hi,
            hi <= lo ==> r == lo,
    {
        if hi > lo {
            let w = self.next_word();
            let span: u64 = (hi as i64 - lo as i64) as u64;
            let off: u64 = w % span;
            (lo as i64 + off as i64) as i32
        } else {
            lo
        }
    }
}

/// Relies on `rand::random::<u64>`: a seed drawn from the thread-local
/// generator of the `rand` crate; nothing is promised of its value.
#[verifier::external_body]
pub(crate) fn entropy_seed() -> u64 {
    rand::random::<u64>()
}

} // verus!
