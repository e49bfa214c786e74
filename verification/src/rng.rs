//! The random-number source used by all games: a small deterministic
//! generator producing integers in an inclusive range.
//!
//! The generator is an explicitly owned value; callers seed it once and
//! thread it through every draw, so a fixed seed replays a whole session.
//! The one contract every draw obeys is `min <= result <= max`.

use vstd::prelude::*;

verus! {

/// Successor state of the xorshift step: the whole generator is this
/// function iterated from the seed.
pub open spec fn rng_next(s: u64) -> u64 {
    let a = s ^ (s << 13);
    let b = a ^ (a >> 7);
    b ^ (b << 17)
}

/// The generator state after `n` draws from state `s`.
pub open spec fn rng_state_after(s: u64, n: int) -> u64
    decreases n,
{
    if n <= 0 {
        s
    } else {
        rng_next(rng_state_after(s, n - 1))
    }
}

/// The value drawn from state `s` for the inclusive range `[min, max]`.
pub open spec fn rng_val(s: u64, min: int, max: int) -> int {
    min + (rng_next(s) as int % (max + 1 - min))
}

/// Deterministic generator of integers in an inclusive range.
pub struct Rng {
    pub state: u64,
}

impl Rng {
    /// A generator that will replay the draw sequence of `seed`.
    pub fn new(seed: u64) -> (r: Rng)
        ensures
            r.state == seed,
    {
        Rng { state: seed }
    }

    /// Draws the next integer in `[min, max]`, both bounds included.
    pub fn random_number(&mut self, min: i32, max: i32) -> (r: i32)
        requires
            min <= max,
        ensures
            final(self).state == rng_next(old(self).state),
            r == rng_val(old(self).state, min as int, max as int),
            min <= r <= max,
    {
        let a = self.state ^ (self.state << 13u64);
        let b = a ^ (a >> 7u64);
        self.state = b ^ (b << 17u64);
        let range: i64 = max as i64 + 1 - min as i64;
        let offset: u64 = self.state % (range as u64);
        assert(0 <= offset < range as u64) by {
            assert(range as u64 > 0);
        };
        let r: i64 = min as i64 + offset as i64;
        r as i32
    }
}

} // verus!
