//! Deterministic random numbers for reproducible simulations.
//!
//! The generator is PCG-XSH-RR as provided by `oorandom::Rand32`. Its whole
//! internal state is kept here as plain integers, so a saved generator resumes
//! exactly where it stopped.
use vstd::prelude::*;

verus! {

/// The internal state `(state, increment)` of `oorandom::Rand32::new(seed)`.
pub uninterp spec fn pcg_seeded(seed: u64) -> (u64, u64);

/// What `oorandom::Rand32::rand_u32` returns on the internal state
/// `(state, increment)`, and the state it leaves behind.
pub uninterp spec fn pcg_next(st: (u64, u64)) -> (u32, u64);

/// Relies on `oorandom::Rand32::new` and `Rand32::state`: the state after
/// seeding depends on the seed alone.
#[verifier::external_body]
fn pcg_seed(seed: u64) -> (r: (u64, u64))
    ensures
        r == pcg_seeded(seed),
{
    oorandom::Rand32::new(seed).state()
}

/// Relies on `oorandom::Rand32::rand_u32` (with `from_state` and `state` to
/// carry the state in and out): the output and the next state depend on the
/// state alone, and the increment is left as it was.
#[verifier::external_body]
fn pcg_draw(state: u64, inc: u64) -> (r: (u32, u64))
    ensures
        r == pcg_next((state, inc)),
{
    let mut g = oorandom::Rand32::from_state((state, inc));
    let v = g.rand_u32();
    (v, g.state().0)
}

/// A seeded pseudo-random stream.
#[derive(Debug, Clone, Copy, PartialEq, Eq, Structural)]
pub struct Rng {
    /// The seed the stream was created from.
    pub seed: u64,
    /// The generator's state word.
    pub pcg_state: u64,
    /// The generator's increment.
    pub pcg_inc: u64,
    /// Wrapping sum of every value drawn so far.
    pub tally: u64,
}

impl Rng {
    /// The value the next draw returns, and the stream after it.
    pub open spec fn spec_next(self) -> (u32, Rng) {
        let (v, s) = pcg_next((self.pcg_state, self.pcg_inc));
        (v, Rng { seed: self.seed, pcg_state: s, pcg_inc: self.pcg_inc, tally: self.tally.wrapping_add(v as u64) })
    }

    /// The stream after `n` draws.
    pub open spec fn spec_advance(self, n: nat) -> Rng
        decreases n,
    {
        if n == 0 {
            self
        } else {
            self.spec_next().1.spec_advance((n - 1) as nat)
        }
    }

    /// The first `n` values drawn from this stream.
    pub open spec fn spec_draws(self, n: nat) -> Seq<u32>
        decreases n,
    {
        if n == 0 {
            Seq::empty()
        } else {
            seq![self.spec_next().0] + self.spec_next().1.spec_draws((n - 1) as nat)
        }
    }

    /// The value of `rand_int_range(min, max)` when the drawn word is `v`.
    pub open spec fn int_in_range(v: u32, min: i32, max: i32) -> i32 {
        if min >= max {
            min
        } else {
            (min + (v as int) % ((max - min) as int)) as i32
        }
    }

    /// The stream created from `seed`.
    pub open spec fn new_spec(seed: u64) -> Rng {
        Rng { seed, pcg_state: pcg_seeded(seed).0, pcg_inc: pcg_seeded(seed).1, tally: 0 }
    }

    /// Creates a new stream from `seed`.
    pub fn new(seed: u64) -> (r: Rng)
        ensures
            r == Rng::new_spec(seed),
    {
        let (s, inc) = pcg_seed(seed);
        Rng { seed, pcg_state: s, pcg_inc: inc, tally: 0 }
    }

    /// Rebuilds a stream from its saved parts.
    pub fn from_parts(seed: u64, pcg_state: u64, pcg_inc: u64, tally: u64) -> (r: Rng)
        ensures
            r == (Rng { seed, pcg_state, pcg_inc, tally }),
    {
        Rng { seed, pcg_state, pcg_inc, tally }
    }

    /// Draws a uniformly distributed `u32`.
    pub fn rand_u32(&mut self) -> (r: u32)
        ensures
            (r, *final(self)) == old(self).spec_next(),
    {
        let (v, s) = pcg_draw(self.pcg_state, self.pcg_inc);
        self.pcg_state = s;
        self.tally = self.tally.wrapping_add(v as u64);
        v
    }

    /// Draws an integer in `[min, max)`; returns `min` when the range is empty.
    pub fn rand_int_range(&mut self, min: i32, max: i32) -> (r: i32)
        ensures
            min < max ==> min <= r < max,
            min >= max ==> r == min && *final(self) == *old(self),
            min < max ==> r == Self::int_in_range(old(self).spec_next().0, min, max)
                && *final(self) == old(self).spec_next().1,
    {
        if min >= max {
            return min;
        }
        let range: u32 = (max as i64 - min as i64) as u32;
        let v = self.rand_u32();
        (min as i64 + (v % range) as i64) as i32
    }

    /// The seed the stream was created from.
    pub fn seed(&self) -> (r: u64)
        ensures
            r == self.seed,
    {
        self.seed
    }

    /// Wrapping sum of every value drawn so far.
    pub fn state(&self) -> (r: u64)
        ensures
            r == self.tally,
    {
        self.tally
    }
}

/// A stream rebuilt from its saved parts draws exactly what the saved stream
/// would have drawn, for any number of draws, and ends in the same state.
pub proof fn lemma_restored_stream_resumes(r: Rng, n: nat)
    ensures
        (Rng { seed: r.seed, pcg_state: r.pcg_state, pcg_inc: r.pcg_inc, tally: r.tally }).spec_draws(n)
            == r.spec_draws(n),
        (Rng { seed: r.seed, pcg_state: r.pcg_state, pcg_inc: r.pcg_inc, tally: r.tally }).spec_advance(n)
            == r.spec_advance(n),
{
}

} // verus!
