//! The seeded source of randomness.
//!
//! A `Generator` is a seed and the number of draws made so far. The ChaCha12
//! generator of the `rand` crates has 2^64 streams for every seed; every
//! draw is made from the start of a stream of its own, the stream whose
//! number is the number of draws made before. So a run is a function of its
//! seed, and no draw reads what another draw reads. The draws themselves are
//! made by the `rand` crate: a number in a range by `gen_range`, one of
//! several candidates by `choose`.
use crate::fixed::Fixed;
use crate::math::TWO_PI_RAW;
use rand::seq::SliceRandom;
use rand::{Rng, SeedableRng};
use rand_chacha::ChaCha12Rng;
use vstd::prelude::*;

verus! {

/// What `gen_range` of the `rand` crate draws from `low..=high` with a
/// ChaCha12 generator seeded with `seed` and set to the stream `stream`.
pub uninterp spec fn stream_number(seed: u64, stream: u64, low: i64, high: i64) -> i64;

/// Makes a generator with `ChaCha12Rng::seed_from_u64`, sets its stream with
/// `set_stream` and draws from `low..=high` with `Rng::gen_range`. The
/// contract claims that the number depends on nothing but the seed, the
/// stream and the range, and that it lies in the range. An empty range is
/// left out: `gen_range` panics on it.
#[verifier::external_body]
fn number_at(seed: u64, stream: u64, low: i64, high: i64) -> (r: i64)
    requires
        low <= high,
    ensures
        r == stream_number(seed, stream, low, high),
        low <= r <= high,
{
    let mut rng = ChaCha12Rng::seed_from_u64(seed);
    rng.set_stream(stream);
    rng.gen_range(low..=high)
}

/// What `choose` of the `rand` crate picks among `candidates` with a ChaCha12
/// generator seeded with `seed` and set to the stream `stream`.
pub uninterp spec fn stream_choice(seed: u64, stream: u64, candidates: Seq<usize>) -> Option<
    usize,
>;

/// Makes a generator with `ChaCha12Rng::seed_from_u64`, sets its stream with
/// `set_stream` and lets `SliceRandom::choose` pick one of `candidates`. The
/// contract claims that the pick depends on nothing but the seed, the
/// stream and the candidates, that there is none only where there is no
/// candidate, and that the pick is one of the candidates.
#[verifier::external_body]
fn choose_at(seed: u64, stream: u64, candidates: &Vec<usize>) -> (r: Option<usize>)
    ensures
        r == stream_choice(seed, stream, candidates@),
        r is None <==> candidates@.len() == 0,
        r is Some ==> candidates@.contains(r.unwrap()),
{
    let mut rng = ChaCha12Rng::seed_from_u64(seed);
    rng.set_stream(stream);
    candidates.choose(&mut rng).copied()
}

/// A seed and the number of draws made so far. The position is the number
/// of the stream that the next draw is made from.
#[derive(Clone, Copy, Debug, PartialEq, Eq, Structural)]
pub struct Generator {
    pub seed: u64,
    pub position: u64,
}

impl Generator {
    /// The generator for `seed`, at the start of its stream.
    pub open spec fn spec_new(seed: u64) -> Generator {
        Generator { seed, position: 0 }
    }

    /// The generator for `seed`, at the start of its stream.
    #[verifier::when_used_as_spec(spec_new)]
    pub fn new(seed: u64) -> (r: Generator)
        ensures
            r == Self::spec_new(seed),
    {
        Generator { seed, position: 0 }
    }

    /// The generator after one draw. After the last position comes the
    /// first.
    pub open spec fn advanced(self) -> Generator {
        Generator {
            seed: self.seed,
            position: if self.position == u64::MAX {
                0
            } else {
                (self.position + 1) as u64
            },
        }
    }

    /// Moves one draw on and returns the stream of the draw.
    fn step(&mut self) -> (stream: u64)
        ensures
            stream == old(self).position,
            *final(self) == old(self).advanced(),
    {
        let stream = self.position;
        if self.position == u64::MAX {
            self.position = 0;
        } else {
            self.position = self.position + 1;
        }
        stream
    }

    /// What the next draw picks among `candidates`: one of them, drawn
    /// uniformly by `choose` of the `rand` crate; none where there is none.
    pub open spec fn choice(self, candidates: Seq<usize>) -> Option<usize> {
        stream_choice(self.seed, self.position, candidates)
    }

    /// Draws one of `candidates`, each with the same chance.
    pub fn pick_one(&mut self, candidates: &Vec<usize>) -> (r: Option<usize>)
        ensures
            r == old(self).choice(candidates@),
            r is None <==> candidates@.len() == 0,
            r is Some ==> candidates@.contains(r.unwrap()),
            *final(self) == old(self).advanced(),
    {
        let stream = self.step();
        choose_at(self.seed, stream, candidates)
    }

    /// The number in `[low, high]` that the next draw picks, drawn uniformly
    /// by `gen_range` of the `rand` crate; `low` where the range is empty.
    pub open spec fn number_between(self, low: Fixed, high: Fixed) -> Fixed {
        if high.raw < low.raw {
            low
        } else {
            Fixed { raw: stream_number(self.seed, self.position, low.raw, high.raw) }
        }
    }

    /// Draws a number in `[low, high]`, each raw value with the same chance;
    /// `low` where the range is empty.
    pub fn between(&mut self, low: Fixed, high: Fixed) -> (r: Fixed)
        ensures
            r == old(self).number_between(low, high),
            low.raw <= high.raw ==> low.raw <= r.raw <= high.raw,
            *final(self) == old(self).advanced(),
    {
        let stream = self.step();
        if high.raw < low.raw {
            low
        } else {
            Fixed { raw: number_at(self.seed, stream, low.raw, high.raw) }
        }
    }

    /// The angle that the next draw picks.
    pub open spec fn turn(self) -> Fixed {
        self.number_between(Fixed { raw: 0 }, Fixed { raw: (TWO_PI_RAW - 1) as i64 })
    }

    /// Draws an angle of at least zero and less than a full turn.
    pub fn angle(&mut self) -> (r: Fixed)
        ensures
            r == old(self).turn(),
            0 <= r.raw < TWO_PI_RAW,
            *final(self) == old(self).advanced(),
    {
        self.between(Fixed { raw: 0 }, Fixed { raw: TWO_PI_RAW - 1 })
    }
}

} // verus!
