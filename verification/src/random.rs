//! Seedable randomness for the simulation.
//!
//! Every random draw the engine makes flows through [`RandomSource`],
//! which wraps rand's standard generator behind a seedable constructor,
//! so that a whole simulation run is reproducible from one seed.  The
//! contracts state only what rand documents: a drawn index lies in the
//! requested range; nothing else is assumed about the values.

use rand::Rng;
use rand::RngCore;
use rand::SeedableRng;
use vstd::prelude::*;

verus! {

use crate::scalar::{Scalar, SCALE};

#[verifier::external_type_specification]
#[verifier::external_body]
pub struct ExStdRng(rand::rngs::StdRng);

/// A deterministic pseudo-random stream, seeded at construction.
pub struct RandomSource {
    rng: rand::rngs::StdRng,
}

impl RandomSource {
    /// Relies on rand's `SeedableRng::seed_from_u64`: builds the standard
    /// generator from a word-sized seed.
    #[verifier::external_body]
    fn seeded(seed: u64) -> RandomSource {
        RandomSource { rng: rand::rngs::StdRng::seed_from_u64(seed) }
    }

    /// Relies on rand's `Rng::gen_range` over a half-open integer range:
    /// the drawn value lies inside it.  The range must not be empty.
    #[verifier::external_body]
    fn gen_index(&mut self, lo: u64, hi: u64) -> (r: u64)
        requires
            lo < hi,
        ensures
            lo <= r < hi,
    {
        self.rng.gen_range(lo..hi)
    }

    /// Relies on rand's `RngCore::next_u64`; any value may come back.
    #[verifier::external_body]
    fn raw_u64(&mut self) -> u64 {
        self.rng.next_u64()
    }

    /// Builds the stream that a given seed determines.
    pub fn new(seed: u64) -> RandomSource {
        RandomSource::seeded(seed)
    }

    /// Draws an index below the given bound.
    pub fn index_below(&mut self, n: u64) -> (r: u64)
        requires
            n > 0,
        ensures
            r < n,
    {
        self.gen_index(0, n)
    }

    /// Draws a fair coin flip.
    pub fn coin(&mut self) -> bool {
        self.gen_index(0, 2) == 1
    }

    /// Draws a word of raw bits.
    pub fn word(&mut self) -> u64 {
        self.raw_u64()
    }

    /// Draws a scalar uniformly from `[-1, 1]` units.
    pub fn unit_symmetric(&mut self) -> (r: Scalar)
        ensures
            -SCALE <= r.raw <= SCALE,
    {
        let k = self.gen_index(0, 2 * (SCALE as u64) + 1);
        Scalar { raw: (k as i64) - SCALE }
    }

    /// Draws a scalar uniformly from the closed range `[lo, hi]`.
    pub fn in_range(&mut self, lo: Scalar, hi: Scalar) -> (r: Scalar)
        requires
            lo.raw <= hi.raw,
            hi.raw - lo.raw < u64::MAX,
        ensures
            lo.raw <= r.raw <= hi.raw,
    {
        if lo.raw == hi.raw {
            lo
        } else {
            let width = ((hi.raw as i128) - (lo.raw as i128)) as u64;
            let k = self.gen_index(0, width + 1);
            Scalar { raw: ((lo.raw as i128) + (k as i128)) as i64 }
        }
    }
}

} // verus!
