//! The crate's source of randomness.
//!
//! Scattering, sampling and the participating medium all draw fresh random
//! values.  Each drawing site receives an explicit `RandomSource`, so a
//! render with a given seed is reproducible and each parallel worker can
//! own its own source.  The raw draws come from the `rand` crate through
//! the trusted wrappers at the bottom of this file; everything above them
//! is verified against what those wrappers promise.

use rand::seq::SliceRandom;
use rand::Rng;
use rand::SeedableRng;
use vstd::prelude::*;

verus! {

use crate::fx::{Fx, ONE_RAW, SCALE};

/// A deterministic random generator, seeded once.
pub struct RandomSource {
    rng: rand::rngs::StdRng,
}

impl RandomSource {
    /// A source that will replay the same draws for the same seed.
    pub fn from_seed(seed: u64) -> RandomSource {
        RandomSource { rng: rng_from_seed(seed) }
    }

    /// A uniform draw below `n`.
    pub fn next_below(&mut self, n: u64) -> (r: u64)
        requires
            n > 0,
        ensures
            r < n,
    {
        rand_below(&mut self.rng, n)
    }

    /// A uniform scalar in `[0, 1)`.
    pub fn next_unit(&mut self) -> (r: Fx)
        ensures
            0 <= r.0 < SCALE,
    {
        Fx(rand_below(&mut self.rng, 921600) as i128)
    }

    /// A uniform scalar in `[lo, hi)`.
    pub fn next_range(&mut self, lo: Fx, hi: Fx) -> (r: Fx)
        requires
            lo.0 < hi.0,
            -(ONE_RAW as int) * ONE_RAW <= lo.0,
            hi.0 <= (ONE_RAW as int) * ONE_RAW,
        ensures
            lo.0 <= r.0 < hi.0,
    {
        let span = (hi.0 - lo.0) as u64;
        let d = rand_below(&mut self.rng, span);
        Fx(lo.0 + d as i128)
    }

    /// Put the elements of `v` in a random order.
    pub fn shuffle_indices(&mut self, v: &mut Vec<usize>)
        ensures
            final(v)@.to_multiset() == old(v)@.to_multiset(),
            final(v)@.len() == old(v)@.len(),
    {
        shuffle_usizes(v, &mut self.rng);
        proof {
            v@.to_multiset_ensures();
            old(v)@.to_multiset_ensures();
        }
    }
}

/// Relies on rand's `StdRng`, an owned generator with a fixed algorithm.
#[verifier::external_type_specification]
#[verifier::external_body]
pub struct ExStdRng(rand::rngs::StdRng);

/// Relies on `SeedableRng::seed_from_u64`: builds a generator from a seed.
#[verifier::external_body]
fn rng_from_seed(seed: u64) -> rand::rngs::StdRng {
    rand::rngs::StdRng::seed_from_u64(seed)
}

/// Relies on `Rng::gen_range`: a uniform draw from a nonempty range,
/// within its bounds.
#[verifier::external_body]
fn rand_below(rng: &mut rand::rngs::StdRng, n: u64) -> (r: u64)
    requires
        n > 0,
    ensures
        r < n,
{
    rng.gen_range(0..n)
}

/// Relies on `SliceRandom::shuffle`: reorders the slice in place by
/// swapping elements, so the multiset of elements is unchanged.
#[verifier::external_body]
fn shuffle_usizes(v: &mut Vec<usize>, rng: &mut rand::rngs::StdRng)
    ensures
        final(v)@.to_multiset() == old(v)@.to_multiset(),
{
    v.as_mut_slice().shuffle(rng)
}

} // verus!
