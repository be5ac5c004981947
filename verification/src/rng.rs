//! Seeded die rolls, backed by the `rand` crate.
//!
//! A `SeededDie` couples a deterministic generator with the seed it was
//! built from, the number of faces, and a count of the rolls taken so far.
//! The generator advances in lockstep with the count, one uniform draw per
//! roll, so the face a roll shows is a function of seed, face count, and
//! roll index alone; `die_stream` names that function.

use rand::{Rng, SeedableRng};
use vstd::prelude::*;

verus! {

#[verifier::external_type_specification]
#[verifier::external_body]
pub struct ExStdRng(rand::rngs::StdRng);

/// The face shown by the roll at index `i` of a die with `sides` faces
/// whose generator was seeded with `seed`. `rand::rngs::StdRng` is a
/// deterministic generator and every roll samples the same range, so the
/// face depends on these three values alone.
pub uninterp spec fn die_stream(seed: u64, sides: u32, i: u64) -> u32;

pub struct SeededDie {
    rng: rand::rngs::StdRng,
    seed: u64,
    sides: u32,
    count: u64,
}

impl SeededDie {
    pub closed spec fn spec_seed(&self) -> u64 {
        self.seed
    }

    pub closed spec fn spec_sides(&self) -> u32 {
        self.sides
    }

    pub closed spec fn spec_count(&self) -> u64 {
        self.count
    }

    /// Relies on `rand::rngs::StdRng::seed_from_u64`: builds the generator
    /// deterministically from the given seed, with no roll taken yet.
    #[verifier::external_body]
    pub(crate) fn new(seed: u64, sides: u32) -> (r: SeededDie)
        ensures
            r.spec_seed() == seed,
            r.spec_sides() == sides,
            r.spec_count() == 0,
    {
        SeededDie { rng: rand::rngs::StdRng::seed_from_u64(seed), seed, sides, count: 0 }
    }

    /// Relies on `rand::Rng::gen_range` over `1..=sides`: the draw lies in
    /// that range, and the call panics only on an empty range, which the
    /// precondition excludes. Relies on the determinism of `StdRng` for the
    /// `die_stream` clause: the draw depends only on the seed, the range,
    /// and how many draws came before.
    #[verifier::external_body]
    pub(crate) fn roll(&mut self) -> (r: u32)
        requires
            old(self).spec_sides() >= 1,
            old(self).spec_count() < u64::MAX,
        ensures
            final(self).spec_seed() == old(self).spec_seed(),
            final(self).spec_sides() == old(self).spec_sides(),
            final(self).spec_count() == old(self).spec_count() + 1,
            r == die_stream(old(self).spec_seed(), old(self).spec_sides(), old(self).spec_count()),
            1 <= r <= old(self).spec_sides(),
    {
        self.count += 1;
        self.rng.gen_range(1..=self.sides)
    }
}

} // verus!
