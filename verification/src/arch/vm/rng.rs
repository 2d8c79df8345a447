//! The random number generator of a run.
use rand::rngs::StdRng;
use vstd::prelude::*;

verus! {

#[verifier::external_type_specification]
#[verifier::external_body]
pub struct ExStdRng(StdRng);

/// The generator that `StdRng::seed_from_u64` makes of a seed.
pub uninterp spec fn seeded(seed: u64) -> StdRng;

/// Calls `rand::SeedableRng::seed_from_u64` for `StdRng`. The generator is a function of the seed
/// alone: the seed is expanded by a fixed permuted congruential generator and keys the stream
/// cipher.
#[verifier::external_body]
pub(crate) fn seed_from_u64(seed: u64) -> (r: StdRng)
    ensures
        r == seeded(seed),
{
    rand::SeedableRng::seed_from_u64(seed)
}

} // verus!
