//! The engine's source of randomness: rand's standard generator.
use vstd::prelude::*;
use rand::rngs::{OsRng, StdRng};
use rand::{Rng, SeedableRng};

verus! {

#[verifier::external_type_specification]
#[verifier::external_body]
pub struct ExStdRng(StdRng);

/// Relies on rand's `SeedableRng::seed_from_u64`: a generator whose stream is
/// fixed by `seed`.
#[verifier::external_body]
pub(crate) fn rng_from_seed(seed: u64) -> StdRng {
    StdRng::seed_from_u64(seed)
}

/// Relies on rand's `SeedableRng::from_rng` over `OsRng`: a generator seeded
/// by the operating system, or none when the operating system supplies no
/// entropy (reported as an error, not a panic).
#[verifier::external_body]
pub(crate) fn rng_from_os() -> Option<StdRng> {
    StdRng::from_rng(OsRng).ok()
}

/// Relies on rand's `Rng::gen_range` over `0..bound`: a value in that range,
/// which it yields for every non-empty range.
#[verifier::external_body]
pub(crate) fn draw_below(rng: &mut StdRng, bound: i32) -> (r: i32)
    requires
        bound > 0,
    ensures
        0 <= r < bound,
{
    rng.gen_range(0..bound)
}

} // verus!
