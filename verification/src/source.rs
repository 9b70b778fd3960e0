//! The random source that seeds a grid.
//!
//! The generator is the `rand` crate's `StdRng`, created from a seed so that
//! a run can be repeated. Nothing here is proved: the two functions below
//! state what `rand` documents.

use rand::rngs::StdRng;
use vstd::prelude::*;

verus! {

/// Makes `rand::rngs::StdRng` known as a type whose inside is not looked
/// at: a generator is created, handed on and drawn from, nothing more.
#[verifier::external_type_specification]
#[verifier::external_body]
pub struct ExStdRng(rand::rngs::StdRng);

/// Calls `rand::SeedableRng::seed_from_u64` for `StdRng`. The call accepts
/// every seed; nothing is claimed of the generator that it returns.
#[verifier::external_body]
pub(crate) fn seeded_source(seed: u64) -> (rng: StdRng) {
    rand::SeedableRng::seed_from_u64(seed)
}

/// Calls `rand::Rng::gen_range` on the half-open range from zero to `bound`.
/// `gen_range` panics on an empty range, so `bound` must be positive; the
/// value it returns lies in the range. Which value comes is left open.
#[verifier::external_body]
pub(crate) fn draw_below(rng: &mut StdRng, bound: u32) -> (draw: u32)
    requires
        bound > 0,
    ensures
        draw < bound,
{
    rand::Rng::gen_range(rng, 0..bound)
}

} // verus!
