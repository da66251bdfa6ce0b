//! Random draws, taken from the `rand` crate.

use rand::rngs::ThreadRng;
use rand::RngExt;
use vstd::prelude::*;

verus! {

/// `rand::rngs::ThreadRng`, the handle to a thread's generator. Nothing is
/// known of what it holds; it is only handed to the draws below.
#[verifier::external_type_specification]
#[verifier::external_body]
pub struct ExThreadRng(ThreadRng);

/// Calls `rand::rng`, which hands out the calling thread's generator.
///
/// Nothing is assumed about the generator. `rand` panics here if the
/// operating system cannot seed it.
#[verifier::external_body]
pub(crate) fn thread_rng() -> ThreadRng {
    rand::rng()
}

/// Calls `RngExt::random_range` on the inclusive range from zero to `max`.
///
/// The only assumption is that the draw lies in that range; which value
/// comes back is left open. The range is never empty, so the call does not
/// panic on it; `rand` panics if the generator cannot be reseeded.
#[verifier::external_body]
pub(crate) fn uniform_up_to(rng: &mut ThreadRng, max: u64) -> (draw: u64)
    ensures
        draw <= max,
{
    rng.random_range(0..=max)
}

} // verus!
