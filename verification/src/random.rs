use rand::rngs::StdRng;
use rand::{Rng, SeedableRng};
use vstd::prelude::*;

verus! {

/// rand's standard generator, carried through the scheduler as an opaque value.
#[verifier::external_type_specification]
#[verifier::external_body]
pub struct ExStdRng(rand::rngs::StdRng);

/// Builds a generator with `StdRng::seed_from_u64(seed)`.
///
/// Nothing is stated of the generator: its state is opaque here, and the only
/// use made of it is to draw numbers, of which nothing is stated either.
#[verifier::external_body]
pub(crate) fn seeded_rng(seed: u64) -> StdRng {
    StdRng::seed_from_u64(seed)
}

/// Draws the next 32-bit number with `Rng::gen::<u32>()` (which is
/// `RngCore::next_u32` of the generator).
///
/// The number depends on the generator's hidden state, so no clause states
/// which one comes back: callers are verified for every `u32`. What is stated
/// is that the generator moves on: `next_u32` of rand_core's `BlockRng` always
/// changes its position in the buffer of generated words (it steps it by one,
/// or refills the buffer and sets it to one from the buffer's length).
#[verifier::external_body]
pub(crate) fn draw_u32(rng: &mut StdRng) -> (x: u32)
    ensures
        *final(rng) != *old(rng),
{
    rng.gen::<u32>()
}

} // verus!
