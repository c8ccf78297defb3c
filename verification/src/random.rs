//! The seeded pseudo-random generator that places food, behind trusted items.

use rand::rngs::StdRng;
use rand::{Rng, SeedableRng};

use vstd::prelude::*;

verus! {

/// `rand::rngs::StdRng`, carried through the engines as an opaque value.
#[verifier::external_type_specification]
#[verifier::external_body]
pub struct ExStdRng(StdRng);

/// The generator that `StdRng::seed_from_u64(seed)` builds. `seed_from_u64` expands
/// the seed with a fixed PCG32 sequence and keys ChaCha12 with it, so the generator is
/// a function of the seed alone.
pub uninterp spec fn seeded_rng(seed: u64) -> StdRng;

/// What `rng.gen_range(0..bound)` returns, and the generator after the draw. `StdRng`
/// is a deterministic ChaCha12 stream and the uniform sampler for `usize` reads it in a
/// fixed way (its word size is that of the target), so both are functions of the
/// generator's state and the bound alone.
pub uninterp spec fn gen_below(rng: StdRng, bound: usize) -> (usize, StdRng);

/// Calls `<StdRng as SeedableRng>::seed_from_u64`. Claimed: the generator is
/// `seeded_rng(seed)`, the same for the same seed.
#[verifier::external_body]
pub(crate) fn rng_from_seed(seed: u64) -> (r: StdRng)
    ensures
        r == seeded_rng(seed),
{
    StdRng::seed_from_u64(seed)
}

/// Calls `<StdRng as SeedableRng>::from_entropy`, which seeds from the operating
/// system. Nothing is claimed of the generator that comes back. The call panics when
/// the operating system provides no entropy, which no argument governs.
#[verifier::external_body]
pub(crate) fn rng_from_entropy() -> StdRng {
    StdRng::from_entropy()
}

/// Calls `Rng::gen_range(rng, 0..bound)`. Claimed: the draw and the advanced generator
/// are `gen_below(rng, bound)` of the generator before the call, and the draw lies in
/// `0..bound`. `gen_range` panics on an empty range, so `bound` must be positive.
#[verifier::external_body]
pub(crate) fn rng_below(rng: &mut StdRng, bound: usize) -> (r: usize)
    requires
        0 < bound,
    ensures
        (r, *final(rng)) == gen_below(*old(rng), bound),
        r < bound,
{
    rng.gen_range(0..bound)
}

/// Specifies `<StdRng as Clone>::clone`, which the crate derives. Claimed: the copy
/// equals the generator it copies, so it draws the same values.
pub assume_specification[ <StdRng as Clone>::clone ](rng: &StdRng) -> (r: StdRng)
    ensures
        r == *rng,
;

} // verus!
