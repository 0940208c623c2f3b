use vstd::prelude::*;
use rand::rngs::StdRng;

verus! {

/// The seedable generator of `rand` that the state setters draw from.
#[verifier::external_type_specification]
#[verifier::external_body]
pub struct ExStdRng(StdRng);

/// Calls `rand::SeedableRng::seed_from_u64` for `StdRng`: a generator seeded
/// with `seed`. Nothing is stated of the generator, which Verus cannot look into.
#[verifier::external_body]
pub(crate) fn seeded_rng(seed: u64) -> StdRng {
    <StdRng as rand::SeedableRng>::seed_from_u64(seed)
}

/// Calls `rand::Rng::gen_range(0..10000)` on `rand::thread_rng()`: a seed drawn
/// from the system-seeded thread generator, below `10000` as the range
/// `0..10000` excludes its end.
#[verifier::external_body]
pub(crate) fn random_seed() -> (seed: u64)
    ensures
        seed < 10000,
{
    rand::Rng::gen_range(&mut rand::thread_rng(), 0..10000u64)
}

/// Calls `rand::Rng::gen::<usize>()` on `rng`: any `usize`, advancing the
/// generator. Nothing is stated of the value drawn.
#[verifier::external_body]
pub(crate) fn random_usize(rng: &mut StdRng) -> usize {
    rand::Rng::gen::<usize>(rng)
}


/// Calls `rand::Rng::gen_range(0..n)` on `rng`: a value drawn below `n`,
/// advancing the generator. The range must not be empty, else the call panics.
#[verifier::external_body]
pub(crate) fn random_below(rng: &mut StdRng, n: usize) -> (r: usize)
    requires
        n > 0,
    ensures
        r < n,
{
    rand::Rng::gen_range(rng, 0..n)
}

} // verus!
