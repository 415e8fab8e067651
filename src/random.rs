//! The random draws the game needs, taken from `rand`.

use vstd::prelude::*;
use rand::rngs::StdRng;

verus! {

#[verifier::external_type_specification]
#[verifier::external_body]
pub struct ExStdRng(rand::rngs::StdRng);

/// Relies on `rand::SeedableRng::seed_from_u64`: a generator whose stream is
/// fixed by the seed.
#[verifier::external_body]
pub(crate) fn seeded_rng(seed: u64) -> StdRng {
    <StdRng as rand::SeedableRng>::seed_from_u64(seed)
}

/// Relies on `rand::Rng::gen_range` over `0..len`: a value of the half-open
/// range, which is non-empty here (the call panics on an empty range).
#[verifier::external_body]
pub(crate) fn random_index(rng: &mut StdRng, len: usize) -> (r: usize)
    requires
        len > 0,
    ensures
        r < len,
{
    rand::Rng::gen_range(rng, 0..len)
}

/// Relies on `rand::seq::index::sample` with an amount of two: two distinct
/// indices of `0..len` (the call panics when the amount exceeds `len`).
#[verifier::external_body]
pub(crate) fn random_distinct_indices(rng: &mut StdRng, len: usize) -> (r: (usize, usize))
    requires
        len >= 2,
    ensures
        r.0 < len,
        r.1 < len,
        r.0 != r.1,
{
    let picked = rand::seq::index::sample(rng, len, 2);
    (picked.index(0), picked.index(1))
}

/// Relies on `rand::Rng::gen::<bool>`: a fair coin; nothing is known of the
/// outcome.
#[verifier::external_body]
pub(crate) fn coin_flip(rng: &mut StdRng) -> bool {
    rand::Rng::gen::<bool>(rng)
}

} // verus!
