//! The pseudorandom number generator used by generations.
use rand::Rng;
use vstd::prelude::*;

verus! {

/// The pseudorandom number generator that drives a generation (PCG32).
pub type Prng = rand_pcg::Lcg64Xsh32;

#[verifier::external_type_specification]
#[verifier::external_body]
pub struct ExLcg64Xsh32(rand_pcg::Lcg64Xsh32);

/// Relies on rand's `Rng::sample` with the `Standard` distribution: one 64-bit value
/// drawn from the generator. Nothing is known of the value.
#[verifier::external_body]
pub(crate) fn draw_u64(rng: &mut Prng) -> u64 {
    rng.sample(rand::distributions::Standard)
}

} // verus!
