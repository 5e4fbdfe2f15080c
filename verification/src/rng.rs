use vstd::prelude::*;

use oorandom::Rand32;

verus! {

#[verifier::external_type_specification]
#[verifier::external_body]
pub struct ExRand32(Rand32);

/// Relies on `oorandom::Rand32::new`: seeds a PCG32 generator.  Nothing is
/// promised of the generator's state.
#[verifier::external_body]
pub(crate) fn rng_new(seed: u64) -> (rng: Rand32) {
    Rand32::new(seed)
}

/// Relies on `oorandom::Rand32::rand_range`: draws a uniform value in
/// `[lo, hi)`.  It panics on an empty range, so the range is required to be
/// non-empty; nothing is promised about which value comes back.
#[verifier::external_body]
pub(crate) fn rng_range(rng: &mut Rand32, lo: u32, hi: u32) -> (r: u32)
    requires
        lo < hi,
    ensures
        lo <= r < hi,
{
    rng.rand_range(lo..hi)
}

} // verus!
