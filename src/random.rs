use vstd::prelude::*;
use rand::Rng;

verus! {

/// rand's seedable generator `StdRng`, carried opaquely as the source of every
/// random draw of a simulation, so that callers can seed it.
#[verifier::external_type_specification]
#[verifier::external_body]
pub struct ExStdRng(rand::rngs::StdRng);

/// Relies on rand's `Rng::gen_range` over `0..bound`: a value drawn uniformly
/// below `bound` (it panics on an empty range, hence `bound > 0`).
#[verifier::external_body]
pub(crate) fn random_below(rng: &mut rand::rngs::StdRng, bound: u64) -> (r: u64)
    requires
        bound > 0,
    ensures
        r < bound,
{
    rng.gen_range(0..bound)
}

} // verus!
