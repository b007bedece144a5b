//! Random choices made by the renderer's structural algorithms.

use vstd::prelude::*;

verus! {

/// `rand::rngs::StdRng`, the seedable generator that the structural choices
/// draw from; its state is opaque here.
#[verifier::external_type_specification]
#[verifier::external_body]
pub struct ExStdRng(rand::rngs::StdRng);

/// Relies on `rand::Rng::gen_range` over `0..bound`, which returns a value of
/// the half-open range and panics only when that range is empty.
#[verifier::external_body]
pub(crate) fn random_below(rng: &mut rand::rngs::StdRng, bound: usize) -> (r: usize)
    requires
        bound > 0,
    ensures
        r < bound,
{
    rand::Rng::gen_range(rng, 0..bound)
}

} // verus!
