use vstd::prelude::*;

verus! {

/// The seeded pseudo-random generator threaded through every random choice.
#[verifier::external_type_specification]
#[verifier::external_body]
pub struct ExStdRng(rand::rngs::StdRng);

/// Relies on `rand::Rng::random_range` over `0..bound`: a value drawn from the
/// half-open range, which the crate documents to panic only when it is empty.
#[verifier::external_body]
pub(crate) fn random_below(rng: &mut rand::rngs::StdRng, bound: u128) -> (r: u128)
    requires
        bound > 0,
    ensures
        r < bound,
{
    rand::Rng::random_range(rng, 0..bound)
}

} // verus!
