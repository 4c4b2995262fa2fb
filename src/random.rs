use rand::rngs::StdRng;
use rand::Rng;
use vstd::prelude::*;

verus! {

/// The seedable generator that every random draw of the library comes from.
#[verifier::external_type_specification]
#[verifier::external_body]
pub struct ExStdRng(StdRng);

/// Relies on rand's `Rng::gen_range` over the inclusive range `0..=bound`,
/// which is never empty: the value drawn lies within the range.
#[verifier::external_body]
pub(crate) fn draw_at_most(rng: &mut StdRng, bound: u64) -> (r: u64)
    ensures
        r <= bound,
{
    rng.gen_range(0..=bound)
}

/// A value drawn from `0..bound`.
pub(crate) fn draw_below(rng: &mut StdRng, bound: u64) -> (r: u64)
    requires
        bound > 0,
    ensures
        r < bound,
{
    draw_at_most(rng, bound - 1)
}

} // verus!
