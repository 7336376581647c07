//! Random draws. The generator is the thread-local one of the `rand` crate;
//! of a draw only its range is known.

use rand::rngs::ThreadRng;
use rand::Rng;
use vstd::prelude::*;

verus! {

/// `rand::rngs::ThreadRng`, the generator of the current thread. It is
/// handed through as it is.
#[verifier::external_type_specification]
#[verifier::external_body]
pub struct ExThreadRng(ThreadRng);

/// `Rng::gen_range` on the half-open range from zero to `bound`: some value
/// of that range. The function panics on an empty range, so `bound` must be
/// positive.
#[verifier::external_body]
pub(crate) fn draw_below(rng: &mut ThreadRng, bound: u128) -> (r: u128)
    requires
        bound > 0,
    ensures
        r < bound,
{
    rng.gen_range(0..bound)
}

/// `Rng::gen_ratio`: true with a chance of `numerator` in `denominator`;
/// always true when the two are equal and never when `numerator` is zero.
/// The function panics on a zero `denominator` and on a `numerator` above
/// it.
#[verifier::external_body]
pub(crate) fn draw_ratio(rng: &mut ThreadRng, numerator: u32, denominator: u32) -> (r: bool)
    requires
        denominator > 0,
        numerator <= denominator,
    ensures
        numerator == denominator ==> r,
        numerator == 0 ==> !r,
{
    rng.gen_ratio(numerator, denominator)
}

} // verus!
