//! Trusted boundary to the pseudo-random generator of the `rand` crate.
//!
//! The simulation draws two things from randomness: uniform coordinates for
//! cluster centers, and boolean draws that fire with a configured
//! [`crate::config::Ratio`]. Everything else in the crate is verified against
//! the small contracts stated here.

use vstd::prelude::*;

verus! {

#[verifier::external_type_specification]
#[verifier::external_body]
pub struct ExStdRng(rand::rngs::StdRng);

/// Relies on rand's `Rng::gen_range` over `0..bound`: it returns a value of
/// the (non-empty) range, i.e. one below `bound`.
#[verifier::external_body]
pub(crate) fn draw_index(rng: &mut rand::rngs::StdRng, bound: usize) -> (r: usize)
    requires
        0 < bound,
    ensures
        r < bound,
{
    rand::Rng::gen_range(rng, 0..bound)
}

/// Relies on rand's `Rng::gen_ratio`: the draw is true with probability
/// `num / den`. Its `Bernoulli` distribution maps a numerator of zero to an
/// always-false draw and a numerator equal to the denominator to an
/// always-true one; a denominator of zero or a numerator above the
/// denominator would make it panic, so they are excluded here.
#[verifier::external_body]
pub(crate) fn draw_ratio(rng: &mut rand::rngs::StdRng, num: u32, den: u32) -> (r: bool)
    requires
        0 < den,
        num <= den,
    ensures
        num == 0 ==> !r,
        num == den ==> r,
{
    rand::Rng::gen_ratio(rng, num, den)
}

} // verus!
