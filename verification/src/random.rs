//! The random stream: one seedable generator that every stochastic decision
//! draws from, in a fixed order.
//!
//! The generator is `rand`'s `StdRng`. Nothing is proved of what it yields:
//! the three functions below state what `rand` promises of every outcome,
//! and the callers are verified for whatever comes back.

use vstd::prelude::*;
use rand::rngs::StdRng;
use rand::seq::SliceRandom;
use rand::Rng;

verus! {

/// `rand::rngs::StdRng`, the generator behind the stream. It is carried
/// through as it is: nothing is known of what is inside.
#[verifier::external_type_specification]
#[verifier::external_body]
pub struct ExStdRng(StdRng);

/// Calls `rand::Rng::gen_range` on the half-open range `low..high`.
///
/// Trusted: the value drawn lies in the range. `gen_range` panics on an
/// empty range, which `requires` leaves out.
#[verifier::external_body]
pub(crate) fn draw_range(rng: &mut StdRng, low: i64, high: i64) -> (r: i64)
    requires
        low < high,
    ensures
        low <= r < high,
{
    rng.gen_range(low..high)
}

/// Calls `rand::Rng::gen_ratio`: a coin that shows `true` with probability
/// `numerator / denominator`.
///
/// Trusted: with `numerator == denominator` the coin always shows `true`,
/// with `numerator == 0` always `false`; nothing is claimed in between.
/// `gen_ratio` panics where the ratio is above one or its denominator is
/// zero, which `requires` leaves out.
#[verifier::external_body]
pub(crate) fn draw_ratio(rng: &mut StdRng, numerator: u32, denominator: u32) -> (r: bool)
    requires
        numerator <= denominator,
        denominator > 0,
    ensures
        numerator == denominator ==> r,
        numerator == 0 ==> !r,
{
    rng.gen_ratio(numerator, denominator)
}

/// Calls `rand::seq::SliceRandom::choose` on the items.
///
/// Trusted: `None` comes back exactly for an empty list, and what is chosen
/// is one of the items.
#[verifier::external_body]
pub(crate) fn pick_one<T: Copy>(rng: &mut StdRng, items: &Vec<T>) -> (r: Option<T>)
    ensures
        r is None <==> items@.len() == 0,
        r matches Some(x) ==> items@.contains(x),
{
    items.choose(rng).copied()
}

} // verus!
