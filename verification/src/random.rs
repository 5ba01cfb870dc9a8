//! The source of randomness that pieces are drawn from.

use bracket_lib::prelude::RandomNumberGenerator;
use vstd::prelude::*;

verus! {

/// `RandomNumberGenerator` of `bracket_lib`, carried as a value whose inside
/// is not looked at.
#[verifier::external_type_specification]
#[verifier::external_body]
pub struct ExRandomNumberGenerator(RandomNumberGenerator);

/// Calls `RandomNumberGenerator::new`, which seeds a generator from the
/// system's source of randomness, or from the clock where that fails.
/// Nothing is claimed of the generator it returns.
#[verifier::external_body]
pub(crate) fn fresh_generator() -> (rng: RandomNumberGenerator) {
    RandomNumberGenerator::new()
}

/// Calls `RandomNumberGenerator::range` on `i32`, which samples the half-open
/// range `min..max`: the lower bound may come out, the upper bound never does.
/// The call panics on an empty range, so `min < max` is required.
#[verifier::external_body]
pub(crate) fn draw_in_range(rng: &mut RandomNumberGenerator, min: i32, max: i32) -> (n: i32)
    requires
        min < max,
    ensures
        min <= n < max,
{
    rng.range(min, max)
}

} // verus!
