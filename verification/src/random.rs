//! Uniform random draws, behind one trusted wrapper around `rand`.

use vstd::prelude::*;
use crate::fixed::SCALE;

verus! {

/// Relies on `rand::random_range`: for a non-empty integer range `0..n` it
/// returns a value uniformly distributed within that range, so the result
/// is below `n`. Nothing more can be promised of a random draw.
#[verifier::external_body]
pub(crate) fn random_below(n: usize) -> (r: usize)
    requires
        n > 0,
    ensures
        r < n,
{
    rand::random_range(0..n)
}

/// A uniform fixed-point draw from `[0, 1)`, that is from `[0, SCALE)` in
/// fixed-point units.
pub(crate) fn random_unit() -> (r: i64)
    ensures
        0 <= r < SCALE,
{
    let u: usize = random_below(1_000_000);
    u as i64
}

} // verus!
