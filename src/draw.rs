use vstd::prelude::*;

verus! {

/// Largest magnitude of a bound handed to `random_between`: within it every
/// bound and their difference are exact as `f64`.
pub const MAX_DRAW: i64 = 2_251_799_813_685_248;

/// Relies on quad_rand::gen_range for `i64`: it computes
/// `low + (high - low) * u` in `f64` with `u` in `[0, 1)` and truncates, so
/// the result lies between the two bounds, both included.
#[verifier::external_body]
pub(crate) fn random_between(low: i64, high: i64) -> (r: i64)
    requires
        -MAX_DRAW <= low <= MAX_DRAW,
        -MAX_DRAW <= high <= MAX_DRAW,
    ensures
        low <= high ==> low <= r <= high,
        high < low ==> high <= r <= low,
{
    quad_rand::gen_range(low, high)
}

} // verus!
