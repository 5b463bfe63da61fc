//! Small helpers: clamping, and random integers in a range.
use vstd::prelude::*;
use crate::scalar::Scalar;

verus! {

/// One draw of `rand::random::<usize>()`: any `usize` may come back, so
/// nothing is claimed of it.
#[verifier::external_body]
fn random_usize() -> (raw: usize)
{
    rand::random::<usize>()
}

/// `x` held to `[lower, upper]`: a value below `lower` becomes `lower`, one
/// above `upper` becomes `upper`, anything else (a pattern that is no
/// number too) stays.
pub open spec fn clamp_spec(x: Scalar, lower: Scalar, upper: Scalar) -> Scalar {
    if x.lt_spec(lower) {
        lower
    } else if x.gt_spec(upper) {
        upper
    } else {
        x
    }
}

#[verifier::when_used_as_spec(clamp_spec)]
pub fn clamp(x: Scalar, lower: Scalar, upper: Scalar) -> (c: Scalar)
    ensures
        c == clamp_spec(x, lower, upper),
{
    if x.lt(lower) {
        return lower;
    } else if x.gt(upper) {
        return upper;
    }
    x
}

/// The integer in `[lower, upper)` that a raw draw stands for: `lower` plus
/// the draw's remainder by the width of the range.
pub fn place_in_bounds(raw: usize, lower: i32, upper: i32) -> (n: i32)
    requires
        lower < upper,
        upper - lower <= i32::MAX,
    ensures
        n == lower + (raw as int) % (upper - lower),
        lower <= n < upper,
{
    let range = (upper - lower) as usize;
    let rand_number = raw % range;
    rand_number as i32 + lower
}

/// A random integer in `[lower, upper)`.
pub fn random_int_with_bounds(lower: i32, upper: i32) -> (n: i32)
    requires
        lower < upper,
        upper - lower <= i32::MAX,
    ensures
        lower <= n < upper,
{
    place_in_bounds(random_usize(), lower, upper)
}

} // verus!
