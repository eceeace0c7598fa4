//! Small arithmetic helpers on `i32`, proved free of overflow.

use vstd::prelude::*;

verus! {

/// Returns the sum of `x` and `y`; the caller guarantees the sum fits in `i32`.
pub fn add(x: i32, y: i32) -> (r: i32)
    requires
        i32::MIN <= x + y <= i32::MAX,
    ensures
        r == x + y,
{
    x + y
}

/// Returns the product of `x` and `y`; the caller guarantees the product fits in `i32`.
pub fn multiply(x: i32, y: i32) -> (r: i32)
    requires
        i32::MIN <= x * y <= i32::MAX,
    ensures
        r == x * y,
{
    x * y
}

} // verus!
