//! Fixed-point arithmetic: a fractional quantity is an `i64` counting units
//! of `1/FP_ONE`. All values handled here are non-negative, so executable
//! truncating division agrees with the mathematical (Euclidean) division
//! used in the specifications.

use vstd::prelude::*;

verus! {

/// One whole unit in fixed-point representation.
pub const FP_ONE: i64 = 100_000;

/// Product of two fixed-point values, rescaled back: `(a * b) / FP_ONE`.
pub open spec fn spec_fx_mul(a: int, b: int) -> int {
    (a * b) / (FP_ONE as int)
}

/// Fixed-point multiplication of two non-negative values.
pub fn fx_mul(a: i64, b: i64) -> (r: i64)
    requires
        0 <= a,
        0 <= b,
        a * b <= i64::MAX,
    ensures
        r == spec_fx_mul(a as int, b as int),
        0 <= r <= a * b,
{
    proof {
        vstd::arithmetic::div_mod::lemma_div_pos_is_pos(a * b, FP_ONE as int);
        vstd::arithmetic::div_mod::lemma_div_nonincreasing(a * b, FP_ONE as int);
    }
    (a * b) / FP_ONE
}

} // verus!
