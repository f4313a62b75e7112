//! Fixed-point numbers and the two roundings the pipeline uses: to the
//! nearest whole number where a colour byte is interpolated or blended,
//! downwards where one is decoded.
//!
//! The normalization constants and the blend strength of this crate are
//! integer counts of millionths.

use vstd::prelude::*;

verus! {

/// The fixed-point representation of 1.0.
pub const UNIT: i64 = 1_000_000;

/// Largest magnitude accepted by [`floor_div`].
pub const DIV_LIMIT: i128 = 0x1000_0000_0000_0000_0000_0000_0000;

/// `n / d` rounded to the nearest integer, ties towards positive infinity.
pub open spec fn round_div_spec(n: int, d: int) -> int
    recommends
        d > 0,
{
    (2 * n + d) / (2 * d)
}

/// `n / d` rounded towards negative infinity.
pub open spec fn floor_div_spec(n: int, d: int) -> int
    recommends
        d > 0,
{
    n / d
}

/// `x` limited to the closed interval from `lo` to `hi`.
pub open spec fn clamp_spec(x: int, lo: int, hi: int) -> int
    recommends
        lo <= hi,
{
    if x < lo {
        lo
    } else if x > hi {
        hi
    } else {
        x
    }
}

/// The rounded quotient lies within half a divisor of the exact one.
pub proof fn lemma_round_div_bounds(n: int, d: int)
    requires
        d > 0,
    ensures
        2 * d * round_div_spec(n, d) <= 2 * n + d,
        2 * n + d < 2 * d * round_div_spec(n, d) + 2 * d,
{
    let q = (2 * n + d) / (2 * d);
    let r = (2 * n + d) % (2 * d);
    vstd::arithmetic::div_mod::lemma_fundamental_div_mod(2 * n + d, 2 * d);
    vstd::arithmetic::div_mod::lemma_mod_bound(2 * n + d, 2 * d);
    assert(2 * d * q == (2 * d) * q) by (nonlinear_arith);
}

/// The floored quotient is the largest integer not above the exact one.
pub proof fn lemma_floor_div_bounds(n: int, d: int)
    requires
        d > 0,
    ensures
        d * floor_div_spec(n, d) <= n,
        n < d * floor_div_spec(n, d) + d,
{
    vstd::arithmetic::div_mod::lemma_fundamental_div_mod(n, d);
    vstd::arithmetic::div_mod::lemma_mod_bound(n, d);
}

/// A quotient is fixed by the two inequalities that bracket it.
pub proof fn lemma_div_unique(n: int, d: int, q: int)
    requires
        d > 0,
        d * q <= n,
        n < d * q + d,
    ensures
        n / d == q,
{
    let r = n - d * q;
    assert(q * d == d * q) by (nonlinear_arith);
    vstd::arithmetic::div_mod::lemma_fundamental_div_mod_converse(n, d, q, r);
}

/// Floored division of machine integers.
pub fn floor_div(n: i128, d: i128) -> (q: i128)
    requires
        0 < d <= DIV_LIMIT,
        -DIV_LIMIT <= n <= DIV_LIMIT,
    ensures
        q == floor_div_spec(n as int, d as int),
{
    proof {
        lemma_quotient_no_larger(n as int, d as int);
    }
    match n.checked_div_euclid(d) {
        Some(q) => q,
        None => 0,
    }
}

/// Dividing by a positive number never grows the magnitude.
pub proof fn lemma_quotient_no_larger(n: int, d: int)
    requires
        d > 0,
    ensures
        n >= 0 ==> 0 <= n / d <= n,
        n < 0 ==> n <= n / d < 0,
{
    vstd::arithmetic::div_mod::lemma_fundamental_div_mod(n, d);
    vstd::arithmetic::div_mod::lemma_mod_bound(n, d);
    let q = n / d;
    let r = n % d;
    assert(n == d * q + r);
    if n >= 0 {
        assert(q >= 0) by (nonlinear_arith)
            requires
                d > 0,
                0 <= r < d,
                d * q + r >= 0,
        ;
        assert(q <= d * q) by (nonlinear_arith)
            requires
                d > 0,
                q >= 0,
        ;
    } else {
        assert(q < 0) by (nonlinear_arith)
            requires
                d > 0,
                0 <= r < d,
                d * q + r < 0,
        ;
        assert(d * q + r <= q) by (nonlinear_arith)
            requires
                d > 0,
                q < 0,
                0 <= r < d,
        ;
    }
}

} // verus!
