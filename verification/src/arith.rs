//! Integer division with rounding, and clamping to a range.

use vstd::arithmetic::div_mod::lemma_fundamental_div_mod;
use vstd::arithmetic::div_mod::lemma_fundamental_div_mod_converse;
use vstd::prelude::*;

verus! {

/// `n / d` rounded to the nearest integer, a tie going up. Meant for `d > 0`.
pub open spec fn round_div(n: int, d: int) -> int {
    (2 * n + d) / (2 * d)
}

/// `v` limited to the range from `lo` to `hi`.
pub open spec fn clamp(v: int, lo: int, hi: int) -> int {
    if v < lo {
        lo
    } else if v > hi {
        hi
    } else {
        v
    }
}

/// `v` limited to the range of `i32`.
pub open spec fn clamp_i32(v: int) -> int {
    clamp(v, i32::MIN as int, i32::MAX as int)
}

/// The absolute value of `v`.
pub open spec fn abs(v: int) -> int {
    if v < 0 {
        -v
    } else {
        v
    }
}

/// A quotient is the floor of the exact ratio: `n / d` times `d` is at most
/// `n`, and less than `d` below it.
pub proof fn lemma_div_bounds(n: int, d: int)
    requires
        d > 0,
    ensures
        (n / d) * d <= n < (n / d) * d + d,
{
    lemma_fundamental_div_mod(n, d);
    assert(d * (n / d) == (n / d) * d) by (nonlinear_arith);
}

/// The quotient is the only `q` with `q * d <= n < q * d + d`.
pub proof fn lemma_div_unique(n: int, d: int, q: int)
    requires
        d > 0,
        q * d <= n < q * d + d,
    ensures
        q == n / d,
{
    lemma_fundamental_div_mod_converse(n, d, q, n - q * d);
}

/// An exact multiple divides back without rounding.
pub proof fn lemma_round_div_multiple(k: int, d: int)
    requires
        d > 0,
    ensures
        round_div(k * d, d) == k,
{
    assert(2 * (k * d) + d == k * (2 * d) + d) by (nonlinear_arith);
    lemma_div_unique(2 * (k * d) + d, 2 * d, k);
}

/// Rounded division never moves a value across an integer bound: if
/// `lo * d <= n <= hi * d` then `lo <= round_div(n, d) <= hi`.
pub proof fn lemma_round_div_between(n: int, d: int, lo: int, hi: int)
    requires
        d > 0,
        lo * d <= n <= hi * d,
    ensures
        lo <= round_div(n, d) <= hi,
{
    let q = round_div(n, d);
    lemma_div_bounds(2 * n + d, 2 * d);
    assert(q * (2 * d) <= 2 * n + d < q * (2 * d) + 2 * d);
    if q < lo {
        assert((q + 1) * (2 * d) <= lo * (2 * d)) by (nonlinear_arith)
            requires
                q + 1 <= lo,
                d > 0,
        ;
        assert((q + 1) * (2 * d) == q * (2 * d) + 2 * d) by (nonlinear_arith);
        assert(lo * (2 * d) == 2 * (lo * d)) by (nonlinear_arith);
    }
    if q > hi {
        assert((hi + 1) * (2 * d) <= q * (2 * d)) by (nonlinear_arith)
            requires
                hi + 1 <= q,
                d > 0,
        ;
        assert((hi + 1) * (2 * d) == 2 * (hi * d) + 2 * d) by (nonlinear_arith);
    }
}

/// Floor division of a possibly negative numerator.
pub fn div_floor(n: i128, d: i128) -> (q: i128)
    requires
        d > 0,
    ensures
        q == (n as int) / (d as int),
{
    if n >= 0 {
        n / d
    } else {
        let m: i128 = -(n + 1);
        let k: i128 = m / d;
        proof {
            lemma_div_bounds(m as int, d as int);
            assert((-k - 1) * d == -(k * d) - d) by (nonlinear_arith);
            lemma_div_unique(n as int, d as int, -k - 1);
        }
        -k - 1
    }
}

/// Division rounded to nearest, a tie going up.
pub fn div_round(n: i128, d: i128) -> (q: i128)
    requires
        d > 0,
        d <= 0x2000_0000_0000_0000_0000_0000_0000_0000,
        -0x2000_0000_0000_0000_0000_0000_0000_0000 <= n <= 0x2000_0000_0000_0000_0000_0000_0000_0000,
    ensures
        q == round_div(n as int, d as int),
{
    div_floor(2 * n + d, 2 * d)
}

/// Narrows to `i32`, stopping at the ends of its range.
pub fn saturate(v: i128) -> (r: i32)
    ensures
        r == clamp_i32(v as int),
{
    if v < -0x8000_0000 {
        i32::MIN
    } else if v > 0x7fff_ffff {
        i32::MAX
    } else {
        v as i32
    }
}

} // verus!
