//! Signed fixed-point numbers with sixteen fractional bits.
//!
//! A [`Fixed`] stores `raw`, and stands for the rational number
//! `raw / 65536`. Results of arithmetic are rounded to the nearest
//! representable value (a tie going up) and stop at the ends of the range
//! instead of wrapping, so every operation is total.

use crate::arith::clamp_i32;
use crate::arith::div_round;
use crate::arith::lemma_round_div_between;
use crate::arith::round_div;
use crate::arith::saturate;
use vstd::prelude::*;

verus! {

/// The raw value of the number one: two to the sixteenth.
pub const SCALE: i32 = 65536;

/// A fixed-point number; its view is the raw integer, the number times
/// [`SCALE`].
#[derive(Clone, Copy, Debug, PartialEq, Eq, Structural)]
pub struct Fixed {
    pub raw: i32,
}

impl View for Fixed {
    type V = int;

    open spec fn view(&self) -> int {
        self.raw as int
    }
}

/// The raw value nearest to `n / d`, within the range of `i32`.
pub open spec fn ratio_raw(n: int, d: int) -> int {
    clamp_i32(round_div(n, d))
}

/// The raw sum of two numbers.
pub open spec fn sum_raw(a: int, b: int) -> int {
    clamp_i32(a + b)
}

/// The raw product of two numbers: the exact product of the raw values holds
/// the scale twice, and loses it once.
pub open spec fn product_raw(a: int, b: int) -> int {
    ratio_raw(a * b, SCALE as int)
}

/// The integer nearest to the number with raw value `a`.
pub open spec fn nearest_int(a: int) -> int {
    round_div(a, SCALE as int)
}

/// The sum of two numbers, as [`Fixed::plus`] computes it.
pub open spec fn sum(a: Fixed, b: Fixed) -> Fixed {
    Fixed { raw: sum_raw(a@, b@) as i32 }
}

/// The difference of two numbers, as [`Fixed::minus`] computes it.
pub open spec fn difference(a: Fixed, b: Fixed) -> Fixed {
    Fixed { raw: clamp_i32(a@ - b@) as i32 }
}

/// The product of two numbers, as [`Fixed::times`] computes it.
pub open spec fn product(a: Fixed, b: Fixed) -> Fixed {
    Fixed { raw: product_raw(a@, b@) as i32 }
}

/// The product of two `i32` values, which always fits sixty-four bits.
pub fn wide_product(a: i32, b: i32) -> (p: i128)
    ensures
        p == a * b,
        -0x4000_0000_0000_0000 <= p <= 0x4000_0000_0000_0000,
{
    let x: i128 = a as i128;
    let y: i128 = b as i128;
    assert(-0x4000_0000_0000_0000 <= x * y <= 0x4000_0000_0000_0000) by (nonlinear_arith)
        requires
            -0x8000_0000 <= x < 0x8000_0000,
            -0x8000_0000 <= y < 0x8000_0000,
    ;
    x * y
}

/// `n / d` as a fixed-point raw value: rounded to nearest and saturated.
pub fn ratio(n: i128, d: i128) -> (r: Fixed)
    requires
        0 < d <= 0x2000_0000_0000_0000_0000_0000_0000_0000,
        -0x2000_0000_0000_0000_0000_0000_0000_0000 <= n
            <= 0x2000_0000_0000_0000_0000_0000_0000_0000,
    ensures
        r@ == ratio_raw(n as int, d as int),
{
    Fixed { raw: saturate(div_round(n, d)) }
}

impl Fixed {
    /// The number with the given raw value.
    pub fn from_raw(raw: i32) -> (r: Fixed)
        ensures
            r@ == raw,
    {
        Fixed { raw }
    }

    /// The whole number `n`, or the nearest end of the range.
    pub fn from_int(n: i32) -> (r: Fixed)
        ensures
            r@ == clamp_i32(n * SCALE),
    {
        let wide: i128 = (n as i128) * 65536;
        Fixed { raw: saturate(wide) }
    }

    /// Zero.
    pub fn zero() -> (r: Fixed)
        ensures
            r@ == 0,
    {
        Fixed { raw: 0 }
    }

    /// One.
    pub fn one() -> (r: Fixed)
        ensures
            r@ == SCALE,
    {
        Fixed { raw: SCALE }
    }

    /// The raw value.
    pub fn raw(self) -> (r: i32)
        ensures
            r == self@,
    {
        self.raw
    }

    /// The sum, saturated.
    pub fn plus(self, other: Fixed) -> (r: Fixed)
        ensures
            r@ == sum_raw(self@, other@),
            r == sum(self, other),
    {
        Fixed { raw: saturate(self.raw as i128 + other.raw as i128) }
    }

    /// The difference, saturated.
    pub fn minus(self, other: Fixed) -> (r: Fixed)
        ensures
            r@ == clamp_i32(self@ - other@),
            r == difference(self, other),
    {
        Fixed { raw: saturate(self.raw as i128 - other.raw as i128) }
    }

    /// The negation; the least value, which has no opposite, gives the
    /// greatest.
    pub fn negate(self) -> (r: Fixed)
        ensures
            r@ == clamp_i32(-self@),
    {
        Fixed { raw: saturate(-(self.raw as i128)) }
    }

    /// The product, rounded to nearest and saturated.
    pub fn times(self, other: Fixed) -> (r: Fixed)
        ensures
            r@ == product_raw(self@, other@),
            r == product(self, other),
    {
        ratio(wide_product(self.raw, other.raw), 65536)
    }

    /// The nearest integer, a tie going up.
    pub fn round(self) -> (r: i32)
        ensures
            r == nearest_int(self@),
            -32768 <= r <= 32768,
    {
        proof {
            lemma_round_div_between(self@, SCALE as int, -32768, 32768);
        }
        div_round(self.raw as i128, 65536) as i32
    }
}

} // verus!
