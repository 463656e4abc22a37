//! Sine and cosine of an angle given as a fraction of a full turn.
//!
//! The angle `num / den` of a turn is first brought into one of the eight
//! octants of the circle, exactly, in integers. Inside an octant the sine and
//! the cosine of the remaining angle (at most an eighth of a turn) are
//! evaluated by their power series in nested form, on numbers with thirty
//! fractional bits, and the results are placed by the octant's symmetries.
//! At every multiple of a quarter turn the results are exactly 0, 1 or -1.

use crate::arith::div_floor;
use crate::arith::div_round;
use crate::arith::lemma_div_bounds;
use crate::arith::lemma_div_unique;
use crate::arith::lemma_round_div_between;
use crate::arith::lemma_round_div_multiple;
use crate::arith::round_div;
use crate::fixed::Fixed;
use crate::fixed::SCALE;
use vstd::arithmetic::div_mod::lemma_fundamental_div_mod;
use vstd::arithmetic::div_mod::lemma_mod_bound;
use vstd::arithmetic::div_mod::lemma_mod_multiples_vanish;
use vstd::prelude::*;

verus! {

/// One, with thirty fractional bits.
pub const UNIT: i64 = 0x4000_0000;

/// An eighth of a turn in radians (a quarter of pi), with thirty fractional
/// bits.
pub const EIGHTH_TURN: i64 = 843314857;

/// One step of a nested power series: `1 - u * t / c`, on numbers with thirty
/// fractional bits.
pub open spec fn series_step(u: int, t: int, c: int) -> int {
    UNIT - (u * t) / (c * UNIT)
}

/// The sine of `x` radians for `0 <= x <= EIGHTH_TURN`, thirty fractional
/// bits in and out: `x (1 - x²/6 (1 - x²/20 (1 - x²/42 (1 - x²/72))))`.
pub open spec fn sine_series(x: int) -> int {
    let u = (x * x) / (UNIT as int);
    let t4 = series_step(u, UNIT as int, 72);
    let t3 = series_step(u, t4, 42);
    let t2 = series_step(u, t3, 20);
    let t1 = series_step(u, t2, 6);
    (x * t1) / (UNIT as int)
}

/// The cosine of `x` radians for `0 <= x <= EIGHTH_TURN`, thirty fractional
/// bits in and out: `1 - x²/2 (1 - x²/12 (1 - x²/30 (1 - x²/56)))`.
pub open spec fn cosine_series(x: int) -> int {
    let u = (x * x) / (UNIT as int);
    let t4 = series_step(u, UNIT as int, 56);
    let t3 = series_step(u, t4, 30);
    let t2 = series_step(u, t3, 12);
    series_step(u, t2, 2)
}

/// The octant, 0 to 7, that the angle `num / den` of a turn falls in.
pub open spec fn octant(num: int, den: int) -> int {
    (8 * (num % den)) / den
}

/// How far into its octant the angle lies, as a numerator over `den`:
/// between 0 and `den`, the end excluded.
pub open spec fn octant_offset(num: int, den: int) -> int {
    (8 * (num % den)) % den
}

/// The angle, in radians with thirty fractional bits, between the direction
/// `num / den` of a turn and the nearest coordinate axis: the offset into the
/// octant in even octants, what is left of the octant in odd ones.
pub open spec fn axis_angle(num: int, den: int) -> int {
    let r = octant_offset(num, den);
    let m = if octant(num, den) % 2 == 0 {
        r
    } else {
        den - r
    };
    (m * EIGHTH_TURN) / den
}

/// A value with thirty fractional bits rounded to sixteen.
pub open spec fn narrow(v: int) -> int {
    round_div(v, 16384)
}

/// The raw fixed-point sine of `num / den` of a turn, for `den > 0`.
pub open spec fn sine_raw(num: int, den: int) -> int {
    let x = axis_angle(num, den);
    let s = narrow(sine_series(x));
    let c = narrow(cosine_series(x));
    let q = octant(num, den);
    if q == 0 || q == 3 {
        s
    } else if q == 1 || q == 2 {
        c
    } else if q == 4 || q == 7 {
        -s
    } else {
        -c
    }
}

/// The raw fixed-point cosine of `num / den` of a turn, for `den > 0`.
pub open spec fn cosine_raw(num: int, den: int) -> int {
    let x = axis_angle(num, den);
    let s = narrow(sine_series(x));
    let c = narrow(cosine_series(x));
    let q = octant(num, den);
    if q == 0 || q == 7 {
        c
    } else if q == 1 || q == 6 {
        s
    } else if q == 2 || q == 5 {
        -s
    } else {
        -c
    }
}

/// A series step keeps its value between zero and one.
pub proof fn lemma_series_step_range(u: int, t: int, c: int)
    requires
        0 <= u <= UNIT,
        0 <= t <= UNIT,
        1 <= c,
    ensures
        0 <= series_step(u, t, c) <= UNIT,
{
    let p = u * t;
    let d = c * UNIT;
    assert(0 <= p <= UNIT * UNIT) by (nonlinear_arith)
        requires
            p == u * t,
            0 <= u <= UNIT,
            0 <= t <= UNIT,
    ;
    assert(d >= UNIT) by (nonlinear_arith)
        requires
            d == c * UNIT,
            c >= 1,
    ;
    lemma_div_bounds(p, d);
    let q = p / d;
    if q < 0 {
        assert(q * d + d <= 0) by (nonlinear_arith)
            requires
                q <= -1,
                d > 0,
        ;
    }
    if q > UNIT {
        assert(q * d >= (UNIT + 1) * UNIT) by (nonlinear_arith)
            requires
                q >= UNIT + 1,
                d >= UNIT,
        ;
    }
}

/// Both series stay between zero and one on the first octant.
pub proof fn lemma_series_range(x: int)
    requires
        0 <= x <= EIGHTH_TURN,
    ensures
        0 <= sine_series(x) <= UNIT,
        0 <= cosine_series(x) <= UNIT,
{
    let u = (x * x) / (UNIT as int);
    assert(0 <= x * x <= EIGHTH_TURN * EIGHTH_TURN) by (nonlinear_arith)
        requires
            0 <= x <= EIGHTH_TURN,
    ;
    assert(0 <= u <= UNIT);
    let s4 = series_step(u, UNIT as int, 72);
    lemma_series_step_range(u, UNIT as int, 72);
    let s3 = series_step(u, s4, 42);
    lemma_series_step_range(u, s4, 42);
    let s2 = series_step(u, s3, 20);
    lemma_series_step_range(u, s3, 20);
    let s1 = series_step(u, s2, 6);
    lemma_series_step_range(u, s2, 6);
    assert(0 <= x * s1 <= UNIT * UNIT) by (nonlinear_arith)
        requires
            0 <= x <= UNIT,
            0 <= s1 <= UNIT,
    ;
    let c4 = series_step(u, UNIT as int, 56);
    lemma_series_step_range(u, UNIT as int, 56);
    let c3 = series_step(u, c4, 30);
    lemma_series_step_range(u, c4, 30);
    let c2 = series_step(u, c3, 12);
    lemma_series_step_range(u, c3, 12);
    lemma_series_step_range(u, c2, 2);
}

/// The octant is one of eight, the offset lies inside it, and the angle to
/// the nearest axis is at most an eighth of a turn.
pub proof fn lemma_octant_range(num: int, den: int)
    requires
        den > 0,
    ensures
        0 <= octant(num, den) < 8,
        0 <= octant_offset(num, den) < den,
        8 * (num % den) == octant(num, den) * den + octant_offset(num, den),
        0 <= axis_angle(num, den) <= EIGHTH_TURN,
{
    let n0 = num % den;
    lemma_mod_bound(num, den);
    let e = 8 * n0;
    lemma_fundamental_div_mod(e, den);
    lemma_mod_bound(e, den);
    let q = e / den;
    let r = e % den;
    assert(den * q == q * den) by (nonlinear_arith);
    if q < 0 {
        assert(q * den <= -den) by (nonlinear_arith)
            requires
                q <= -1,
                den > 0,
        ;
    }
    if q >= 8 {
        assert(q * den >= 8 * den) by (nonlinear_arith)
            requires
                q >= 8,
                den > 0,
        ;
    }
    let m = if q % 2 == 0 {
        r
    } else {
        den - r
    };
    assert(0 <= m <= den);
    assert(0 <= m * EIGHTH_TURN <= EIGHTH_TURN * den) by (nonlinear_arith)
        requires
            0 <= m <= den,
    ;
    lemma_round_floor_between(m * EIGHTH_TURN, den, 0, EIGHTH_TURN as int);
}

/// Floor division keeps a value inside integer bounds.
proof fn lemma_round_floor_between(n: int, d: int, lo: int, hi: int)
    requires
        d > 0,
        lo * d <= n <= hi * d,
    ensures
        lo <= n / d <= hi,
{
    let q = n / d;
    lemma_div_bounds(n, d);
    if q < lo {
        assert(q * d + d <= lo * d) by (nonlinear_arith)
            requires
                q + 1 <= lo,
                d > 0,
        ;
    }
    if q > hi {
        assert(q * d >= hi * d + d) by (nonlinear_arith)
            requires
                q >= hi + 1,
                d > 0,
        ;
    }
}

/// Sine and cosine never leave the range from minus one to one.
pub proof fn lemma_trig_range(num: int, den: int)
    requires
        den > 0,
    ensures
        -SCALE <= sine_raw(num, den) <= SCALE,
        -SCALE <= cosine_raw(num, den) <= SCALE,
{
    lemma_octant_range(num, den);
    let x = axis_angle(num, den);
    lemma_series_range(x);
    lemma_round_div_between(sine_series(x), 16384, 0, SCALE as int);
    lemma_round_div_between(cosine_series(x), 16384, 0, SCALE as int);
}

/// Adding a whole turn changes nothing.
pub proof fn lemma_trig_periodic(num: int, den: int)
    requires
        den > 0,
    ensures
        sine_raw(num + den, den) == sine_raw(num, den),
        cosine_raw(num + den, den) == cosine_raw(num, den),
{
    lemma_mod_multiples_vanish(1, num, den);
    assert((num + den) % den == num % den);
}

/// At `k` quarter turns (`k` from 0 to 3) the sine is exactly 0, 1, 0, -1 and
/// the cosine exactly 1, 0, -1, 0.
pub proof fn lemma_trig_quarter_turns(num: int, den: int, k: int)
    requires
        den > 0,
        0 <= k < 4,
        4 * (num % den) == k * den,
    ensures
        sine_raw(num, den) == if k == 1 {
            SCALE as int
        } else if k == 3 {
            -SCALE
        } else {
            0
        },
        cosine_raw(num, den) == if k == 0 {
            SCALE as int
        } else if k == 2 {
            -SCALE
        } else {
            0
        },
{
    let e = 8 * (num % den);
    assert(e == (2 * k) * den + 0) by (nonlinear_arith)
        requires
            e == 8 * (num % den),
            4 * (num % den) == k * den,
    ;
    vstd::arithmetic::div_mod::lemma_fundamental_div_mod_converse(e, den, 2 * k, 0);
    assert(octant(num, den) == 2 * k);
    assert(octant_offset(num, den) == 0);
    assert(0int * EIGHTH_TURN == 0);
    assert(axis_angle(num, den) == 0int / den);
    lemma_div_unique(0, den, 0);
    assert(axis_angle(num, den) == 0);
    lemma_series_at_zero();
}

/// At angle zero the sine series is zero and the cosine series is one.
proof fn lemma_series_at_zero()
    ensures
        narrow(sine_series(0)) == 0,
        narrow(cosine_series(0)) == SCALE,
{
    let u = (0int * 0int) / (UNIT as int);
    assert(u == 0);
    assert forall|t: int, c: int| 1 <= c <= 72 implies #[trigger] series_step(0, t, c) == UNIT by {
        assert(0 * t == 0);
        assert(c * UNIT > 0) by (nonlinear_arith)
            requires
                c >= 1,
        ;
        lemma_div_unique(0, c * UNIT, 0);
    }
    assert(cosine_series(0) == UNIT);
    assert(0int * (UNIT as int) == 0);
    assert(sine_series(0) == 0);
    lemma_round_div_multiple(65536, 16384);
    lemma_round_div_multiple(0, 16384);
}

/// One step of a nested power series.
fn step(u: i64, t: i64, c: i64) -> (r: i64)
    requires
        0 <= u <= UNIT,
        0 <= t <= UNIT,
        1 <= c <= 72,
    ensures
        r == series_step(u as int, t as int, c as int),
        0 <= r <= UNIT,
{
    proof {
        lemma_series_step_range(u as int, t as int, c as int);
        assert(0 <= u * t <= UNIT * UNIT) by (nonlinear_arith)
            requires
                0 <= u <= UNIT,
                0 <= t <= UNIT,
        ;
    }
    UNIT - (u * t) / (c * UNIT)
}

/// The sine and the cosine of the angle `num / den` of a full turn.
pub fn sin_cos(num: i64, den: i64) -> (r: (Fixed, Fixed))
    requires
        den > 0,
    ensures
        r.0@ == sine_raw(num as int, den as int),
        r.1@ == cosine_raw(num as int, den as int),
        -SCALE <= r.0@ <= SCALE,
        -SCALE <= r.1@ <= SCALE,
{
    proof {
        lemma_octant_range(num as int, den as int);
        lemma_trig_range(num as int, den as int);
        lemma_mod_bound(num as int, den as int);
        lemma_fundamental_div_mod(num as int, den as int);
        lemma_fundamental_div_mod(8 * (num as int % den as int), den as int);
    }
    let wide_den: i128 = den as i128;
    let turns: i128 = div_floor(num as i128, wide_den);
    assert(-0x1_0000_0000_0000_0000 <= turns * wide_den <= 0x8000_0000_0000_0000) by (nonlinear_arith)
        requires
            wide_den * turns + (num as int % den as int) == num,
            0 <= (num as int % den as int) < wide_den,
            0 < wide_den < 0x8000_0000_0000_0000,
            -0x8000_0000_0000_0000 <= num < 0x8000_0000_0000_0000,
    ;
    let within: i128 = num as i128 - turns * wide_den;
    assert(within == num as int % den as int) by (nonlinear_arith)
        requires
            wide_den * turns + (num as int % den as int) == num,
            within == num - turns * wide_den,
    ;
    let eighths: i128 = 8 * within;
    let q: i128 = eighths / wide_den;
    assert(q * wide_den == (eighths as int / den as int) * den) by (nonlinear_arith)
        requires
            q == eighths as int / den as int,
            wide_den == den,
    ;
    let offset: i128 = eighths - q * wide_den;
    assert(offset == octant_offset(num as int, den as int)) by (nonlinear_arith)
        requires
            den * (eighths as int / den as int) + octant_offset(num as int, den as int) == eighths,
            offset == eighths - (eighths as int / den as int) * den,
    ;
    let odd: bool = q % 2 == 1;
    let m: i128 = if odd {
        wide_den - offset
    } else {
        offset
    };
    assert(0 <= m * EIGHTH_TURN <= 0x8000_0000_0000_0000 * EIGHTH_TURN) by (nonlinear_arith)
        requires
            0 <= m <= 0x8000_0000_0000_0000,
    ;
    let x: i64 = ((m * (EIGHTH_TURN as i128)) / wide_den) as i64;
    assert(x == axis_angle(num as int, den as int));
    proof {
        lemma_series_range(x as int);
        assert(0 <= x * x <= EIGHTH_TURN * EIGHTH_TURN) by (nonlinear_arith)
            requires
                0 <= x <= EIGHTH_TURN,
        ;
    }
    let u: i64 = (x * x) / UNIT;
    let s4: i64 = step(u, UNIT, 72);
    let s3: i64 = step(u, s4, 42);
    let s2: i64 = step(u, s3, 20);
    let s1: i64 = step(u, s2, 6);
    assert(0 <= x * s1 <= UNIT * UNIT) by (nonlinear_arith)
        requires
            0 <= x <= UNIT,
            0 <= s1 <= UNIT,
    ;
    let sine30: i64 = (x * s1) / UNIT;
    let c4: i64 = step(u, UNIT, 56);
    let c3: i64 = step(u, c4, 30);
    let c2: i64 = step(u, c3, 12);
    let cosine30: i64 = step(u, c2, 2);
    assert(sine30 == sine_series(x as int));
    assert(cosine30 == cosine_series(x as int));
    proof {
        lemma_round_div_between(sine30 as int, 16384, 0, SCALE as int);
        lemma_round_div_between(cosine30 as int, 16384, 0, SCALE as int);
    }
    let s: i32 = div_round(sine30 as i128, 16384) as i32;
    let c: i32 = div_round(cosine30 as i128, 16384) as i32;
    let (sine, cosine): (i32, i32) = if q == 0 {
        (s, c)
    } else if q == 1 {
        (c, s)
    } else if q == 2 {
        (c, -s)
    } else if q == 3 {
        (s, -c)
    } else if q == 4 {
        (-s, -c)
    } else if q == 5 {
        (-c, -s)
    } else if q == 6 {
        (-c, s)
    } else {
        (-s, c)
    };
    (Fixed { raw: sine }, Fixed { raw: cosine })
}

} // verus!
