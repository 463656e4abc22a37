//! Decimal numbers in script text.
//!
//! A number is an optional sign, digits, and optionally a point and more
//! digits; at least one digit must be there (`7`, `-7.25`, `+.5` and `7.` are
//! numbers; `.`, `1e3` and the empty word are not). Its value is read to
//! nine decimal places (what follows is checked to be digits and not
//! otherwise looked at), rounded to the nearest fixed-point number, and held
//! to the range of those.

use crate::arith::clamp_i32;
use crate::arith::div_round;
use crate::arith::lemma_round_div_between;
use crate::arith::round_div;
use crate::arith::saturate;
use crate::fixed::Fixed;
use vstd::prelude::*;

verus! {

/// How many decimal places of a number are read.
pub const PLACES: usize = 9;

/// Ten to the power [`PLACES`].
pub const PLACES_UNIT: i128 = 1_000_000_000;

/// Whether the byte is an ASCII digit.
pub open spec fn is_digit(b: u8) -> bool {
    48 <= b <= 57
}

/// The end of the run of digits that starts at `pos` and stays below `end`.
pub open spec fn digits_end(s: Seq<u8>, pos: int, end: int) -> int
    decreases end - pos,
{
    if pos < end && is_digit(s[pos]) {
        digits_end(s, pos + 1, end)
    } else {
        pos
    }
}

/// The value of the digits from `from` up to `to`, read as a decimal
/// numeral.
pub open spec fn run_value(s: Seq<u8>, from: int, to: int) -> int
    decreases to - from,
{
    if to <= from {
        0
    } else {
        run_value(s, from, to - 1) * 10 + (s[to - 1] - 48)
    }
}

/// The digit at `i`, or zero from `to` on.
pub open spec fn place_digit(s: Seq<u8>, i: int, to: int) -> int {
    if i < to {
        s[i] - 48
    } else {
        0
    }
}

/// The value of the first `places` decimal places of the digits from `from`
/// up to `to`, as a whole number: missing places count as zero.
pub open spec fn places_value(s: Seq<u8>, from: int, to: int, places: nat) -> int
    decreases places,
{
    if places == 0 {
        0
    } else {
        places_value(s, from, to, (places - 1) as nat) * 10 + place_digit(s, from + places - 1, to)
    }
}

/// The length of the sign at `a`: one or zero.
pub open spec fn sign_len(s: Seq<u8>, a: int, b: int) -> int {
    if a < b && (s[a] == 43 || s[a] == 45) {
        1
    } else {
        0
    }
}

/// Whether the bytes from `a` up to `b` are a number.
pub open spec fn number_ok(s: Seq<u8>, a: int, b: int) -> bool {
    let first = a + sign_len(s, a, b);
    let point = digits_end(s, first, b);
    if point == b {
        point > first
    } else {
        s[point] == 46 && digits_end(s, point + 1, b) == b && b - first >= 2
    }
}

/// The raw fixed-point value of the number from `a` up to `b`.
pub open spec fn number_raw(s: Seq<u8>, a: int, b: int) -> int {
    let first = a + sign_len(s, a, b);
    let point = digits_end(s, first, b);
    let whole = run_value(s, first, point);
    let part = if point < b {
        places_value(s, point + 1, b, PLACES as nat)
    } else {
        0
    };
    let n = whole * PLACES_UNIT + part;
    let signed = if a < b && s[a] == 45 {
        -n
    } else {
        n
    };
    clamp_i32(round_div(signed * 65536, PLACES_UNIT as int))
}

/// A run of digits has a value that is not negative, and a longer run of
/// the same digits has no smaller value.
proof fn lemma_run_value_grows(s: Seq<u8>, from: int, mid: int, to: int)
    requires
        from <= mid <= to,
        forall|k: int| from <= k < to ==> is_digit(#[trigger] s[k]),
    ensures
        0 <= run_value(s, from, mid) <= run_value(s, from, to),
    decreases to - from,
{
    if mid < to {
        lemma_run_value_grows(s, from, mid, to - 1);
    } else if from < mid {
        lemma_run_value_grows(s, from, mid - 1, to - 1);
    }
}

/// The places of a run of digits are worth less than one.
proof fn lemma_places_value_range(s: Seq<u8>, from: int, to: int, places: nat)
    requires
        forall|k: int| from <= k < to ==> is_digit(#[trigger] s[k]),
        places <= 9,
    ensures
        0 <= places_value(s, from, to, places),
        places == 0 ==> places_value(s, from, to, places) == 0,
        places == 1 ==> places_value(s, from, to, places) < 10,
        places == 2 ==> places_value(s, from, to, places) < 100,
        places == 3 ==> places_value(s, from, to, places) < 1000,
        places == 4 ==> places_value(s, from, to, places) < 10000,
        places == 5 ==> places_value(s, from, to, places) < 100000,
        places == 6 ==> places_value(s, from, to, places) < 1000000,
        places == 7 ==> places_value(s, from, to, places) < 10000000,
        places == 8 ==> places_value(s, from, to, places) < 100000000,
        places == 9 ==> places_value(s, from, to, places) < 1000000000,
    decreases places,
{
    if places > 0 {
        lemma_places_value_range(s, from, to, (places - 1) as nat);
    }
}

/// A number of 100000 or more, or of -100000 or less, is past the end of
/// the range whatever its exact value.
proof fn lemma_large_saturates(n: int, m: int)
    requires
        n >= 100000 * PLACES_UNIT,
        m >= 100000 * PLACES_UNIT,
    ensures
        clamp_i32(round_div(n * 65536, PLACES_UNIT as int)) == clamp_i32(
            round_div(m * 65536, PLACES_UNIT as int),
        ),
        clamp_i32(round_div(-n * 65536, PLACES_UNIT as int)) == clamp_i32(
            round_div(-m * 65536, PLACES_UNIT as int),
        ),
{
    lemma_far_out(n);
    lemma_far_out(m);
}

/// See [`lemma_large_saturates`].
proof fn lemma_far_out(n: int)
    requires
        n >= 100000 * PLACES_UNIT,
    ensures
        round_div(n * 65536, PLACES_UNIT as int) >= 0x8000_0000,
        round_div(-n * 65536, PLACES_UNIT as int) <= -0x8000_0000,
{
    let d = PLACES_UNIT as int;
    let big = n * 65536;
    assert(big * d >= big) by (nonlinear_arith)
        requires
            big >= 0,
            d >= 1,
    ;
    lemma_round_div_between(big, d, 0x8000_0000, big);
    assert((-big) * d <= -big) by (nonlinear_arith)
        requires
            big >= 0,
            d >= 1,
    ;
    lemma_round_div_between(-big, d, -big, -0x8000_0000);
}

/// Reads the bytes of `line` from `a` up to `b` as a number: `None` if they
/// are not one.
pub fn parse_number(line: &Vec<u8>, a: usize, b: usize) -> (r: Option<Fixed>)
    requires
        a <= b <= line@.len(),
    ensures
        r is Some <==> number_ok(line@, a as int, b as int),
        r matches Some(v) ==> v@ == number_raw(line@, a as int, b as int),
{
    let ghost s = line@;
    let negative: bool = a < b && line[a] == 45;
    let first: usize = if a < b && (line[a] == 43 || line[a] == 45) {
        a + 1
    } else {
        a
    };
    let mut i: usize = first;
    let mut whole: i128 = 0;
    while i < b && 48 <= line[i] && line[i] <= 57
        invariant
            first <= i <= b <= s.len(),
            s == line@,
            digits_end(s, first as int, b as int) == digits_end(s, i as int, b as int),
            forall|k: int| first <= k < i ==> is_digit(#[trigger] s[k]),
            0 <= whole <= 100000,
            whole == if run_value(s, first as int, i as int) < 100000 {
                run_value(s, first as int, i as int)
            } else {
                100000
            },
        decreases b - i,
    {
        proof {
            lemma_run_value_grows(s, first as int, i as int, i as int);
        }
        let digit: i128 = (line[i] - 48) as i128;
        whole = whole * 10 + digit;
        if whole > 100000 {
            whole = 100000;
        }
        i += 1;
    }
    let point: usize = i;
    assert(point == digits_end(s, first as int, b as int));
    proof {
        lemma_run_value_grows(s, first as int, point as int, point as int);
    }
    let mut part: i128 = 0;
    if point == b {
        if point == first {
            return None;
        }
    } else {
        if line[point] != 46 {
            return None;
        }
        let from: usize = point + 1;
        let mut j: usize = from;
        while j < b && 48 <= line[j] && line[j] <= 57
            invariant
                from <= j <= b <= s.len(),
                s == line@,
                digits_end(s, from as int, b as int) == digits_end(s, j as int, b as int),
                forall|k: int| from <= k < j ==> is_digit(#[trigger] s[k]),
            decreases b - j,
        {
            j += 1;
        }
        if j != b || b - first < 2 {
            return None;
        }
        let mut k: usize = 0;
        while k < PLACES
            invariant
                k <= PLACES,
                from <= b <= s.len(),
                s == line@,
                forall|k: int| from <= k < b ==> is_digit(#[trigger] s[k]),
                part == places_value(s, from as int, b as int, k as nat),
                0 <= part < PLACES_UNIT,
            decreases PLACES - k,
        {
            proof {
                lemma_places_value_range(s, from as int, b as int, k as nat);
                lemma_places_value_range(s, from as int, b as int, (k + 1) as nat);
            }
            let digit: i128 = if k < b - from {
                (line[from + k] - 48) as i128
            } else {
                0
            };
            part = part * 10 + digit;
            k += 1;
        }
    }
    let n: i128 = whole * PLACES_UNIT + part;
    let signed: i128 = if negative {
        -n
    } else {
        n
    };
    proof {
        let exact = run_value(s, first as int, point as int) * PLACES_UNIT + (if point < b {
            places_value(s, point + 1, b as int, PLACES as nat)
        } else {
            0
        });
        if run_value(s, first as int, point as int) >= 100000 {
            lemma_large_saturates(n as int, exact);
        } else {
            assert(n == exact);
        }
    }
    Some(Fixed { raw: saturate(div_round(signed * 65536, PLACES_UNIT)) })
}

} // verus!
