//! Curves in the picture plane, cut into line segments.
//!
//! A circle of `steps` segments has its corners at the angles `i / steps`
//! of a full turn, and its last segment ends where the first one starts. A
//! cubic curve of `steps` segments is sampled at the parameters `i / steps`
//! for `i` from 0 to `steps`; the sample is the exact value of the cubic,
//! rounded once, so the first and the last sample are the curve's ends
//! themselves.

use crate::arith::lemma_round_div_multiple;
use crate::fixed::product;
use crate::fixed::ratio;
use crate::fixed::ratio_raw;
use crate::fixed::sum;
use crate::fixed::Fixed;
use crate::point::Point;
use crate::point::PointStore;
use crate::trig::cosine_raw;
use crate::trig::sin_cos;
use crate::trig::sine_raw;
use vstd::prelude::*;

verus! {

/// The two kinds of cubic curve.
#[derive(Clone, Copy, Debug, PartialEq, Eq, Structural)]
pub enum CurveType {
    /// Given by its two ends and the tangents there.
    Hermite,
    /// Given by its four control points.
    Bezier,
}

/// Corner `i` of the circle about `(cx, cy, cz)` with radius `r` cut into
/// `steps` segments: the point at the angle `i / steps` of a turn, in the
/// plane `z == cz`.
pub open spec fn circle_point(cx: Fixed, cy: Fixed, cz: Fixed, r: Fixed, steps: int, i: int) -> Point {
    Point {
        x: sum(cx, product(r, Fixed { raw: cosine_raw(i, steps) as i32 })),
        y: sum(cy, product(r, Fixed { raw: sine_raw(i, steps) as i32 })),
        z: cz,
    }
}

/// The edge list of the circle: segment `i` runs from corner `i` to corner
/// `i + 1`, and corner `steps` is corner 0 again.
pub open spec fn circle_edges(cx: Fixed, cy: Fixed, cz: Fixed, r: Fixed, steps: int) -> Seq<Point> {
    Seq::new(
        (2 * steps) as nat,
        |k: int| circle_point(cx, cy, cz, r, steps, (k / 2 + k % 2) % steps),
    )
}

/// The coefficients `(a, b, c, d)` of the cubic `a t³ + b t² + c t + d` for
/// one coordinate of a curve. For a Hermite curve `v0` and `v1` are the ends
/// and `v2` and `v3` the tangents at them; for a Bezier curve `v0` to `v3`
/// are the control points.
pub open spec fn cubic(kind: CurveType, v0: int, v1: int, v2: int, v3: int) -> (int, int, int, int) {
    match kind {
        CurveType::Hermite => (2 * v0 - 2 * v1 + v2 + v3, -3 * v0 + 3 * v1 - 2 * v2 - v3, v2, v0),
        CurveType::Bezier => (-v0 + 3 * v1 - 3 * v2 + v3, 3 * v0 - 6 * v1 + 3 * v2, -3 * v0 + 3 * v1, v0),
    }
}

/// The numerator of the cubic at `t == i / n`, over the denominator `n³`.
pub open spec fn cubic_numerator(k: (int, int, int, int), i: int, n: int) -> int {
    k.0 * (i * i * i) + k.1 * (i * i * n) + k.2 * (i * n * n) + k.3 * (n * n * n)
}

/// The cubic at `t == i / n` as a stored number.
pub open spec fn cubic_at(k: (int, int, int, int), i: int, n: int) -> Fixed {
    Fixed { raw: ratio_raw(cubic_numerator(k, i, n), n * n * n) as i32 }
}

/// Sample `i` of the curve cut into `steps` segments, in the plane `z == 0`.
pub open spec fn curve_point(
    kind: CurveType,
    x0: Fixed,
    y0: Fixed,
    x1: Fixed,
    y1: Fixed,
    x2: Fixed,
    y2: Fixed,
    x3: Fixed,
    y3: Fixed,
    steps: int,
    i: int,
) -> Point {
    Point {
        x: cubic_at(cubic(kind, x0@, x1@, x2@, x3@), i, steps),
        y: cubic_at(cubic(kind, y0@, y1@, y2@, y3@), i, steps),
        z: Fixed { raw: 0 },
    }
}

/// The edge list of the curve: segment `i` runs from sample `i` to sample
/// `i + 1`.
pub open spec fn curve_edges(
    kind: CurveType,
    x0: Fixed,
    y0: Fixed,
    x1: Fixed,
    y1: Fixed,
    x2: Fixed,
    y2: Fixed,
    x3: Fixed,
    y3: Fixed,
    steps: int,
) -> Seq<Point> {
    Seq::new(
        (2 * steps) as nat,
        |k: int| curve_point(kind, x0, y0, x1, y1, x2, y2, x3, y3, steps, k / 2 + k % 2),
    )
}

/// A circle closes. Every segment starts where the one before it ended,
/// and the last segment ends at the first corner.
pub proof fn lemma_circle_closes(cx: Fixed, cy: Fixed, cz: Fixed, r: Fixed, steps: int)
    requires
        steps >= 1,
    ensures
        circle_edges(cx, cy, cz, r, steps).len() == 2 * steps,
        circle_edges(cx, cy, cz, r, steps)[2 * steps - 1] == circle_edges(cx, cy, cz, r, steps)[0],
        forall|i: int|
            0 <= i < steps - 1 ==> #[trigger] circle_edges(cx, cy, cz, r, steps)[2 * i + 1]
                == circle_edges(cx, cy, cz, r, steps)[2 * i + 2],
{
    let last = 2 * steps - 1;
    assert(last / 2 + last % 2 == steps);
    assert(steps % steps == 0) by {
        vstd::arithmetic::div_mod::lemma_mod_self_0(steps);
    }
    assert(0int % steps == 0) by {
        vstd::arithmetic::div_mod::lemma_small_mod(0, steps as nat);
    }
}

/// One coordinate of a cubic curve at its first and at its last sample is
/// the coordinate of the curve's first and last end, whatever the number of
/// segments.
pub proof fn lemma_cubic_ends(kind: CurveType, v0: Fixed, v1: Fixed, v2: Fixed, v3: Fixed, n: int)
    requires
        n >= 1,
    ensures
        cubic_at(cubic(kind, v0@, v1@, v2@, v3@), 0, n) == v0,
        cubic_at(cubic(kind, v0@, v1@, v2@, v3@), n, n) == match kind {
            CurveType::Hermite => v1,
            CurveType::Bezier => v3,
        },
{
    let k = cubic(kind, v0@, v1@, v2@, v3@);
    let cube = n * n * n;
    assert(cube >= 1) by (nonlinear_arith)
        requires
            n >= 1,
            cube == n * n * n,
    ;
    assert(cubic_numerator(k, 0, n) == k.3 * cube) by (nonlinear_arith)
        requires
            cube == n * n * n,
            cubic_numerator(k, 0, n) == k.0 * (0 * 0 * 0) + k.1 * (0 * 0 * n) + k.2 * (0 * n * n)
                + k.3 * (n * n * n),
    ;
    lemma_round_div_multiple(k.3, cube);
    assert(cubic_numerator(k, n, n) == (k.0 + k.1 + k.2 + k.3) * cube) by (nonlinear_arith)
        requires
            cube == n * n * n,
            cubic_numerator(k, n, n) == k.0 * (n * n * n) + k.1 * (n * n * n) + k.2 * (n * n * n)
                + k.3 * (n * n * n),
    ;
    lemma_round_div_multiple(k.0 + k.1 + k.2 + k.3, cube);
}

/// A cubic curve starts and ends at its ends. For every number of
/// segments the first sample is the curve's first end and the last sample
/// its last end: the second point given for a Hermite curve, the fourth
/// control point for a Bezier curve.
pub proof fn lemma_curve_ends(
    kind: CurveType,
    x0: Fixed,
    y0: Fixed,
    x1: Fixed,
    y1: Fixed,
    x2: Fixed,
    y2: Fixed,
    x3: Fixed,
    y3: Fixed,
    steps: int,
)
    requires
        steps >= 1,
    ensures
        curve_edges(kind, x0, y0, x1, y1, x2, y2, x3, y3, steps).len() == 2 * steps,
        curve_edges(kind, x0, y0, x1, y1, x2, y2, x3, y3, steps)[0] == (Point {
            x: x0,
            y: y0,
            z: Fixed { raw: 0 },
        }),
        curve_edges(kind, x0, y0, x1, y1, x2, y2, x3, y3, steps)[2 * steps - 1] == match kind {
            CurveType::Hermite => Point { x: x1, y: y1, z: Fixed { raw: 0 } },
            CurveType::Bezier => Point { x: x3, y: y3, z: Fixed { raw: 0 } },
        },
        forall|i: int|
            0 <= i < steps - 1 ==> #[trigger] curve_edges(
                kind,
                x0,
                y0,
                x1,
                y1,
                x2,
                y2,
                x3,
                y3,
                steps,
            )[2 * i + 1] == curve_edges(kind, x0, y0, x1, y1, x2, y2, x3, y3, steps)[2 * i + 2],
{
    lemma_cubic_ends(kind, x0, x1, x2, x3, steps);
    lemma_cubic_ends(kind, y0, y1, y2, y3, steps);
    let last = 2 * steps - 1;
    assert(last / 2 + last % 2 == steps);
}

/// Corner `i` of a circle.
fn circle_corner(cx: Fixed, cy: Fixed, cz: Fixed, r: Fixed, steps: u16, i: u16) -> (p: Point)
    requires
        steps >= 1,
    ensures
        p == circle_point(cx, cy, cz, r, steps as int, i as int),
{
    let (s, c) = sin_cos(i as i64, steps as i64);
    Point { x: cx.plus(r.times(c)), y: cy.plus(r.times(s)), z: cz }
}

/// The coefficients of the cubic for one coordinate.
fn coefficients(kind: CurveType, v0: Fixed, v1: Fixed, v2: Fixed, v3: Fixed) -> (k: (
    i64,
    i64,
    i64,
    i64,
))
    ensures
        (k.0 as int, k.1 as int, k.2 as int, k.3 as int) == cubic(kind, v0@, v1@, v2@, v3@),
        -0x10_0000_0000 <= k.0 <= 0x10_0000_0000,
        -0x10_0000_0000 <= k.1 <= 0x10_0000_0000,
        -0x10_0000_0000 <= k.2 <= 0x10_0000_0000,
        -0x10_0000_0000 <= k.3 <= 0x10_0000_0000,
{
    let a: i64 = v0.raw as i64;
    let b: i64 = v1.raw as i64;
    let c: i64 = v2.raw as i64;
    let d: i64 = v3.raw as i64;
    match kind {
        CurveType::Hermite => (2 * a - 2 * b + c + d, 3 * b - 3 * a - 2 * c - d, c, a),
        CurveType::Bezier => (3 * b - a - 3 * c + d, 3 * a - 6 * b + 3 * c, 3 * b - 3 * a, a),
    }
}

/// The cubic with coefficients `k` at `t == i / n`.
fn evaluate(k: (i64, i64, i64, i64), i: u16, n: u16) -> (v: Fixed)
    requires
        1 <= n,
        i <= n,
        -0x10_0000_0000 <= k.0 <= 0x10_0000_0000,
        -0x10_0000_0000 <= k.1 <= 0x10_0000_0000,
        -0x10_0000_0000 <= k.2 <= 0x10_0000_0000,
        -0x10_0000_0000 <= k.3 <= 0x10_0000_0000,
    ensures
        v == cubic_at((k.0 as int, k.1 as int, k.2 as int, k.3 as int), i as int, n as int),
{
    let t: i128 = i as i128;
    let m: i128 = n as i128;
    assert(0 <= t * t <= 0x1_0000_0000 && 0 <= t * m <= 0x1_0000_0000 && 1 <= m * m
        <= 0x1_0000_0000) by (nonlinear_arith)
        requires
            0 <= t <= m,
            1 <= m <= 0xffff,
    ;
    let tt: i128 = t * t;
    let tm: i128 = t * m;
    let mm: i128 = m * m;
    assert(0 <= tt * t <= 0x1_0000_0000_0000 && 0 <= tt * m <= 0x1_0000_0000_0000 && 0 <= tm * m
        <= 0x1_0000_0000_0000 && 1 <= mm * m <= 0x1_0000_0000_0000) by (nonlinear_arith)
        requires
            0 <= t <= m,
            1 <= m <= 0xffff,
            0 <= tt <= 0x1_0000_0000,
            0 <= tm <= 0x1_0000_0000,
            1 <= mm <= 0x1_0000_0000,
    ;
    let t3: i128 = tt * t;
    let t2m: i128 = tt * m;
    let tm2: i128 = tm * m;
    let m3: i128 = mm * m;
    let a: i128 = k.0 as i128;
    let b: i128 = k.1 as i128;
    let c: i128 = k.2 as i128;
    let d: i128 = k.3 as i128;
    assert(-0x10_0000_0000_0000_0000_0000 <= a * t3 <= 0x10_0000_0000_0000_0000_0000
        && -0x10_0000_0000_0000_0000_0000 <= b * t2m <= 0x10_0000_0000_0000_0000_0000
        && -0x10_0000_0000_0000_0000_0000 <= c * tm2 <= 0x10_0000_0000_0000_0000_0000
        && -0x10_0000_0000_0000_0000_0000 <= d * m3 <= 0x10_0000_0000_0000_0000_0000)
        by (nonlinear_arith)
        requires
            -0x10_0000_0000 <= a <= 0x10_0000_0000,
            -0x10_0000_0000 <= b <= 0x10_0000_0000,
            -0x10_0000_0000 <= c <= 0x10_0000_0000,
            -0x10_0000_0000 <= d <= 0x10_0000_0000,
            0 <= t3 <= 0x1_0000_0000_0000,
            0 <= t2m <= 0x1_0000_0000_0000,
            0 <= tm2 <= 0x1_0000_0000_0000,
            0 <= m3 <= 0x1_0000_0000_0000,
    ;
    ratio(a * t3 + b * t2m + c * tm2 + d * m3, m3)
}

impl PointStore {
    /// Appends the circle about `(cx, cy, cz)` with radius `r`, in the
    /// plane `z == cz`, as `steps` segments. With `steps == 0` nothing is
    /// appended.
    pub fn add_circle(&mut self, cx: Fixed, cy: Fixed, cz: Fixed, r: Fixed, steps: u16)
        ensures
            final(self)@ == old(self)@ + circle_edges(cx, cy, cz, r, steps as int),
            final(self)@.len() == old(self)@.len() + 2 * steps,
    {
        let ghost goal = circle_edges(cx, cy, cz, r, steps as int);
        let mut i: u16 = 0;
        assert(self@ =~= old(self)@ + goal.subrange(0, 0));
        while i < steps
            invariant
                i <= steps,
                goal == circle_edges(cx, cy, cz, r, steps as int),
                self@ == old(self)@ + goal.subrange(0, 2 * i),
            decreases steps - i,
        {
            let next: u16 = if i + 1 == steps {
                0
            } else {
                i + 1
            };
            let p = circle_corner(cx, cy, cz, r, steps, i);
            let q = circle_corner(cx, cy, cz, r, steps, next);
            proof {
                let k = 2 * i as int;
                assert((k / 2 + k % 2) % (steps as int) == i) by {
                    vstd::arithmetic::div_mod::lemma_small_mod(i as nat, steps as nat);
                }
                assert(((k + 1) / 2 + (k + 1) % 2) % (steps as int) == next) by {
                    if i + 1 == steps {
                        vstd::arithmetic::div_mod::lemma_mod_self_0(steps as int);
                    } else {
                        vstd::arithmetic::div_mod::lemma_small_mod((i + 1) as nat, steps as nat);
                    }
                }
                assert(goal[k] == p);
                assert(goal[k + 1] == q);
            }
            self.add_point(p);
            self.add_point(q);
            assert(self@ =~= old(self)@ + goal.subrange(0, 2 * (i + 1)));
            i += 1;
        }
        assert(goal.subrange(0, 2 * steps) =~= goal);
    }

    /// Appends a cubic curve in the plane `z == 0` as `steps` segments.
    /// For a Hermite curve `(x0, y0)` and `(x1, y1)` are the ends and
    /// `(x2, y2)` and `(x3, y3)` the tangents at them; for a Bezier curve
    /// the four pairs are the control points. With `steps == 0` nothing is
    /// appended.
    pub fn add_curve(
        &mut self,
        x0: Fixed,
        y0: Fixed,
        x1: Fixed,
        y1: Fixed,
        x2: Fixed,
        y2: Fixed,
        x3: Fixed,
        y3: Fixed,
        steps: u16,
        kind: &CurveType,
    )
        ensures
            final(self)@ == old(self)@ + curve_edges(
                *kind,
                x0,
                y0,
                x1,
                y1,
                x2,
                y2,
                x3,
                y3,
                steps as int,
            ),
            final(self)@.len() == old(self)@.len() + 2 * steps,
    {
        let ghost goal = curve_edges(*kind, x0, y0, x1, y1, x2, y2, x3, y3, steps as int);
        let kx = coefficients(*kind, x0, x1, x2, x3);
        let ky = coefficients(*kind, y0, y1, y2, y3);
        let mut i: u16 = 0;
        assert(self@ =~= old(self)@ + goal.subrange(0, 0));
        while i < steps
            invariant
                i <= steps,
                goal == curve_edges(*kind, x0, y0, x1, y1, x2, y2, x3, y3, steps as int),
                (kx.0 as int, kx.1 as int, kx.2 as int, kx.3 as int) == cubic(
                    *kind,
                    x0@,
                    x1@,
                    x2@,
                    x3@,
                ),
                (ky.0 as int, ky.1 as int, ky.2 as int, ky.3 as int) == cubic(
                    *kind,
                    y0@,
                    y1@,
                    y2@,
                    y3@,
                ),
                -0x10_0000_0000 <= kx.0 <= 0x10_0000_0000,
                -0x10_0000_0000 <= kx.1 <= 0x10_0000_0000,
                -0x10_0000_0000 <= kx.2 <= 0x10_0000_0000,
                -0x10_0000_0000 <= kx.3 <= 0x10_0000_0000,
                -0x10_0000_0000 <= ky.0 <= 0x10_0000_0000,
                -0x10_0000_0000 <= ky.1 <= 0x10_0000_0000,
                -0x10_0000_0000 <= ky.2 <= 0x10_0000_0000,
                -0x10_0000_0000 <= ky.3 <= 0x10_0000_0000,
                self@ == old(self)@ + goal.subrange(0, 2 * i),
            decreases steps - i,
        {
            let p = Point { x: evaluate(kx, i, steps), y: evaluate(ky, i, steps), z: Fixed::zero() };
            let q = Point {
                x: evaluate(kx, i + 1, steps),
                y: evaluate(ky, i + 1, steps),
                z: Fixed::zero(),
            };
            proof {
                let k = 2 * i as int;
                assert(goal[k] == p);
                assert(goal[k + 1] == q);
            }
            self.add_point(p);
            self.add_point(q);
            assert(self@ =~= old(self)@ + goal.subrange(0, 2 * (i + 1)));
            i += 1;
        }
        assert(goal.subrange(0, 2 * steps) =~= goal);
    }
}

} // verus!
