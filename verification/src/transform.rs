//! Affine transforms of space and their composition.
//!
//! A transform is the 4 x 4 matrix
//!
//! ```text
//!   x.a  x.b  x.c  x.t
//!   y.a  y.b  y.c  y.t
//!   z.a  z.b  z.c  z.t
//!    0    0    0    1
//! ```
//!
//! applied to points written as columns `(x, y, z, 1)`. The bottom row is the
//! same in every affine transform and is not stored. Composition puts the
//! newer transform on the left, so that the transform given first acts on a
//! point first.
//!
//! The exact meaning of the operations is stated on integer matrices
//! ([`Matrix`], [`Vector`]) that carry their common denominator in the corner
//! entry `w`; the executable operations compute these exact values and then
//! round each entry once.

use crate::arith::clamp_i32;
use crate::arith::lemma_round_div_multiple;
use crate::fixed::ratio;
use crate::fixed::ratio_raw;
use crate::fixed::wide_product;
use crate::fixed::Fixed;
use crate::fixed::SCALE;
use crate::point::Point;
use crate::trig::cosine_raw;
use crate::trig::sin_cos;
use crate::trig::sine_raw;
use vstd::prelude::*;

verus! {

/// The raw denominator of an angle in degrees: 360 degrees make one turn.
pub const FULL_TURN: i64 = 23592960;

/// One stored row of a transform: the coefficients of `x`, `y` and `z`, and
/// the translation.
#[derive(Clone, Copy, Debug, PartialEq, Eq, Structural)]
pub struct Row {
    pub a: Fixed,
    pub b: Fixed,
    pub c: Fixed,
    pub t: Fixed,
}

/// An affine transform.
#[derive(Clone, Copy, Debug, PartialEq, Eq, Structural)]
pub struct Transform {
    pub x: Row,
    pub y: Row,
    pub z: Row,
}

/// A row of an integer matrix.
pub struct ExactRow {
    pub a: int,
    pub b: int,
    pub c: int,
    pub t: int,
}

/// An integer matrix whose fourth row is `(0, 0, 0, w)`. It stands for the
/// affine transform with every entry divided by `w`.
pub struct Matrix {
    pub x: ExactRow,
    pub y: ExactRow,
    pub z: ExactRow,
    pub w: int,
}

/// An integer column `(x, y, z, w)`. It stands for the point with every
/// coordinate divided by `w`.
pub struct Vector {
    pub x: int,
    pub y: int,
    pub z: int,
    pub w: int,
}

/// A row times a column.
pub open spec fn exact_dot(l: ExactRow, v: Vector) -> int {
    l.a * v.x + l.b * v.y + l.c * v.z + l.t * v.w
}

/// The matrix applied to the column: the exact matrix-vector product.
pub open spec fn matrix_apply(m: Matrix, v: Vector) -> Vector {
    Vector { x: exact_dot(m.x, v), y: exact_dot(m.y, v), z: exact_dot(m.z, v), w: m.w * v.w }
}

/// A row of `e` times the matrix `a`.
pub open spec fn exact_row_times(l: ExactRow, a: Matrix) -> ExactRow {
    ExactRow {
        a: l.a * a.x.a + l.b * a.y.a + l.c * a.z.a,
        b: l.a * a.x.b + l.b * a.y.b + l.c * a.z.b,
        c: l.a * a.x.c + l.b * a.y.c + l.c * a.z.c,
        t: l.a * a.x.t + l.b * a.y.t + l.c * a.z.t + l.t * a.w,
    }
}

/// The exact matrix product `e * a`: the transform that does `a` first and
/// `e` second.
pub open spec fn matrix_product(e: Matrix, a: Matrix) -> Matrix {
    Matrix { x: exact_row_times(e.x, a), y: exact_row_times(e.y, a), z: exact_row_times(e.z, a), w: e.w * a.w }
}

/// The identity matrix.
pub open spec fn matrix_identity() -> Matrix {
    Matrix {
        x: ExactRow { a: 1, b: 0, c: 0, t: 0 },
        y: ExactRow { a: 0, b: 1, c: 0, t: 0 },
        z: ExactRow { a: 0, b: 0, c: 1, t: 0 },
        w: 1,
    }
}

/// The product of a list of matrices given in the order in which they are to
/// act: the first one ends up rightmost.
pub open spec fn product_of(ts: Seq<Matrix>) -> Matrix
    decreases ts.len(),
{
    if ts.len() == 0 {
        matrix_identity()
    } else {
        matrix_product(ts.last(), product_of(ts.drop_last()))
    }
}

/// The column that results from applying the matrices one after another,
/// the first one first.
pub open spec fn applied_in_turn(ts: Seq<Matrix>, v: Vector) -> Vector
    decreases ts.len(),
{
    if ts.len() == 0 {
        v
    } else {
        matrix_apply(ts.last(), applied_in_turn(ts.drop_last(), v))
    }
}

impl View for Row {
    type V = ExactRow;

    open spec fn view(&self) -> ExactRow {
        ExactRow { a: self.a@, b: self.b@, c: self.c@, t: self.t@ }
    }
}

impl View for Transform {
    type V = Matrix;

    open spec fn view(&self) -> Matrix {
        Matrix { x: self.x@, y: self.y@, z: self.z@, w: SCALE as int }
    }
}

impl View for Point {
    type V = Vector;

    open spec fn view(&self) -> Vector {
        Vector { x: self.x@, y: self.y@, z: self.z@, w: SCALE as int }
    }
}

/// The stored row nearest to an exact row with one factor of the scale too
/// many.
pub open spec fn rounded_row(l: ExactRow) -> Row {
    Row {
        a: Fixed { raw: ratio_raw(l.a, SCALE as int) as i32 },
        b: Fixed { raw: ratio_raw(l.b, SCALE as int) as i32 },
        c: Fixed { raw: ratio_raw(l.c, SCALE as int) as i32 },
        t: Fixed { raw: ratio_raw(l.t, SCALE as int) as i32 },
    }
}

/// The transform nearest to an exact product of two transforms: every entry
/// rounded once.
pub open spec fn rounded_matrix(m: Matrix) -> Transform {
    Transform { x: rounded_row(m.x), y: rounded_row(m.y), z: rounded_row(m.z) }
}

/// The point nearest to an exact image of a point: every coordinate rounded
/// once.
pub open spec fn rounded_vector(v: Vector) -> Point {
    Point {
        x: Fixed { raw: ratio_raw(v.x, SCALE as int) as i32 },
        y: Fixed { raw: ratio_raw(v.y, SCALE as int) as i32 },
        z: Fixed { raw: ratio_raw(v.z, SCALE as int) as i32 },
    }
}

/// The image of `p` under `t`, as [`Transform::apply`] computes it.
pub open spec fn moved(t: Transform, p: Point) -> Point {
    rounded_vector(matrix_apply(t@, p@))
}

/// The transform that does `a` first and `e` second, as
/// [`Transform::compose`] computes it.
pub open spec fn composed(a: Transform, e: Transform) -> Transform {
    rounded_matrix(matrix_product(e@, a@))
}

/// Whether every entry of the row is a multiple of the scale that fits the
/// range after division, so that rounding it changes nothing.
pub open spec fn row_is_exact(l: ExactRow) -> bool {
    &&& l.a % (SCALE as int) == 0 && l.a / (SCALE as int) == clamp_i32(l.a / (SCALE as int))
    &&& l.b % (SCALE as int) == 0 && l.b / (SCALE as int) == clamp_i32(l.b / (SCALE as int))
    &&& l.c % (SCALE as int) == 0 && l.c / (SCALE as int) == clamp_i32(l.c / (SCALE as int))
    &&& l.t % (SCALE as int) == 0 && l.t / (SCALE as int) == clamp_i32(l.t / (SCALE as int))
}

/// Whether rounding the matrix changes nothing.
pub open spec fn matrix_is_exact(m: Matrix) -> bool {
    row_is_exact(m.x) && row_is_exact(m.y) && row_is_exact(m.z)
}

/// Whether rounding the column changes nothing.
pub open spec fn vector_is_exact(v: Vector) -> bool {
    row_is_exact(ExactRow { a: v.x, b: v.y, c: v.z, t: 0 })
}

/// `(p * x) * v == p * (x * v)`.
proof fn lemma_regroup(p: int, x: int, v: int)
    by (nonlinear_arith)
    ensures
        (p * x) * v == p * (x * v),
{
}

/// `(a + b + c + d) * v == a * v + b * v + c * v + d * v`.
proof fn lemma_spread(a: int, b: int, c: int, d: int, v: int)
    by (nonlinear_arith)
    ensures
        (a + b + c + d) * v == a * v + b * v + c * v + d * v,
        v * (a + b + c + d) == v * a + v * b + v * c + v * d,
{
}

/// A row times a column, where the row is itself a row of a product:
/// `(l * a) * v == l * (a * v)`.
pub proof fn lemma_row_associative(l: ExactRow, a: Matrix, v: Vector)
    ensures
        exact_dot(exact_row_times(l, a), v) == exact_dot(l, matrix_apply(a, v)),
{
    lemma_spread(l.a * a.x.a, l.b * a.y.a, l.c * a.z.a, 0, v.x);
    lemma_spread(l.a * a.x.b, l.b * a.y.b, l.c * a.z.b, 0, v.y);
    lemma_spread(l.a * a.x.c, l.b * a.y.c, l.c * a.z.c, 0, v.z);
    lemma_spread(l.a * a.x.t, l.b * a.y.t, l.c * a.z.t, l.t * a.w, v.w);
    lemma_spread(a.x.a * v.x, a.x.b * v.y, a.x.c * v.z, a.x.t * v.w, l.a);
    lemma_spread(a.y.a * v.x, a.y.b * v.y, a.y.c * v.z, a.y.t * v.w, l.b);
    lemma_spread(a.z.a * v.x, a.z.b * v.y, a.z.c * v.z, a.z.t * v.w, l.c);
    lemma_regroup(l.a, a.x.a, v.x);
    lemma_regroup(l.b, a.y.a, v.x);
    lemma_regroup(l.c, a.z.a, v.x);
    lemma_regroup(l.a, a.x.b, v.y);
    lemma_regroup(l.b, a.y.b, v.y);
    lemma_regroup(l.c, a.z.b, v.y);
    lemma_regroup(l.a, a.x.c, v.z);
    lemma_regroup(l.b, a.y.c, v.z);
    lemma_regroup(l.c, a.z.c, v.z);
    lemma_regroup(l.a, a.x.t, v.w);
    lemma_regroup(l.b, a.y.t, v.w);
    lemma_regroup(l.c, a.z.t, v.w);
    lemma_regroup(l.t, a.w, v.w);
}

/// Applying a product to a point is applying its right factor first and its
/// left factor to the result: `(e * a) * v == e * (a * v)`.
pub proof fn lemma_product_then_apply(e: Matrix, a: Matrix, v: Vector)
    ensures
        matrix_apply(matrix_product(e, a), v) == matrix_apply(e, matrix_apply(a, v)),
{
    lemma_row_associative(e.x, a, v);
    lemma_row_associative(e.y, a, v);
    lemma_row_associative(e.z, a, v);
    assert((e.w * a.w) * v.w == e.w * (a.w * v.w)) by (nonlinear_arith);
}

/// The identity matrix leaves every column as it is.
pub proof fn lemma_identity_applies_as_nothing(v: Vector)
    ensures
        matrix_apply(matrix_identity(), v) == v,
{
}

/// The ordering law. For transforms listed in the order in which they
/// were specified, the single composite matrix moves every point to where
/// the transforms, applied one after another with the first one first,
/// move it.
pub proof fn lemma_composite_acts_in_order(ts: Seq<Matrix>, v: Vector)
    ensures
        matrix_apply(product_of(ts), v) == applied_in_turn(ts, v),
    decreases ts.len(),
{
    if ts.len() == 0 {
        lemma_identity_applies_as_nothing(v);
    } else {
        lemma_composite_acts_in_order(ts.drop_last(), v);
        lemma_product_then_apply(ts.last(), product_of(ts.drop_last()), v);
    }
}


/// Rounding an exact entry gives back the entry divided by the scale.
proof fn lemma_exact_entry(n: int)
    requires
        n % (SCALE as int) == 0,
        n / (SCALE as int) == clamp_i32(n / (SCALE as int)),
    ensures
        ratio_raw(n, SCALE as int) == n / (SCALE as int),
        (ratio_raw(n, SCALE as int) as i32) * SCALE == n,
{
    let k = n / (SCALE as int);
    assert(n == k * SCALE);
    lemma_round_div_multiple(k, SCALE as int);
}

/// A row whose entries all hold the factor `SCALE` gives a dot product that
/// holds it too.
proof fn lemma_exact_dot_scales_left(l: ExactRow, r: ExactRow, v: Vector)
    requires
        l.a == r.a * SCALE,
        l.b == r.b * SCALE,
        l.c == r.c * SCALE,
        l.t == r.t * SCALE,
    ensures
        exact_dot(l, v) == exact_dot(r, v) * SCALE,
{
    assert((r.a * SCALE) * v.x + (r.b * SCALE) * v.y + (r.c * SCALE) * v.z + (r.t * SCALE) * v.w
        == (r.a * v.x + r.b * v.y + r.c * v.z + r.t * v.w) * SCALE) by (nonlinear_arith);
}

/// A column whose entries all hold the factor `SCALE` gives a dot product
/// that holds it too.
proof fn lemma_exact_dot_scales_right(l: ExactRow, v: Vector, u: Vector)
    requires
        v.x == u.x * SCALE,
        v.y == u.y * SCALE,
        v.z == u.z * SCALE,
        v.w == u.w * SCALE,
    ensures
        exact_dot(l, v) == exact_dot(l, u) * SCALE,
{
    assert(l.a * (u.x * SCALE) + l.b * (u.y * SCALE) + l.c * (u.z * SCALE) + l.t * (u.w * SCALE)
        == (l.a * u.x + l.b * u.y + l.c * u.z + l.t * u.w) * SCALE) by (nonlinear_arith);
}

/// The ordering law for the executable operations. Where composing `a`
/// with `e` needs no rounding, and moving `p` by `a` needs none, moving `p`
/// by the composite gives exactly the point that moving it by `a` and then
/// by `e` gives.
pub proof fn lemma_exact_composite_agrees(a: Transform, e: Transform, p: Point)
    requires
        matrix_is_exact(matrix_product(e@, a@)),
        vector_is_exact(matrix_apply(a@, p@)),
    ensures
        moved(composed(a, e), p) == moved(e, moved(a, p)),
{
    let big = matrix_product(e@, a@);
    let c = composed(a, e);
    let first = matrix_apply(a@, p@);
    let q = moved(a, p);
    lemma_exact_entry(big.x.a);
    lemma_exact_entry(big.x.b);
    lemma_exact_entry(big.x.c);
    lemma_exact_entry(big.x.t);
    lemma_exact_entry(big.y.a);
    lemma_exact_entry(big.y.b);
    lemma_exact_entry(big.y.c);
    lemma_exact_entry(big.y.t);
    lemma_exact_entry(big.z.a);
    lemma_exact_entry(big.z.b);
    lemma_exact_entry(big.z.c);
    lemma_exact_entry(big.z.t);
    lemma_exact_entry(first.x);
    lemma_exact_entry(first.y);
    lemma_exact_entry(first.z);
    lemma_exact_dot_scales_left(big.x, c@.x, p@);
    lemma_exact_dot_scales_left(big.y, c@.y, p@);
    lemma_exact_dot_scales_left(big.z, c@.z, p@);
    lemma_product_then_apply(e@, a@, p@);
    assert(first.w == SCALE * SCALE);
    lemma_exact_dot_scales_right(e@.x, first, q@);
    lemma_exact_dot_scales_right(e@.y, first, q@);
    lemma_exact_dot_scales_right(e@.z, first, q@);
    let left = matrix_apply(c@, p@);
    let right = matrix_apply(e@, q@);
    assert(left.x * SCALE == right.x * SCALE);
    assert(left.y * SCALE == right.y * SCALE);
    assert(left.z * SCALE == right.z * SCALE);
}

/// The transform with ones on the diagonal leaves every point in place.
pub proof fn lemma_identity_moves_nothing(p: Point)
    ensures
        moved(Transform::identity_spec(), p) == p,
{
    let t = Transform::identity_spec();
    let v = matrix_apply(t@, p@);
    assert(v.x == p.x@ * SCALE) by (nonlinear_arith)
        requires
            v.x == t@.x.a * p.x@ + t@.x.b * p.y@ + t@.x.c * p.z@ + t@.x.t * SCALE,
            t@.x.a == SCALE,
            t@.x.b == 0,
            t@.x.c == 0,
            t@.x.t == 0,
    ;
    assert(v.y == p.y@ * SCALE) by (nonlinear_arith)
        requires
            v.y == t@.y.a * p.x@ + t@.y.b * p.y@ + t@.y.c * p.z@ + t@.y.t * SCALE,
            t@.y.a == 0,
            t@.y.b == SCALE,
            t@.y.c == 0,
            t@.y.t == 0,
    ;
    assert(v.z == p.z@ * SCALE) by (nonlinear_arith)
        requires
            v.z == t@.z.a * p.x@ + t@.z.b * p.y@ + t@.z.c * p.z@ + t@.z.t * SCALE,
            t@.z.a == 0,
            t@.z.b == 0,
            t@.z.c == SCALE,
            t@.z.t == 0,
    ;
    lemma_round_div_multiple(p.x@, SCALE as int);
    lemma_round_div_multiple(p.y@, SCALE as int);
    lemma_round_div_multiple(p.z@, SCALE as int);
    assert(moved(t, p).x.raw == p.x.raw);
    assert(moved(t, p).y.raw == p.y.raw);
    assert(moved(t, p).z.raw == p.z.raw);
}

/// The accumulated transform after the transforms of `ts` have been taken
/// into the identity one after another, the first one first.
pub open spec fn composed_all(ts: Seq<Transform>) -> Transform
    decreases ts.len(),
{
    if ts.len() == 0 {
        Transform::identity_spec()
    } else {
        composed(composed_all(ts.drop_last()), ts.last())
    }
}

/// The point that results from moving `p` by the transforms of `ts` one
/// after another, the first one first.
pub open spec fn moved_in_turn(ts: Seq<Transform>, p: Point) -> Point
    decreases ts.len(),
{
    if ts.len() == 0 {
        p
    } else {
        moved(ts.last(), moved_in_turn(ts.drop_last(), p))
    }
}

/// Whether accumulating the transforms of `ts` needs no rounding at any
/// step, and moving `p` by what is accumulated before each step needs none
/// either.
pub open spec fn exact_throughout(ts: Seq<Transform>, p: Point) -> bool
    decreases ts.len(),
{
    ts.len() == 0 || {
        let before = composed_all(ts.drop_last());
        &&& exact_throughout(ts.drop_last(), p)
        &&& matrix_is_exact(matrix_product(ts.last()@, before@))
        &&& vector_is_exact(matrix_apply(before@, p@))
    }
}

/// The ordering law for any number of transforms. Where nothing is
/// rounded on the way, the transform accumulated from `ts` moves `p` to
/// where the transforms of `ts`, applied one after another with the first
/// one first, move it.
pub proof fn lemma_exact_composites_agree(ts: Seq<Transform>, p: Point)
    requires
        exact_throughout(ts, p),
    ensures
        moved(composed_all(ts), p) == moved_in_turn(ts, p),
    decreases ts.len(),
{
    if ts.len() == 0 {
        lemma_identity_moves_nothing(p);
    } else {
        lemma_exact_composites_agree(ts.drop_last(), p);
        lemma_exact_composite_agrees(composed_all(ts.drop_last()), ts.last(), p);
    }
}

/// `l.a * x + l.b * y + l.c * z + l.t * w`, rounded to a stored number.
fn row_dot(l: Row, x: Fixed, y: Fixed, z: Fixed, w: i32) -> (r: Fixed)
    ensures
        r@ == ratio_raw(exact_dot(l@, Vector { x: x@, y: y@, z: z@, w: w as int }), SCALE as int),
{
    let sum: i128 = wide_product(l.a.raw, x.raw) + wide_product(l.b.raw, y.raw) + wide_product(
        l.c.raw,
        z.raw,
    ) + wide_product(l.t.raw, w);
    ratio(sum, 65536)
}

/// A row of `e` times the transform `a`, rounded.
fn row_times(l: Row, a: &Transform) -> (r: Row)
    ensures
        r == rounded_row(exact_row_times(l@, a@)),
{
    Row {
        a: row_dot(l, a.x.a, a.y.a, a.z.a, 0),
        b: row_dot(l, a.x.b, a.y.b, a.z.b, 0),
        c: row_dot(l, a.x.c, a.y.c, a.z.c, 0),
        t: row_dot(l, a.x.t, a.y.t, a.z.t, SCALE),
    }
}

impl Transform {
    /// The transform that leaves every point where it is.
    pub fn identity() -> (t: Transform)
        ensures
            t == Transform::identity_spec(),
            forall|p: Point| moved(t, p) == p,
    {
        let t = Transform::make_scale(Fixed::one(), Fixed::one(), Fixed::one());
        proof {
            assert forall|p: Point| moved(t, p) == p by {
                lemma_identity_moves_nothing(p);
            }
        }
        t
    }

    /// The identity: ones on the diagonal, zeros elsewhere.
    pub open spec fn identity_spec() -> Transform {
        Transform::make_scale_spec(SCALE as int, SCALE as int, SCALE as int)
    }

    /// The scaling with raw factors `sx`, `sy`, `sz`.
    pub open spec fn make_scale_spec(sx: int, sy: int, sz: int) -> Transform {
        Transform {
            x: Row {
                a: Fixed { raw: sx as i32 },
                b: Fixed { raw: 0 },
                c: Fixed { raw: 0 },
                t: Fixed { raw: 0 },
            },
            y: Row {
                a: Fixed { raw: 0 },
                b: Fixed { raw: sy as i32 },
                c: Fixed { raw: 0 },
                t: Fixed { raw: 0 },
            },
            z: Row {
                a: Fixed { raw: 0 },
                b: Fixed { raw: 0 },
                c: Fixed { raw: sz as i32 },
                t: Fixed { raw: 0 },
            },
        }
    }

    /// The translation by the raw offsets `tx`, `ty`, `tz`.
    pub open spec fn make_translate_spec(tx: int, ty: int, tz: int) -> Transform {
        Transform {
            x: Row {
                a: Fixed { raw: SCALE },
                b: Fixed { raw: 0 },
                c: Fixed { raw: 0 },
                t: Fixed { raw: tx as i32 },
            },
            y: Row {
                a: Fixed { raw: 0 },
                b: Fixed { raw: SCALE },
                c: Fixed { raw: 0 },
                t: Fixed { raw: ty as i32 },
            },
            z: Row {
                a: Fixed { raw: 0 },
                b: Fixed { raw: 0 },
                c: Fixed { raw: SCALE },
                t: Fixed { raw: tz as i32 },
            },
        }
    }

    /// The rotation about the x axis with raw sine `s` and cosine `c`: it
    /// turns the y axis towards the z axis.
    pub open spec fn make_rot_x_spec(s: int, c: int) -> Transform {
        Transform {
            x: Row {
                a: Fixed { raw: SCALE },
                b: Fixed { raw: 0 },
                c: Fixed { raw: 0 },
                t: Fixed { raw: 0 },
            },
            y: Row {
                a: Fixed { raw: 0 },
                b: Fixed { raw: c as i32 },
                c: Fixed { raw: (-s) as i32 },
                t: Fixed { raw: 0 },
            },
            z: Row {
                a: Fixed { raw: 0 },
                b: Fixed { raw: s as i32 },
                c: Fixed { raw: c as i32 },
                t: Fixed { raw: 0 },
            },
        }
    }

    /// The rotation about the y axis with raw sine `s` and cosine `c`: it
    /// turns the z axis towards the x axis.
    pub open spec fn make_rot_y_spec(s: int, c: int) -> Transform {
        Transform {
            x: Row {
                a: Fixed { raw: c as i32 },
                b: Fixed { raw: 0 },
                c: Fixed { raw: s as i32 },
                t: Fixed { raw: 0 },
            },
            y: Row {
                a: Fixed { raw: 0 },
                b: Fixed { raw: SCALE },
                c: Fixed { raw: 0 },
                t: Fixed { raw: 0 },
            },
            z: Row {
                a: Fixed { raw: (-s) as i32 },
                b: Fixed { raw: 0 },
                c: Fixed { raw: c as i32 },
                t: Fixed { raw: 0 },
            },
        }
    }

    /// The rotation about the z axis with raw sine `s` and cosine `c`: it
    /// turns the x axis towards the y axis.
    pub open spec fn make_rot_z_spec(s: int, c: int) -> Transform {
        Transform {
            x: Row {
                a: Fixed { raw: c as i32 },
                b: Fixed { raw: (-s) as i32 },
                c: Fixed { raw: 0 },
                t: Fixed { raw: 0 },
            },
            y: Row {
                a: Fixed { raw: s as i32 },
                b: Fixed { raw: c as i32 },
                c: Fixed { raw: 0 },
                t: Fixed { raw: 0 },
            },
            z: Row {
                a: Fixed { raw: 0 },
                b: Fixed { raw: 0 },
                c: Fixed { raw: SCALE },
                t: Fixed { raw: 0 },
            },
        }
    }

    /// The scaling by `sx`, `sy`, `sz` along the three axes.
    pub fn make_scale(sx: Fixed, sy: Fixed, sz: Fixed) -> (t: Transform)
        ensures
            t == Transform::make_scale_spec(sx@, sy@, sz@),
    {
        let o = Fixed::zero();
        Transform {
            x: Row { a: sx, b: o, c: o, t: o },
            y: Row { a: o, b: sy, c: o, t: o },
            z: Row { a: o, b: o, c: sz, t: o },
        }
    }

    /// The translation by `(tx, ty, tz)`.
    pub fn make_translate(tx: Fixed, ty: Fixed, tz: Fixed) -> (t: Transform)
        ensures
            t == Transform::make_translate_spec(tx@, ty@, tz@),
    {
        let o = Fixed::zero();
        let i = Fixed::one();
        Transform {
            x: Row { a: i, b: o, c: o, t: tx },
            y: Row { a: o, b: i, c: o, t: ty },
            z: Row { a: o, b: o, c: i, t: tz },
        }
    }

    /// The rotation by `theta` degrees about the x axis.
    pub fn make_rot_x(theta: Fixed) -> (t: Transform)
        ensures
            t == Transform::make_rot_x_spec(
                sine_raw(theta@, FULL_TURN as int),
                cosine_raw(theta@, FULL_TURN as int),
            ),
    {
        let (s, c) = sin_cos(theta.raw as i64, FULL_TURN);
        let n = Fixed { raw: -s.raw };
        let o = Fixed::zero();
        let i = Fixed::one();
        Transform {
            x: Row { a: i, b: o, c: o, t: o },
            y: Row { a: o, b: c, c: n, t: o },
            z: Row { a: o, b: s, c: c, t: o },
        }
    }

    /// The rotation by `theta` degrees about the y axis.
    pub fn make_rot_y(theta: Fixed) -> (t: Transform)
        ensures
            t == Transform::make_rot_y_spec(
                sine_raw(theta@, FULL_TURN as int),
                cosine_raw(theta@, FULL_TURN as int),
            ),
    {
        let (s, c) = sin_cos(theta.raw as i64, FULL_TURN);
        let n = Fixed { raw: -s.raw };
        let o = Fixed::zero();
        let i = Fixed::one();
        Transform {
            x: Row { a: c, b: o, c: s, t: o },
            y: Row { a: o, b: i, c: o, t: o },
            z: Row { a: n, b: o, c: c, t: o },
        }
    }

    /// The rotation by `theta` degrees about the z axis.
    pub fn make_rot_z(theta: Fixed) -> (t: Transform)
        ensures
            t == Transform::make_rot_z_spec(
                sine_raw(theta@, FULL_TURN as int),
                cosine_raw(theta@, FULL_TURN as int),
            ),
    {
        let (s, c) = sin_cos(theta.raw as i64, FULL_TURN);
        let n = Fixed { raw: -s.raw };
        let o = Fixed::zero();
        let i = Fixed::one();
        Transform {
            x: Row { a: c, b: n, c: o, t: o },
            y: Row { a: s, b: c, c: o, t: o },
            z: Row { a: o, b: o, c: i, t: o },
        }
    }

    /// Takes the transform `e`, specified after everything accumulated so
    /// far, into the accumulated transform: `self` becomes the transform
    /// that does what `self` did and then what `e` does.
    pub fn compose(&mut self, e: &Transform)
        ensures
            *final(self) == composed(*old(self), *e),
    {
        let x = row_times(e.x, self);
        let y = row_times(e.y, self);
        let z = row_times(e.z, self);
        self.x = x;
        self.y = y;
        self.z = z;
    }

    /// The image of the point `p`.
    pub fn apply(&self, p: Point) -> (q: Point)
        ensures
            q == moved(*self, p),
    {
        Point {
            x: row_dot(self.x, p.x, p.y, p.z, SCALE),
            y: row_dot(self.y, p.x, p.y, p.z, SCALE),
            z: row_dot(self.z, p.x, p.y, p.z, SCALE),
        }
    }
}

} // verus!
