//! Solids, cut into triangles.
//!
//! Every triangle is wound so that its corners run counter-clockwise for a
//! viewer outside the solid. A sphere and a torus are cut along two families
//! of circles, `steps` of each; the number of triangles is a fixed function
//! of `steps`: `2 * steps * (steps - 1)` for a sphere, whose cells at the
//! two poles are single triangles, and `2 * steps * steps` for a torus.

use crate::fixed::difference;
use crate::fixed::product;
use crate::fixed::sum;
use crate::fixed::Fixed;
use crate::point::Point;
use crate::point::PointStore;
use crate::trig::cosine_raw;
use crate::trig::sin_cos;
use crate::trig::sine_raw;
use vstd::prelude::*;

verus! {

/// The triangles of the box whose upper left front corner is `(x, y, z)`
/// and which extends by `w` to the right, by `h` downwards and by `d` to the
/// back: front, back, right, left, top and bottom face, two triangles each.
pub open spec fn box_triangles(x: Fixed, y: Fixed, z: Fixed, w: Fixed, h: Fixed, d: Fixed) -> Seq<
    Point,
> {
    let x1 = sum(x, w);
    let y1 = difference(y, h);
    let z1 = difference(z, d);
    seq![
        Point { x: x, y: y, z: z },
        Point { x: x, y: y1, z: z },
        Point { x: x1, y: y1, z: z },
        Point { x: x, y: y, z: z },
        Point { x: x1, y: y1, z: z },
        Point { x: x1, y: y, z: z },
        Point { x: x1, y: y, z: z1 },
        Point { x: x1, y: y1, z: z1 },
        Point { x: x, y: y1, z: z1 },
        Point { x: x1, y: y, z: z1 },
        Point { x: x, y: y1, z: z1 },
        Point { x: x, y: y, z: z1 },
        Point { x: x1, y: y, z: z },
        Point { x: x1, y: y1, z: z },
        Point { x: x1, y: y1, z: z1 },
        Point { x: x1, y: y, z: z },
        Point { x: x1, y: y1, z: z1 },
        Point { x: x1, y: y, z: z1 },
        Point { x: x, y: y, z: z1 },
        Point { x: x, y: y1, z: z1 },
        Point { x: x, y: y1, z: z },
        Point { x: x, y: y, z: z1 },
        Point { x: x, y: y1, z: z },
        Point { x: x, y: y, z: z },
        Point { x: x, y: y, z: z1 },
        Point { x: x, y: y, z: z },
        Point { x: x1, y: y, z: z },
        Point { x: x, y: y, z: z1 },
        Point { x: x1, y: y, z: z },
        Point { x: x1, y: y, z: z1 },
        Point { x: x, y: y1, z: z },
        Point { x: x, y: y1, z: z1 },
        Point { x: x1, y: y1, z: z1 },
        Point { x: x, y: y1, z: z },
        Point { x: x1, y: y1, z: z1 },
        Point { x: x1, y: y1, z: z },
    ]
}

/// The two triangles `a`, `b`, `c` and `a`, `c`, `d` that make up the
/// four-sided face with corners `a`, `b`, `c`, `d`.
pub open spec fn face(a: Point, b: Point, c: Point, d: Point) -> Seq<Point> {
    seq![a, b, c, a, c, d]
}

/// A box is its six faces, one after another.
proof fn lemma_box_is_six_faces(x: Fixed, y: Fixed, z: Fixed, w: Fixed, h: Fixed, d: Fixed)
    ensures
        ({
            let x1 = sum(x, w);
            let y1 = difference(y, h);
            let z1 = difference(z, d);
            let front = face(
                Point { x: x, y: y, z: z },
                Point { x: x, y: y1, z: z },
                Point { x: x1, y: y1, z: z },
                Point { x: x1, y: y, z: z },
            );
            let back = face(
                Point { x: x1, y: y, z: z1 },
                Point { x: x1, y: y1, z: z1 },
                Point { x: x, y: y1, z: z1 },
                Point { x: x, y: y, z: z1 },
            );
            let right = face(
                Point { x: x1, y: y, z: z },
                Point { x: x1, y: y1, z: z },
                Point { x: x1, y: y1, z: z1 },
                Point { x: x1, y: y, z: z1 },
            );
            let left = face(
                Point { x: x, y: y, z: z1 },
                Point { x: x, y: y1, z: z1 },
                Point { x: x, y: y1, z: z },
                Point { x: x, y: y, z: z },
            );
            let top = face(
                Point { x: x, y: y, z: z1 },
                Point { x: x, y: y, z: z },
                Point { x: x1, y: y, z: z },
                Point { x: x1, y: y, z: z1 },
            );
            let bottom = face(
                Point { x: x, y: y1, z: z },
                Point { x: x, y: y1, z: z1 },
                Point { x: x1, y: y1, z: z1 },
                Point { x: x1, y: y1, z: z },
            );
            box_triangles(x, y, z, w, h, d) == front + back + right + left + top + bottom
        }),
{
    let x1 = sum(x, w);
    let y1 = difference(y, h);
    let z1 = difference(z, d);
    let front = face(
        Point { x: x, y: y, z: z },
        Point { x: x, y: y1, z: z },
        Point { x: x1, y: y1, z: z },
        Point { x: x1, y: y, z: z },
    );
    let back = face(
        Point { x: x1, y: y, z: z1 },
        Point { x: x1, y: y1, z: z1 },
        Point { x: x, y: y1, z: z1 },
        Point { x: x, y: y, z: z1 },
    );
    let right = face(
        Point { x: x1, y: y, z: z },
        Point { x: x1, y: y1, z: z },
        Point { x: x1, y: y1, z: z1 },
        Point { x: x1, y: y, z: z1 },
    );
    let left = face(
        Point { x: x, y: y, z: z1 },
        Point { x: x, y: y1, z: z1 },
        Point { x: x, y: y1, z: z },
        Point { x: x, y: y, z: z },
    );
    let top = face(
        Point { x: x, y: y, z: z1 },
        Point { x: x, y: y, z: z },
        Point { x: x1, y: y, z: z },
        Point { x: x1, y: y, z: z1 },
    );
    let bottom = face(
        Point { x: x, y: y1, z: z },
        Point { x: x, y: y1, z: z1 },
        Point { x: x1, y: y1, z: z1 },
        Point { x: x1, y: y1, z: z },
    );
    assert(box_triangles(x, y, z, w, h, d) =~= front + back + right + left + top + bottom);
}

/// The normal `(b - a) x (c - a)` of the triangle `a`, `b`, `c`, in raw
/// units. It points to the side from which the corners run
/// counter-clockwise.
pub open spec fn normal(a: Point, b: Point, c: Point) -> (int, int, int) {
    let ux = b.x@ - a.x@;
    let uy = b.y@ - a.y@;
    let uz = b.z@ - a.z@;
    let vx = c.x@ - a.x@;
    let vy = c.y@ - a.y@;
    let vz = c.z@ - a.z@;
    (uy * vz - uz * vy, uz * vx - ux * vz, ux * vy - uy * vx)
}

/// The normal of triangle `t` of an outward wound box with sides `w`, `h`,
/// `d`: along the axis of its face, away from the box, as long as the face
/// is large.
pub open spec fn box_normal(w: int, h: int, d: int, t: int) -> (int, int, int) {
    if t < 2 {
        (0, 0, w * h)
    } else if t < 4 {
        (0, 0, -(w * h))
    } else if t < 6 {
        (h * d, 0, 0)
    } else if t < 8 {
        (-(h * d), 0, 0)
    } else if t < 10 {
        (0, w * d, 0)
    } else {
        (0, -(w * d), 0)
    }
}

/// A box is wound outwards. Where the box fits the range of the numbers,
/// the normal of each of its twelve triangles points along the axis of the
/// triangle's face, away from the box, and is as long as the face is large.
pub proof fn lemma_box_winds_outwards(x: Fixed, y: Fixed, z: Fixed, w: Fixed, h: Fixed, d: Fixed, t: int)
    requires
        0 <= t < 12,
        x@ + w@ <= i32::MAX,
        x@ + w@ >= i32::MIN,
        y@ - h@ >= i32::MIN,
        y@ - h@ <= i32::MAX,
        z@ - d@ >= i32::MIN,
        z@ - d@ <= i32::MAX,
    ensures
        box_triangles(x, y, z, w, h, d).len() == 36,
        normal(
            box_triangles(x, y, z, w, h, d)[3 * t],
            box_triangles(x, y, z, w, h, d)[3 * t + 1],
            box_triangles(x, y, z, w, h, d)[3 * t + 2],
        ) == box_normal(w@, h@, d@, t),
{
    let s = box_triangles(x, y, z, w, h, d);
    let a = s[3 * t];
    let b = s[3 * t + 1];
    let c = s[3 * t + 2];
    let ux = b.x@ - a.x@;
    let uy = b.y@ - a.y@;
    let uz = b.z@ - a.z@;
    let vx = c.x@ - a.x@;
    let vy = c.y@ - a.y@;
    let vz = c.z@ - a.z@;
    let wi = w@;
    let hi = h@;
    let di = d@;
    assert(sum(x, w)@ == x@ + wi);
    assert(difference(y, h)@ == y@ - hi);
    assert(difference(z, d)@ == z@ - di);
    if t == 0 {
        assert(uy * vz - uz * vy == 0 && uz * vx - ux * vz == 0 && ux * vy - uy * vx == wi * hi)
            by (nonlinear_arith)
            requires
                ux == 0,
                uy == -hi,
                uz == 0,
                vx == wi,
                vy == -hi,
                vz == 0,
        ;
    } else if t == 1 {
        assert(uy * vz - uz * vy == 0 && uz * vx - ux * vz == 0 && ux * vy - uy * vx == wi * hi)
            by (nonlinear_arith)
            requires
                ux == wi,
                uy == -hi,
                uz == 0,
                vx == wi,
                vy == 0,
                vz == 0,
        ;
    } else if t == 2 {
        assert(uy * vz - uz * vy == 0 && uz * vx - ux * vz == 0 && ux * vy - uy * vx == -(wi * hi))
            by (nonlinear_arith)
            requires
                ux == 0,
                uy == -hi,
                uz == 0,
                vx == -wi,
                vy == -hi,
                vz == 0,
        ;
    } else if t == 3 {
        assert(uy * vz - uz * vy == 0 && uz * vx - ux * vz == 0 && ux * vy - uy * vx == -(wi * hi))
            by (nonlinear_arith)
            requires
                ux == -wi,
                uy == -hi,
                uz == 0,
                vx == -wi,
                vy == 0,
                vz == 0,
        ;
    } else if t == 4 {
        assert(uy * vz - uz * vy == hi * di && uz * vx - ux * vz == 0 && ux * vy - uy * vx == 0)
            by (nonlinear_arith)
            requires
                ux == 0,
                uy == -hi,
                uz == 0,
                vx == 0,
                vy == -hi,
                vz == -di,
        ;
    } else if t == 5 {
        assert(uy * vz - uz * vy == hi * di && uz * vx - ux * vz == 0 && ux * vy - uy * vx == 0)
            by (nonlinear_arith)
            requires
                ux == 0,
                uy == -hi,
                uz == -di,
                vx == 0,
                vy == 0,
                vz == -di,
        ;
    } else if t == 6 {
        assert(uy * vz - uz * vy == -(hi * di) && uz * vx - ux * vz == 0 && ux * vy - uy * vx == 0)
            by (nonlinear_arith)
            requires
                ux == 0,
                uy == -hi,
                uz == 0,
                vx == 0,
                vy == -hi,
                vz == di,
        ;
    } else if t == 7 {
        assert(uy * vz - uz * vy == -(hi * di) && uz * vx - ux * vz == 0 && ux * vy - uy * vx == 0)
            by (nonlinear_arith)
            requires
                ux == 0,
                uy == -hi,
                uz == di,
                vx == 0,
                vy == 0,
                vz == di,
        ;
    } else if t == 8 {
        assert(uy * vz - uz * vy == 0 && uz * vx - ux * vz == wi * di && ux * vy - uy * vx == 0)
            by (nonlinear_arith)
            requires
                ux == 0,
                uy == 0,
                uz == di,
                vx == wi,
                vy == 0,
                vz == di,
        ;
    } else if t == 9 {
        assert(uy * vz - uz * vy == 0 && uz * vx - ux * vz == wi * di && ux * vy - uy * vx == 0)
            by (nonlinear_arith)
            requires
                ux == wi,
                uy == 0,
                uz == di,
                vx == wi,
                vy == 0,
                vz == 0,
        ;
    } else if t == 10 {
        assert(uy * vz - uz * vy == 0 && uz * vx - ux * vz == -(wi * di) && ux * vy - uy * vx == 0)
            by (nonlinear_arith)
            requires
                ux == 0,
                uy == 0,
                uz == -di,
                vx == wi,
                vy == 0,
                vz == -di,
        ;
    } else {
        assert(uy * vz - uz * vy == 0 && uz * vx - ux * vz == -(wi * di) && ux * vy - uy * vx == 0)
            by (nonlinear_arith)
            requires
                ux == wi,
                uy == 0,
                uz == -di,
                vx == wi,
                vy == 0,
                vz == 0,
        ;
    }
}

/// The point of the sphere about `(cx, cy, cz)` with radius `r` where
/// circle of longitude `i` crosses circle of latitude `j`. The poles lie on
/// the line through the centre along the x axis; longitude `i` is the half
/// circle from pole to pole turned about that line by `i / steps` of a turn,
/// and latitude `j` lies `j / steps` of the way along it.
pub open spec fn sphere_point(
    cx: Fixed,
    cy: Fixed,
    cz: Fixed,
    r: Fixed,
    steps: int,
    i: int,
    j: int,
) -> Point {
    let along_sin = Fixed { raw: sine_raw(j, 2 * steps) as i32 };
    let along_cos = Fixed { raw: cosine_raw(j, 2 * steps) as i32 };
    let turn_sin = Fixed { raw: sine_raw(i, steps) as i32 };
    let turn_cos = Fixed { raw: cosine_raw(i, steps) as i32 };
    Point {
        x: sum(cx, product(r, along_cos)),
        y: sum(cy, product(product(r, along_sin), turn_cos)),
        z: sum(cz, product(product(r, along_sin), turn_sin)),
    }
}

/// The triangles of the cell of a sphere between longitudes `i` and
/// `i + 1` and latitudes `j` and `j + 1`: two, but one where the cell
/// touches a pole, since its other triangle would have no area.
pub open spec fn sphere_cell(
    cx: Fixed,
    cy: Fixed,
    cz: Fixed,
    r: Fixed,
    steps: int,
    i: int,
    j: int,
) -> Seq<Point> {
    let a = sphere_point(cx, cy, cz, r, steps, i, j);
    let b = sphere_point(cx, cy, cz, r, steps, i, j + 1);
    let c = sphere_point(cx, cy, cz, r, steps, i + 1, j + 1);
    let d = sphere_point(cx, cy, cz, r, steps, i + 1, j);
    let first = if j + 1 < steps {
        seq![a, b, c]
    } else {
        Seq::empty()
    };
    let second = if j > 0 {
        seq![a, c, d]
    } else {
        Seq::empty()
    };
    first + second
}

/// The triangles of the first `n` cells between longitudes `i` and `i + 1`
/// of a sphere.
pub open spec fn sphere_strip(
    cx: Fixed,
    cy: Fixed,
    cz: Fixed,
    r: Fixed,
    steps: int,
    i: int,
    n: nat,
) -> Seq<Point>
    decreases n,
{
    if n == 0 {
        Seq::empty()
    } else {
        sphere_strip(cx, cy, cz, r, steps, i, (n - 1) as nat) + sphere_cell(
            cx,
            cy,
            cz,
            r,
            steps,
            i,
            n - 1,
        )
    }
}

/// The triangles of the first `m` strips of a sphere; with `m == steps`,
/// the whole sphere.
pub open spec fn sphere_mesh(cx: Fixed, cy: Fixed, cz: Fixed, r: Fixed, steps: int, m: nat) -> Seq<
    Point,
>
    decreases m,
{
    if m == 0 {
        Seq::empty()
    } else {
        sphere_mesh(cx, cy, cz, r, steps, (m - 1) as nat) + sphere_strip(
            cx,
            cy,
            cz,
            r,
            steps,
            m - 1,
            steps as nat,
        )
    }
}

/// The point of the torus about `(cx, cy, cz)` where cross section `i`
/// meets ring `j`. The tube has radius `r1` and its centre line has radius
/// `r2` about the vertical through the centre; cross section `i` is turned
/// about that vertical by `i / steps` of a turn, and ring `j` lies
/// `j / steps` of a turn around the tube.
pub open spec fn torus_point(
    cx: Fixed,
    cy: Fixed,
    cz: Fixed,
    r1: Fixed,
    r2: Fixed,
    steps: int,
    i: int,
    j: int,
) -> Point {
    let tube_sin = Fixed { raw: sine_raw(j, steps) as i32 };
    let tube_cos = Fixed { raw: cosine_raw(j, steps) as i32 };
    let turn_sin = Fixed { raw: sine_raw(i, steps) as i32 };
    let turn_cos = Fixed { raw: cosine_raw(i, steps) as i32 };
    let reach = sum(product(r1, tube_cos), r2);
    Point {
        x: sum(cx, product(turn_cos, reach)),
        y: sum(cy, product(r1, tube_sin)),
        z: difference(cz, product(turn_sin, reach)),
    }
}

/// The two triangles of the cell of a torus between cross sections `i` and
/// `i + 1` and rings `j` and `j + 1`.
pub open spec fn torus_cell(
    cx: Fixed,
    cy: Fixed,
    cz: Fixed,
    r1: Fixed,
    r2: Fixed,
    steps: int,
    i: int,
    j: int,
) -> Seq<Point> {
    let a = torus_point(cx, cy, cz, r1, r2, steps, i, j);
    let b = torus_point(cx, cy, cz, r1, r2, steps, i + 1, j);
    let c = torus_point(cx, cy, cz, r1, r2, steps, i + 1, j + 1);
    let d = torus_point(cx, cy, cz, r1, r2, steps, i, j + 1);
    face(a, b, c, d)
}

/// The triangles of the first `n` cells between cross sections `i` and
/// `i + 1` of a torus.
pub open spec fn torus_strip(
    cx: Fixed,
    cy: Fixed,
    cz: Fixed,
    r1: Fixed,
    r2: Fixed,
    steps: int,
    i: int,
    n: nat,
) -> Seq<Point>
    decreases n,
{
    if n == 0 {
        Seq::empty()
    } else {
        torus_strip(cx, cy, cz, r1, r2, steps, i, (n - 1) as nat) + torus_cell(
            cx,
            cy,
            cz,
            r1,
            r2,
            steps,
            i,
            n - 1,
        )
    }
}

/// The triangles of the first `m` strips of a torus; with `m == steps`, the
/// whole torus.
pub open spec fn torus_mesh(
    cx: Fixed,
    cy: Fixed,
    cz: Fixed,
    r1: Fixed,
    r2: Fixed,
    steps: int,
    m: nat,
) -> Seq<Point>
    decreases m,
{
    if m == 0 {
        Seq::empty()
    } else {
        torus_mesh(cx, cy, cz, r1, r2, steps, (m - 1) as nat) + torus_strip(
            cx,
            cy,
            cz,
            r1,
            r2,
            steps,
            m - 1,
            steps as nat,
        )
    }
}

/// The number of points in the first `n` cells of a strip of a sphere.
pub open spec fn sphere_strip_len(steps: int, n: int) -> int {
    if n == 0 {
        0
    } else if n < steps {
        6 * n - 3
    } else {
        6 * steps - 6
    }
}

/// The first `n` cells of a strip of a sphere hold `sphere_strip_len`
/// points.
pub proof fn lemma_sphere_strip_count(
    cx: Fixed,
    cy: Fixed,
    cz: Fixed,
    r: Fixed,
    steps: int,
    i: int,
    n: nat,
)
    requires
        n <= steps,
    ensures
        sphere_strip(cx, cy, cz, r, steps, i, n).len() == sphere_strip_len(steps, n as int),
    decreases n,
{
    if n > 0 {
        lemma_sphere_strip_count(cx, cy, cz, r, steps, i, (n - 1) as nat);
    }
}

/// The point count of a sphere. The first `m` strips of a sphere of
/// `steps` steps hold `6 * m * (steps - 1)` points, the whole sphere
/// `6 * steps * (steps - 1)`: two triangles for every cell but one for each
/// of the `2 * steps` cells at the poles.
pub proof fn lemma_sphere_count(cx: Fixed, cy: Fixed, cz: Fixed, r: Fixed, steps: int, m: nat)
    requires
        steps >= 1,
    ensures
        sphere_mesh(cx, cy, cz, r, steps, m).len() == 6 * m * (steps - 1),
    decreases m,
{
    if m > 0 {
        lemma_sphere_count(cx, cy, cz, r, steps, (m - 1) as nat);
        lemma_sphere_strip_count(cx, cy, cz, r, steps, m - 1, steps as nat);
        assert(6 * (m - 1) * (steps - 1) + (6 * steps - 6) == 6 * m * (steps - 1))
            by (nonlinear_arith);
    } else {
        assert(6 * m * (steps - 1) == 0) by (nonlinear_arith)
            requires
                m == 0,
        ;
    }
}

/// The first `n` cells of a strip of a torus hold `6 * n` points.
pub proof fn lemma_torus_strip_count(
    cx: Fixed,
    cy: Fixed,
    cz: Fixed,
    r1: Fixed,
    r2: Fixed,
    steps: int,
    i: int,
    n: nat,
)
    ensures
        torus_strip(cx, cy, cz, r1, r2, steps, i, n).len() == 6 * n,
    decreases n,
{
    if n > 0 {
        lemma_torus_strip_count(cx, cy, cz, r1, r2, steps, i, (n - 1) as nat);
    }
}

/// The point count of a torus. The first `m` strips of a torus of `steps`
/// steps hold `6 * m * steps` points, the whole torus `6 * steps * steps`:
/// two triangles for every cell.
pub proof fn lemma_torus_count(
    cx: Fixed,
    cy: Fixed,
    cz: Fixed,
    r1: Fixed,
    r2: Fixed,
    steps: int,
    m: nat,
)
    requires
        steps >= 0,
    ensures
        torus_mesh(cx, cy, cz, r1, r2, steps, m).len() == 6 * m * steps,
    decreases m,
{
    if m > 0 {
        lemma_torus_count(cx, cy, cz, r1, r2, steps, (m - 1) as nat);
        lemma_torus_strip_count(cx, cy, cz, r1, r2, steps, m - 1, steps as nat);
        assert(6 * (m - 1) * steps + 6 * steps == 6 * m * steps) by (nonlinear_arith);
    } else {
        assert(6 * m * steps == 0) by (nonlinear_arith)
            requires
                m == 0,
        ;
    }
}

/// Appending in two steps is appending what the two steps append.
proof fn lemma_append_twice(a: Seq<Point>, b: Seq<Point>, c: Seq<Point>)
    ensures
        (a + b) + c == a + (b + c),
        a + Seq::<Point>::empty() == a,
{
    assert((a + b) + c =~= a + (b + c));
    assert(a + Seq::<Point>::empty() =~= a);
}

/// The point of a sphere on longitude `i` and latitude `j`.
fn sphere_corner(cx: Fixed, cy: Fixed, cz: Fixed, r: Fixed, steps: u16, i: u16, j: u16) -> (p: Point)
    requires
        steps >= 1,
    ensures
        p == sphere_point(cx, cy, cz, r, steps as int, i as int, j as int),
{
    let (along_sin, along_cos) = sin_cos(j as i64, 2 * (steps as i64));
    let (turn_sin, turn_cos) = sin_cos(i as i64, steps as i64);
    let out = r.times(along_sin);
    Point {
        x: cx.plus(r.times(along_cos)),
        y: cy.plus(out.times(turn_cos)),
        z: cz.plus(out.times(turn_sin)),
    }
}

/// The point of a torus on cross section `i` and ring `j`.
fn torus_corner(
    cx: Fixed,
    cy: Fixed,
    cz: Fixed,
    r1: Fixed,
    r2: Fixed,
    steps: u16,
    i: u16,
    j: u16,
) -> (p: Point)
    requires
        steps >= 1,
    ensures
        p == torus_point(cx, cy, cz, r1, r2, steps as int, i as int, j as int),
{
    let (tube_sin, tube_cos) = sin_cos(j as i64, steps as i64);
    let (turn_sin, turn_cos) = sin_cos(i as i64, steps as i64);
    let reach = r1.times(tube_cos).plus(r2);
    Point {
        x: cx.plus(turn_cos.times(reach)),
        y: cy.plus(r1.times(tube_sin)),
        z: cz.minus(turn_sin.times(reach)),
    }
}

impl PointStore {
    /// Appends the four-sided face with corners `a`, `b`, `c`, `d` as two
    /// triangles.
    pub fn add_face(&mut self, a: Point, b: Point, c: Point, d: Point)
        ensures
            final(self)@ == old(self)@ + face(a, b, c, d),
    {
        self.add_triangle(a, b, c);
        self.add_triangle(a, c, d);
        assert(self@ =~= old(self)@ + face(a, b, c, d));
    }

    /// Appends the triangles of one cell of a sphere.
    fn add_sphere_cell(&mut self, cx: Fixed, cy: Fixed, cz: Fixed, r: Fixed, steps: u16, i: u16, j: u16)
        requires
            i < steps,
            j < steps,
        ensures
            final(self)@ == old(self)@ + sphere_cell(cx, cy, cz, r, steps as int, i as int, j as int),
    {
        let a = sphere_corner(cx, cy, cz, r, steps, i, j);
        let b = sphere_corner(cx, cy, cz, r, steps, i, j + 1);
        let c = sphere_corner(cx, cy, cz, r, steps, i + 1, j + 1);
        let d = sphere_corner(cx, cy, cz, r, steps, i + 1, j);
        if j + 1 < steps {
            self.add_triangle(a, b, c);
        }
        if j > 0 {
            self.add_triangle(a, c, d);
        }
        assert(self@ =~= old(self)@ + sphere_cell(
            cx,
            cy,
            cz,
            r,
            steps as int,
            i as int,
            j as int,
        ));
    }

    /// Appends the triangles of one cell of a torus.
    fn add_torus_cell(
        &mut self,
        cx: Fixed,
        cy: Fixed,
        cz: Fixed,
        r1: Fixed,
        r2: Fixed,
        steps: u16,
        i: u16,
        j: u16,
    )
        requires
            i < steps,
            j < steps,
        ensures
            final(self)@ == old(self)@ + torus_cell(
                cx,
                cy,
                cz,
                r1,
                r2,
                steps as int,
                i as int,
                j as int,
            ),
    {
        let a = torus_corner(cx, cy, cz, r1, r2, steps, i, j);
        let b = torus_corner(cx, cy, cz, r1, r2, steps, i + 1, j);
        let c = torus_corner(cx, cy, cz, r1, r2, steps, i + 1, j + 1);
        let d = torus_corner(cx, cy, cz, r1, r2, steps, i, j + 1);
        self.add_face(a, b, c, d);
    }

    /// Appends the triangles of one strip of a sphere.
    fn add_sphere_strip(&mut self, cx: Fixed, cy: Fixed, cz: Fixed, r: Fixed, steps: u16, i: u16)
        requires
            i < steps,
        ensures
            final(self)@ == old(self)@ + sphere_strip(
                cx,
                cy,
                cz,
                r,
                steps as int,
                i as int,
                steps as nat,
            ),
    {
        let ghost n = steps as int;
        let mut j: u16 = 0;
        proof {
            lemma_append_twice(old(self)@, Seq::empty(), Seq::empty());
        }
        while j < steps
            invariant
                i < steps,
                j <= steps,
                n == steps,
                self@ == old(self)@ + sphere_strip(cx, cy, cz, r, n, i as int, j as nat),
            decreases steps - j,
        {
            self.add_sphere_cell(cx, cy, cz, r, steps, i, j);
            proof {
                lemma_append_twice(
                    old(self)@,
                    sphere_strip(cx, cy, cz, r, n, i as int, j as nat),
                    sphere_cell(cx, cy, cz, r, n, i as int, j as int),
                );
            }
            j += 1;
        }
    }

    /// Appends the triangles of one strip of a torus.
    fn add_torus_strip(
        &mut self,
        cx: Fixed,
        cy: Fixed,
        cz: Fixed,
        r1: Fixed,
        r2: Fixed,
        steps: u16,
        i: u16,
    )
        requires
            i < steps,
        ensures
            final(self)@ == old(self)@ + torus_strip(
                cx,
                cy,
                cz,
                r1,
                r2,
                steps as int,
                i as int,
                steps as nat,
            ),
    {
        let ghost n = steps as int;
        let mut j: u16 = 0;
        proof {
            lemma_append_twice(old(self)@, Seq::empty(), Seq::empty());
        }
        while j < steps
            invariant
                i < steps,
                j <= steps,
                n == steps,
                self@ == old(self)@ + torus_strip(cx, cy, cz, r1, r2, n, i as int, j as nat),
            decreases steps - j,
        {
            self.add_torus_cell(cx, cy, cz, r1, r2, steps, i, j);
            proof {
                lemma_append_twice(
                    old(self)@,
                    torus_strip(cx, cy, cz, r1, r2, n, i as int, j as nat),
                    torus_cell(cx, cy, cz, r1, r2, n, i as int, j as int),
                );
            }
            j += 1;
        }
    }

    /// Appends the box whose upper left front corner is `(x, y, z)`, of
    /// width `w`, height `h` and depth `d`: twelve triangles, thirty-six
    /// points, whatever the position and the size.
    pub fn add_box(&mut self, x: Fixed, y: Fixed, z: Fixed, w: Fixed, h: Fixed, d: Fixed)
        ensures
            final(self)@ == old(self)@ + box_triangles(x, y, z, w, h, d),
            final(self)@.len() == old(self)@.len() + 36,
    {
        let x1 = x.plus(w);
        let y1 = y.minus(h);
        let z1 = z.minus(d);
        let left_top_front = Point { x: x, y: y, z: z };
        let left_low_front = Point { x: x, y: y1, z: z };
        let right_low_front = Point { x: x1, y: y1, z: z };
        let right_top_front = Point { x: x1, y: y, z: z };
        let left_top_back = Point { x: x, y: y, z: z1 };
        let left_low_back = Point { x: x, y: y1, z: z1 };
        let right_low_back = Point { x: x1, y: y1, z: z1 };
        let right_top_back = Point { x: x1, y: y, z: z1 };
        self.add_face(left_top_front, left_low_front, right_low_front, right_top_front);
        self.add_face(right_top_back, right_low_back, left_low_back, left_top_back);
        self.add_face(right_top_front, right_low_front, right_low_back, right_top_back);
        self.add_face(left_top_back, left_low_back, left_low_front, left_top_front);
        self.add_face(left_top_back, left_top_front, right_top_front, right_top_back);
        self.add_face(left_low_front, left_low_back, right_low_back, right_low_front);
        proof {
            lemma_box_is_six_faces(x, y, z, w, h, d);
            let front = face(left_top_front, left_low_front, right_low_front, right_top_front);
            let back = face(right_top_back, right_low_back, left_low_back, left_top_back);
            let right = face(right_top_front, right_low_front, right_low_back, right_top_back);
            let left = face(left_top_back, left_low_back, left_low_front, left_top_front);
            let top = face(left_top_back, left_top_front, right_top_front, right_top_back);
            let bottom = face(left_low_front, left_low_back, right_low_back, right_low_front);
            assert(self@ =~= old(self)@ + (front + back + right + left + top + bottom));
        }
    }

    /// Appends the sphere about `(cx, cy, cz)` with radius `r`, cut by
    /// `steps` circles of longitude and of latitude:
    /// `2 * steps * (steps - 1)` triangles. With `steps == 0` nothing is
    /// appended.
    pub fn add_sphere(&mut self, cx: Fixed, cy: Fixed, cz: Fixed, r: Fixed, steps: u16)
        ensures
            final(self)@ == old(self)@ + sphere_mesh(cx, cy, cz, r, steps as int, steps as nat),
            steps >= 1 ==> final(self)@.len() == old(self)@.len() + 6 * steps * (steps - 1),
            steps == 0 ==> final(self)@ == old(self)@,
    {
        let ghost n = steps as int;
        let mut i: u16 = 0;
        proof {
            lemma_append_twice(old(self)@, Seq::empty(), Seq::empty());
        }
        while i < steps
            invariant
                i <= steps,
                n == steps,
                self@ == old(self)@ + sphere_mesh(cx, cy, cz, r, n, i as nat),
            decreases steps - i,
        {
            self.add_sphere_strip(cx, cy, cz, r, steps, i);
            proof {
                lemma_append_twice(
                    old(self)@,
                    sphere_mesh(cx, cy, cz, r, n, i as nat),
                    sphere_strip(cx, cy, cz, r, n, i as int, steps as nat),
                );
            }
            i += 1;
        }
        proof {
            if steps >= 1 {
                lemma_sphere_count(cx, cy, cz, r, n, steps as nat);
            }
        }
    }

    /// Appends the torus about `(cx, cy, cz)` whose tube has radius `r1`
    /// and whose centre line has radius `r2`, cut by `steps` cross sections
    /// and `steps` rings: `2 * steps * steps` triangles. With `steps == 0`
    /// nothing is appended.
    pub fn add_torus(&mut self, cx: Fixed, cy: Fixed, cz: Fixed, r1: Fixed, r2: Fixed, steps: u16)
        ensures
            final(self)@ == old(self)@ + torus_mesh(
                cx,
                cy,
                cz,
                r1,
                r2,
                steps as int,
                steps as nat,
            ),
            final(self)@.len() == old(self)@.len() + 6 * steps * steps,
    {
        let ghost n = steps as int;
        let mut i: u16 = 0;
        proof {
            lemma_append_twice(old(self)@, Seq::empty(), Seq::empty());
        }
        while i < steps
            invariant
                i <= steps,
                n == steps,
                self@ == old(self)@ + torus_mesh(cx, cy, cz, r1, r2, n, i as nat),
            decreases steps - i,
        {
            self.add_torus_strip(cx, cy, cz, r1, r2, steps, i);
            proof {
                lemma_append_twice(
                    old(self)@,
                    torus_mesh(cx, cy, cz, r1, r2, n, i as nat),
                    torus_strip(cx, cy, cz, r1, r2, n, i as int, steps as nat),
                );
            }
            i += 1;
        }
        proof {
            lemma_torus_count(cx, cy, cz, r1, r2, n, steps as nat);
        }
    }
}

} // verus!
