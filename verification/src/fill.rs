//! Filled triangles on the pixel grid.
//!
//! A triangle of a polygon list is painted only if it faces the viewer, who
//! looks down the z axis from its positive end: its corners, projected onto
//! the picture plane, must run counter-clockwise. The corners are then
//! rounded to pixels and the triangle is filled one row at a time. In a row
//! the filled run lies between the triangle's long edge, from its bottom
//! corner to its top corner, and the short edge that the row crosses; both
//! ends are found by interpolating along the edge with the rounding that
//! line segments use. A triangle whose rounded corners all lie in one row or
//! in one column paints nothing.

use crate::arith::div_round;
use crate::canvas::painted;
use crate::canvas::Canvas;
use crate::canvas::Color;
use crate::line::along;
use crate::line::lemma_along_ends;
use crate::line::lemma_along_between;
use crate::line::pixel_of;
use crate::point::Point;
use crate::point::PointStore;
use vstd::prelude::*;

verus! {

/// Twice the signed area of the triangle `a`, `b`, `c` projected onto the
/// picture plane, in raw units: the z component of the normal
/// `(b - a) x (c - a)`. It is positive exactly when the corners run
/// counter-clockwise for the viewer.
pub open spec fn doubled_area(a: Point, b: Point, c: Point) -> int {
    (b.x@ - a.x@) * (c.y@ - a.y@) - (b.y@ - a.y@) * (c.x@ - a.x@)
}

/// Whether the triangle faces the viewer.
pub open spec fn faces_viewer(a: Point, b: Point, c: Point) -> bool {
    doubled_area(a, b, c) > 0
}

/// The corners of a triangle on the pixel grid from the bottom one `b` over
/// the middle one `m` to the top one `t`.
pub struct Corners {
    pub bx: int,
    pub by: int,
    pub mx: int,
    pub my: int,
    pub tx: int,
    pub ty: int,
}

/// The three corners ordered by `y`.
pub open spec fn ordered(ax: int, ay: int, bx: int, by: int, cx: int, cy: int) -> Corners {
    if ay <= by {
        if by <= cy {
            Corners { bx: ax, by: ay, mx: bx, my: by, tx: cx, ty: cy }
        } else if ay <= cy {
            Corners { bx: ax, by: ay, mx: cx, my: cy, tx: bx, ty: by }
        } else {
            Corners { bx: cx, by: cy, mx: ax, my: ay, tx: bx, ty: by }
        }
    } else {
        if ay <= cy {
            Corners { bx: bx, by: by, mx: ax, my: ay, tx: cx, ty: cy }
        } else if by <= cy {
            Corners { bx: bx, by: by, mx: cx, my: cy, tx: ax, ty: ay }
        } else {
            Corners { bx: cx, by: cy, mx: bx, my: by, tx: ax, ty: ay }
        }
    }
}

/// Where row `y` meets the long edge, from the bottom corner to the top one.
/// Meant for a triangle with `by < ty`.
pub open spec fn long_edge_at(k: Corners, y: int) -> int {
    along(k.by, k.bx, k.ty, k.tx, y)
}

/// Where row `y` meets the short edges: the lower one below the middle
/// corner, the upper one from the middle corner on.
pub open spec fn short_edge_at(k: Corners, y: int) -> int {
    if y < k.my {
        along(k.by, k.bx, k.my, k.mx, y)
    } else if k.my < k.ty {
        along(k.my, k.mx, k.ty, k.tx, y)
    } else {
        k.mx
    }
}

/// Whether row `y` of the triangle with ordered corners `k` covers pixel
/// `(x, y)`: the row lies between the bottom and the top corner, and the
/// pixel between the two edges that the row meets.
pub open spec fn covers(k: Corners, x: int, y: int) -> bool {
    let p = long_edge_at(k, y);
    let q = short_edge_at(k, y);
    k.by <= y <= k.ty && (p <= x <= q || q <= x <= p)
}

/// Whether the filled triangle with the given corners covers pixel
/// `(x, y)`.
pub open spec fn in_triangle(
    ax: int,
    ay: int,
    bx: int,
    by: int,
    cx: int,
    cy: int,
    x: int,
    y: int,
) -> bool {
    let k = ordered(ax, ay, bx, by, cx, cy);
    k.by < k.ty && !(ax == bx && bx == cx) && covers(k, x, y)
}

/// The pixels that the filled triangle covers.
pub open spec fn triangle_pixels(ax: int, ay: int, bx: int, by: int, cx: int, cy: int) -> Set<
    (int, int),
> {
    Set::new(|p: (int, int)| in_triangle(ax, ay, bx, by, cx, cy, p.0, p.1))
}

/// The pixels of triangle `i` of a polygon list: none if it faces away.
pub open spec fn polygon_pixels(s: Seq<Point>, i: int) -> Set<(int, int)> {
    if faces_viewer(s[3 * i], s[3 * i + 1], s[3 * i + 2]) {
        triangle_pixels(
            pixel_of(s[3 * i]).0,
            pixel_of(s[3 * i]).1,
            pixel_of(s[3 * i + 1]).0,
            pixel_of(s[3 * i + 1]).1,
            pixel_of(s[3 * i + 2]).0,
            pixel_of(s[3 * i + 2]).1,
        )
    } else {
        Set::empty()
    }
}

/// The pixels of the first `n` triangles of a polygon list.
pub open spec fn polygons_pixels(s: Seq<Point>, n: int) -> Set<(int, int)> {
    Set::new(
        |p: (int, int)| exists|i: int| 0 <= i < n && #[trigger] polygon_pixels(s, i).contains(p),
    )
}

/// The pixels of row `y` from `x0` to `x1`, both included.
pub open spec fn run_pixels(y: int, x0: int, x1: int) -> Set<(int, int)> {
    Set::new(|p: (int, int)| p.1 == y && x0 <= p.0 <= x1)
}

/// The pixels of the rows of the triangle with ordered corners `k` from row
/// `from` up to, not including, row `upto`.
pub open spec fn rows_pixels(k: Corners, from: int, upto: int) -> Set<(int, int)> {
    Set::new(|p: (int, int)| from <= p.1 < upto && covers(k, p.0, p.1))
}

/// The pixels of row `y` of the triangle with ordered corners `k`.
pub open spec fn row_pixels(k: Corners, y: int) -> Set<(int, int)> {
    let p = long_edge_at(k, y);
    let q = short_edge_at(k, y);
    if p <= q {
        run_pixels(y, p, q)
    } else {
        run_pixels(y, q, p)
    }
}

/// Painting one more row of a triangle over the rows below it gives the
/// rows up to and including that one.
proof fn lemma_one_more_row(m: Map<(int, int), Color>, k: Corners, from: int, y: int, c: Color)
    requires
        k.by <= from <= y <= k.ty,
    ensures
        painted(painted(m, rows_pixels(k, from, y), c), row_pixels(k, y), c) == painted(
            m,
            rows_pixels(k, from, y + 1),
            c,
        ),
{
    assert(painted(painted(m, rows_pixels(k, from, y), c), row_pixels(k, y), c) =~= painted(
        m,
        rows_pixels(k, from, y + 1),
        c,
    ));
}

/// The rows of a triangle that lie on a canvas are, for the picture, the
/// whole triangle.
proof fn lemma_rows_inside(
    m: Map<(int, int), Color>,
    width: int,
    height: int,
    k: Corners,
    from: int,
    upto: int,
    c: Color,
)
    requires
        forall|p: (int, int)| #[trigger] m.dom().contains(p) ==> 0 <= p.1 < height,
        from <= k.by || from <= 0,
        upto > k.ty || upto >= height,
    ensures
        painted(m, rows_pixels(k, from, upto), c) == painted(
            m,
            Set::new(|p: (int, int)| covers(k, p.0, p.1)),
            c,
        ),
{
    assert(painted(m, rows_pixels(k, from, upto), c) =~= painted(
        m,
        Set::new(|p: (int, int)| covers(k, p.0, p.1)),
        c,
    ));
}

/// Rows through a corner shared by two orders of the corners meet the same
/// pair of edges in both.
proof fn lemma_same_run(k: Corners, l: Corners, y: int)
    requires
        k.by < k.ty,
        k.by <= k.my <= k.ty,
        l.by <= l.my <= l.ty,
        k.by <= y <= k.ty,
        k.by == l.by,
        k.ty == l.ty,
        k.my == l.my,
        ({
            ||| k == l
            ||| (k.by == k.my && l.bx == k.mx && l.mx == k.bx && l.tx == k.tx)
            ||| (k.my == k.ty && l.bx == k.bx && l.mx == k.tx && l.tx == k.mx)
            ||| (k.by == k.my && k.my == k.ty)
        }),
    ensures
        (long_edge_at(k, y) == long_edge_at(l, y) && short_edge_at(k, y) == short_edge_at(l, y))
            || (long_edge_at(k, y) == short_edge_at(l, y) && short_edge_at(k, y) == long_edge_at(
            l,
            y,
        )),
{
    lemma_along_ends(k.by, k.bx, k.ty, k.tx);
    lemma_along_ends(l.by, l.bx, l.ty, l.tx);
}

/// A triangle is filled the same whatever the order of its corners.
pub proof fn lemma_fill_ignores_corner_order(ax: int, ay: int, bx: int, by: int, cx: int, cy: int)
    ensures
        triangle_pixels(ax, ay, bx, by, cx, cy) == triangle_pixels(bx, by, ax, ay, cx, cy),
        triangle_pixels(ax, ay, bx, by, cx, cy) == triangle_pixels(ax, ay, cx, cy, bx, by),
{
    let k = ordered(ax, ay, bx, by, cx, cy);
    let l = ordered(bx, by, ax, ay, cx, cy);
    let m = ordered(ax, ay, cx, cy, bx, by);
    assert forall|p: (int, int)|
        in_triangle(ax, ay, bx, by, cx, cy, p.0, p.1) == in_triangle(
            bx,
            by,
            ax,
            ay,
            cx,
            cy,
            p.0,
            p.1,
        ) by {
        if k.by < k.ty && k.by <= p.1 <= k.ty {
            lemma_same_run(k, l, p.1);
        }
    }
    assert forall|p: (int, int)|
        in_triangle(ax, ay, bx, by, cx, cy, p.0, p.1) == in_triangle(
            ax,
            ay,
            cx,
            cy,
            bx,
            by,
            p.0,
            p.1,
        ) by {
        if k.by < k.ty && k.by <= p.1 <= k.ty {
            lemma_same_run(k, m, p.1);
        }
    }
    assert(triangle_pixels(ax, ay, bx, by, cx, cy) =~= triangle_pixels(bx, by, ax, ay, cx, cy));
    assert(triangle_pixels(ax, ay, bx, by, cx, cy) =~= triangle_pixels(ax, ay, cx, cy, bx, by));
}

/// A filled triangle stays inside the box around its corners.
pub proof fn lemma_fill_stays_inside(
    ax: int,
    ay: int,
    bx: int,
    by: int,
    cx: int,
    cy: int,
    x: int,
    y: int,
)
    requires
        in_triangle(ax, ay, bx, by, cx, cy, x, y),
    ensures
        ax <= x || bx <= x || cx <= x,
        x <= ax || x <= bx || x <= cx,
        ay <= y || by <= y || cy <= y,
        y <= ay || y <= by || y <= cy,
{
    let k = ordered(ax, ay, bx, by, cx, cy);
    lemma_along_between(k.by, k.bx, k.ty, k.tx, y);
    if y < k.my {
        lemma_along_between(k.by, k.bx, k.my, k.mx, y);
    } else if k.my < k.ty {
        lemma_along_between(k.my, k.mx, k.ty, k.tx, y);
    }
}

/// A filled triangle that has height and width covers its three corners.
pub proof fn lemma_fill_holds_its_corners(ax: int, ay: int, bx: int, by: int, cx: int, cy: int)
    requires
        !(ay == by && by == cy),
        !(ax == bx && bx == cx),
    ensures
        in_triangle(ax, ay, bx, by, cx, cy, ax, ay),
        in_triangle(ax, ay, bx, by, cx, cy, bx, by),
        in_triangle(ax, ay, bx, by, cx, cy, cx, cy),
{
    let k = ordered(ax, ay, bx, by, cx, cy);
    lemma_along_ends(k.by, k.bx, k.ty, k.tx);
    if k.by < k.my {
        lemma_along_ends(k.by, k.bx, k.my, k.mx);
    }
    if k.my < k.ty {
        lemma_along_ends(k.my, k.mx, k.ty, k.tx);
    }
}

/// Whether the triangle `a`, `b`, `c` faces the viewer.
pub fn is_front_facing(a: Point, b: Point, c: Point) -> (r: bool)
    ensures
        r == faces_viewer(a, b, c),
{
    let ux: i64 = b.x.raw as i64 - a.x.raw as i64;
    let uy: i64 = b.y.raw as i64 - a.y.raw as i64;
    let vx: i64 = c.x.raw as i64 - a.x.raw as i64;
    let vy: i64 = c.y.raw as i64 - a.y.raw as i64;
    assert(-0x1_0000_0000_0000_0000 <= ux * vy <= 0x1_0000_0000_0000_0000) by (nonlinear_arith)
        requires
            -0x1_0000_0000 <= ux <= 0x1_0000_0000,
            -0x1_0000_0000 <= vy <= 0x1_0000_0000,
    ;
    assert(-0x1_0000_0000_0000_0000 <= uy * vx <= 0x1_0000_0000_0000_0000) by (nonlinear_arith)
        requires
            -0x1_0000_0000 <= uy <= 0x1_0000_0000,
            -0x1_0000_0000 <= vx <= 0x1_0000_0000,
    ;
    (ux as i128) * (vy as i128) - (uy as i128) * (vx as i128) > 0
}

/// The minor coordinate at major coordinate `m` of the segment from
/// `(ma, na)` to `(mb, nb)`.
fn interpolate(ma: i32, na: i32, mb: i32, nb: i32, m: i32) -> (r: i32)
    requires
        ma < mb,
        ma <= m <= mb,
    ensures
        r == along(ma as int, na as int, mb as int, nb as int, m as int),
{
    let k: i64 = m as i64 - ma as i64;
    let dn: i64 = nb as i64 - na as i64;
    let dm: i64 = mb as i64 - ma as i64;
    assert(-0x1_0000_0000_0000_0000 <= k * dn <= 0x1_0000_0000_0000_0000) by (nonlinear_arith)
        requires
            0 <= k <= 0x1_0000_0000,
            -0x1_0000_0000 <= dn <= 0x1_0000_0000,
    ;
    proof {
        lemma_along_between(ma as int, na as int, mb as int, nb as int, m as int);
    }
    let offset: i128 = div_round((k as i128) * (dn as i128), dm as i128);
    (na as i128 + offset) as i32
}

/// Paints row `y` from `x0` to `x1`, both included, as far as it lies inside
/// the grid.
fn paint_run(canvas: &mut Canvas, y: i32, x0: i32, x1: i32, c: Color)
    ensures
        final(canvas).spec_width() == old(canvas).spec_width(),
        final(canvas).spec_height() == old(canvas).spec_height(),
        final(canvas).spec_background() == old(canvas).spec_background(),
        final(canvas)@ == painted(old(canvas)@, run_pixels(y as int, x0 as int, x1 as int), c),
{
    let width: usize = canvas.width();
    proof {
        canvas.lemma_domain();
    }
    if x1 < 0 || x0 > x1 || width == 0 {
        assert(canvas@ =~= painted(old(canvas)@, run_pixels(y as int, x0 as int, x1 as int), c));
        return ;
    }
    let first: i32 = if x0 < 0 {
        0
    } else {
        x0
    };
    let last: i32 = if (x1 as usize) < width {
        x1
    } else {
        (width - 1) as i32
    };
    let mut x: i64 = first as i64;
    assert(canvas@ =~= painted(old(canvas)@, run_pixels(y as int, first as int, x - 1), c));
    while x <= last as i64
        invariant
            first <= x <= last + 1 || (x == first && first > last),
            canvas.spec_width() == old(canvas).spec_width(),
            canvas.spec_height() == old(canvas).spec_height(),
            canvas.spec_background() == old(canvas).spec_background(),
            canvas@ == painted(old(canvas)@, run_pixels(y as int, first as int, x - 1), c),
        decreases last + 1 - x,
    {
        canvas.plot(x as i32, y, c);
        assert(canvas@ =~= painted(old(canvas)@, run_pixels(y as int, first as int, x as int), c));
        x = x + 1;
    }
    proof {
        old(canvas).lemma_domain();
        assert(canvas@ =~= painted(old(canvas)@, run_pixels(y as int, x0 as int, x1 as int), c));
    }
}

/// The ordered corners with the given coordinates.
pub open spec fn corners(bx: i32, by: i32, mx: i32, my: i32, tx: i32, ty: i32) -> Corners {
    Corners {
        bx: bx as int,
        by: by as int,
        mx: mx as int,
        my: my as int,
        tx: tx as int,
        ty: ty as int,
    }
}

/// Paints row `row` of the triangle with the given ordered corners.
fn paint_row(
    canvas: &mut Canvas,
    bx: i32,
    by: i32,
    mx: i32,
    my: i32,
    tx: i32,
    ty: i32,
    row: i32,
    c: Color,
)
    requires
        by < ty,
        by <= my <= ty,
        by <= row <= ty,
    ensures
        final(canvas).spec_width() == old(canvas).spec_width(),
        final(canvas).spec_height() == old(canvas).spec_height(),
        final(canvas).spec_background() == old(canvas).spec_background(),
        final(canvas)@ == painted(
            old(canvas)@,
            row_pixels(corners(bx, by, mx, my, tx, ty), row as int),
            c,
        ),
{
    let p: i32 = interpolate(by, bx, ty, tx, row);
    let q: i32 = if row < my {
        interpolate(by, bx, my, mx, row)
    } else if my < ty {
        interpolate(my, mx, ty, tx, row)
    } else {
        mx
    };
    if p <= q {
        paint_run(canvas, row, p, q, c);
    } else {
        paint_run(canvas, row, q, p, c);
    }
}

impl Canvas {
    /// Fills the triangle with corners at the pixels `(ax, ay)`, `(bx, by)`
    /// and `(cx, cy)`. What lies outside the grid is left out pixel by
    /// pixel; a triangle without height or without width paints nothing.
    pub fn fill_triangle(
        &mut self,
        ax: i32,
        ay: i32,
        bx: i32,
        by: i32,
        cx: i32,
        cy: i32,
        c: Color,
    )
        ensures
            final(self).spec_width() == old(self).spec_width(),
            final(self).spec_height() == old(self).spec_height(),
            final(self).spec_background() == old(self).spec_background(),
            final(self)@ == painted(
                old(self)@,
                triangle_pixels(
                    ax as int,
                    ay as int,
                    bx as int,
                    by as int,
                    cx as int,
                    cy as int,
                ),
                c,
            ),
    {
        let ghost goal = triangle_pixels(
            ax as int,
            ay as int,
            bx as int,
            by as int,
            cx as int,
            cy as int,
        );
        let ghost k = ordered(ax as int, ay as int, bx as int, by as int, cx as int, cy as int);
        let (lx, ly, mx, my, tx, ty): (i32, i32, i32, i32, i32, i32) = if ay <= by {
            if by <= cy {
                (ax, ay, bx, by, cx, cy)
            } else if ay <= cy {
                (ax, ay, cx, cy, bx, by)
            } else {
                (cx, cy, ax, ay, bx, by)
            }
        } else {
            if ay <= cy {
                (bx, by, ax, ay, cx, cy)
            } else if by <= cy {
                (bx, by, cx, cy, ax, ay)
            } else {
                (cx, cy, bx, by, ax, ay)
            }
        };
        assert(k == corners(lx, ly, mx, my, tx, ty));
        let height: usize = self.height();
        proof {
            self.lemma_domain();
        }
        if ly >= ty || (ax == bx && bx == cx) || ty < 0 || height == 0 {
            assert(self@ =~= painted(old(self)@, goal, c));
            return ;
        }
        let first: i32 = if ly < 0 {
            0
        } else {
            ly
        };
        let last: i32 = if (ty as usize) < height {
            ty
        } else {
            (height - 1) as i32
        };
        let mut y: i64 = first as i64;
        assert(self@ =~= painted(old(self)@, rows_pixels(k, first as int, first as int), c));
        while y <= last as i64
            invariant
                ly < ty,
                ly <= my <= ty,
                ly <= first,
                last <= ty,
                k == corners(lx, ly, mx, my, tx, ty),
                first <= y <= last + 1 || (y == first && first > last),
                self.spec_width() == old(self).spec_width(),
                self.spec_height() == old(self).spec_height(),
                self.spec_background() == old(self).spec_background(),
                self@ == painted(old(self)@, rows_pixels(k, first as int, y as int), c),
            decreases last + 1 - y,
        {
            paint_row(self, lx, ly, mx, my, tx, ty, y as i32, c);
            proof {
                lemma_one_more_row(old(self)@, k, first as int, y as int, c);
            }
            y = y + 1;
        }
        proof {
            lemma_rows_inside(
                old(self)@,
                old(self).spec_width(),
                old(self).spec_height(),
                k,
                first as int,
                y as int,
                c,
            );
            assert(goal =~= Set::new(|p: (int, int)| covers(k, p.0, p.1)));
        }
    }

    /// Paints every triangle of the polygon list `polygons` that faces the
    /// viewer: points `3i`, `3i + 1` and `3i + 2` are the corners of one
    /// triangle. An empty list leaves the canvas as it is.
    pub fn draw_polygons(&mut self, polygons: &PointStore, c: Color)
        requires
            polygons@.len() % 3 == 0,
        ensures
            final(self).spec_width() == old(self).spec_width(),
            final(self).spec_height() == old(self).spec_height(),
            final(self).spec_background() == old(self).spec_background(),
            final(self)@ == painted(
                old(self)@,
                polygons_pixels(polygons@, polygons@.len() as int / 3),
                c,
            ),
            polygons@.len() == 0 ==> final(self)@ == old(self)@,
    {
        let total: usize = polygons.len();
        let count: usize = total / 3;
        let mut i: usize = 0;
        assert(self@ =~= painted(old(self)@, polygons_pixels(polygons@, 0), c));
        while i < count
            invariant
                i <= count,
                total == polygons@.len(),
                count == polygons@.len() as int / 3,
                polygons@.len() % 3 == 0,
                self.spec_width() == old(self).spec_width(),
                self.spec_height() == old(self).spec_height(),
                self.spec_background() == old(self).spec_background(),
                self@ == painted(old(self)@, polygons_pixels(polygons@, i as int), c),
            decreases count - i,
        {
            let p = polygons.get(3 * i);
            let q = polygons.get(3 * i + 1);
            let r = polygons.get(3 * i + 2);
            let ghost before = self@;
            if is_front_facing(p, q, r) {
                self.fill_triangle(
                    p.x.round(),
                    p.y.round(),
                    q.x.round(),
                    q.y.round(),
                    r.x.round(),
                    r.y.round(),
                    c,
                );
            }
            proof {
                let one = polygon_pixels(polygons@, i as int);
                assert(self@ =~= painted(before, one, c));
                assert forall|t: (int, int)|
                    polygons_pixels(polygons@, i + 1).contains(t) <==> (polygons_pixels(
                        polygons@,
                        i as int,
                    ).contains(t) || one.contains(t)) by {
                    if polygons_pixels(polygons@, i + 1).contains(t) {
                        let j = choose|j: int|
                            0 <= j < i + 1 && #[trigger] polygon_pixels(polygons@, j).contains(t);
                        if j < i {
                            assert(polygons_pixels(polygons@, i as int).contains(t));
                        }
                    }
                    if one.contains(t) {
                        assert(polygon_pixels(polygons@, i as int).contains(t));
                    }
                }
                assert(self@ =~= painted(old(self)@, polygons_pixels(polygons@, i + 1), c));
            }
            i += 1;
        }
        proof {
            if polygons@.len() == 0 {
                assert(self@ =~= old(self)@);
            }
        }
    }
}

} // verus!
