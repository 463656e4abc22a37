//! Line segments on the pixel grid.
//!
//! A segment is walked along its major axis, the one on which its ends lie
//! further apart, from the end with the smaller coordinate to the other, one
//! pixel for every step. On the minor axis the pixel is the one nearest to
//! the ideal line, a tie going towards the greater coordinate. The walk
//! keeps an integer error term and never divides.

use crate::arith::abs;
use crate::arith::lemma_div_bounds;
use crate::arith::lemma_div_unique;
use crate::arith::lemma_round_div_multiple;
use crate::arith::lemma_round_div_between;
use crate::arith::round_div;
use crate::canvas::painted;
use crate::canvas::Canvas;
use crate::canvas::Color;
use crate::fixed::nearest_int;
use crate::point::Point;
use crate::point::PointStore;
use vstd::prelude::*;
use vstd::relations::injective_on;
use vstd::set_lib::lemma_int_range;
use vstd::set_lib::lemma_map_size;
use vstd::set_lib::set_int_range;

verus! {

/// The minor coordinate at major coordinate `m` of the segment from
/// `(ma, na)` to `(mb, nb)`, where `ma < mb`.
pub open spec fn along(ma: int, na: int, mb: int, nb: int, m: int) -> int {
    na + round_div((m - ma) * (nb - na), mb - ma)
}

/// Whether the segment from `(x0, y0)` to `(x1, y1)` covers pixel `(x, y)`.
pub open spec fn on_segment(x0: int, y0: int, x1: int, y1: int, x: int, y: int) -> bool {
    let dx = x1 - x0;
    let dy = y1 - y0;
    if abs(dx) >= abs(dy) {
        if dx == 0 {
            x == x0 && y == y0
        } else if dx > 0 {
            x0 <= x <= x1 && y == along(x0, y0, x1, y1, x)
        } else {
            x1 <= x <= x0 && y == along(x1, y1, x0, y0, x)
        }
    } else {
        if dy > 0 {
            y0 <= y <= y1 && x == along(y0, x0, y1, x1, y)
        } else {
            y1 <= y <= y0 && x == along(y1, x1, y0, x0, y)
        }
    }
}

/// The pixels that the segment from `(x0, y0)` to `(x1, y1)` covers.
pub open spec fn segment_pixels(x0: int, y0: int, x1: int, y1: int) -> Set<(int, int)> {
    Set::new(|p: (int, int)| on_segment(x0, y0, x1, y1, p.0, p.1))
}

/// The pixel that a point falls on: its `x` and `y` rounded to nearest.
pub open spec fn pixel_of(p: Point) -> (int, int) {
    (nearest_int(p.x@), nearest_int(p.y@))
}

/// The pixels of edge `i` of an edge list.
pub open spec fn edge_pixels(s: Seq<Point>, i: int) -> Set<(int, int)> {
    segment_pixels(
        pixel_of(s[2 * i]).0,
        pixel_of(s[2 * i]).1,
        pixel_of(s[2 * i + 1]).0,
        pixel_of(s[2 * i + 1]).1,
    )
}

/// The pixels of the first `n` edges of an edge list.
pub open spec fn edges_pixels(s: Seq<Point>, n: int) -> Set<(int, int)> {
    Set::new(|p: (int, int)| exists|i: int| 0 <= i < n && #[trigger] edge_pixels(s, i).contains(p))
}

/// The pixels of a walk from major coordinate `ma` up to, not including,
/// `upto`; `steep` says that the major axis is the `y` axis.
pub open spec fn walked(ma: int, na: int, mb: int, nb: int, steep: bool, upto: int) -> Set<
    (int, int),
> {
    Set::new(
        |p: (int, int)|
            if steep {
                ma <= p.1 < upto && p.0 == along(ma, na, mb, nb, p.1)
            } else {
                ma <= p.0 < upto && p.1 == along(ma, na, mb, nb, p.0)
            },
    )
}

/// A horizontal segment covers its row between its ends, and nothing else.
pub proof fn lemma_horizontal_segment(x0: int, x1: int, y: int)
    ensures
        forall|px: int, py: int|
            on_segment(x0, y, x1, y, px, py) <==> (py == y && (x0 <= px <= x1 || x1 <= px <= x0)),
{
    assert forall|px: int, py: int|
        on_segment(x0, y, x1, y, px, py) <==> (py == y && (x0 <= px <= x1 || x1 <= px <= x0)) by {
        if x0 != x1 {
            let d = abs(x1 - x0);
            assert((px - x0) * 0 == 0);
            assert((px - x1) * 0 == 0);
            lemma_round_div_between(0, d, 0, 0);
        }
    }
}

/// A segment starts at its first end and arrives at its second.
pub proof fn lemma_along_ends(ma: int, na: int, mb: int, nb: int)
    requires
        ma < mb,
    ensures
        along(ma, na, mb, nb, ma) == na,
        along(ma, na, mb, nb, mb) == nb,
{
    assert((ma - ma) * (nb - na) == 0 * (mb - ma)) by (nonlinear_arith);
    lemma_round_div_multiple(0, mb - ma);
    assert((mb - ma) * (nb - na) == (nb - na) * (mb - ma)) by (nonlinear_arith);
    lemma_round_div_multiple(nb - na, mb - ma);
}

/// From one step along the major axis to the next, a segment moves by at
/// most one pixel on the minor axis, and never against its direction.
pub proof fn lemma_along_steps(ma: int, na: int, mb: int, nb: int, m: int)
    requires
        ma < mb,
        abs(nb - na) <= mb - ma,
    ensures
        nb >= na ==> 0 <= along(ma, na, mb, nb, m + 1) - along(ma, na, mb, nb, m) <= 1,
        nb <= na ==> -1 <= along(ma, na, mb, nb, m + 1) - along(ma, na, mb, nb, m) <= 0,
{
    let dm = mb - ma;
    let dn = nb - na;
    let k = m - ma;
    let q = round_div(k * dn, dm);
    let r = round_div((k + 1) * dn, dm);
    assert((k + 1) * dn == k * dn + dn) by (nonlinear_arith);
    lemma_div_bounds(2 * (k * dn) + dm, 2 * dm);
    assert((q + 1) * (2 * dm) == q * (2 * dm) + 2 * dm) by (nonlinear_arith);
    assert((q - 1) * (2 * dm) == q * (2 * dm) - 2 * dm) by (nonlinear_arith);
    if dn >= 0 {
        if 2 * ((k + 1) * dn) + dm < q * (2 * dm) + 2 * dm {
            lemma_div_unique(2 * ((k + 1) * dn) + dm, 2 * dm, q);
        } else {
            lemma_div_unique(2 * ((k + 1) * dn) + dm, 2 * dm, q + 1);
        }
    } else {
        if 2 * ((k + 1) * dn) + dm >= q * (2 * dm) {
            lemma_div_unique(2 * ((k + 1) * dn) + dm, 2 * dm, q);
        } else {
            lemma_div_unique(2 * ((k + 1) * dn) + dm, 2 * dm, q - 1);
        }
    }
}

/// A segment covers both of its ends.
pub proof fn lemma_segment_holds_its_ends(x0: int, y0: int, x1: int, y1: int)
    ensures
        on_segment(x0, y0, x1, y1, x0, y0),
        on_segment(x0, y0, x1, y1, x1, y1),
{
    let dx = x1 - x0;
    let dy = y1 - y0;
    if abs(dx) >= abs(dy) {
        if dx > 0 {
            lemma_along_ends(x0, y0, x1, y1);
        } else if dx < 0 {
            lemma_along_ends(x1, y1, x0, y0);
        }
    } else {
        if dy > 0 {
            lemma_along_ends(y0, x0, y1, x1);
        } else {
            lemma_along_ends(y1, x1, y0, x0);
        }
    }
}

/// The pixels of a walk are as many as its steps.
proof fn lemma_walk_size(ma: int, na: int, mb: int, nb: int, steep: bool, upto: int)
    requires
        ma <= upto,
    ensures
        walked(ma, na, mb, nb, steep, upto).finite(),
        walked(ma, na, mb, nb, steep, upto).len() == upto - ma,
{
    let steps = set_int_range(ma, upto);
    let place = |m: int|
        if steep {
            (along(ma, na, mb, nb, m), m)
        } else {
            (m, along(ma, na, mb, nb, m))
        };
    let pixels = walked(ma, na, mb, nb, steep, upto);
    lemma_int_range(ma, upto);
    assert(injective_on(place, steps));
    assert forall|p: (int, int)| pixels.contains(p) implies steps.map(place).contains(p) by {
        let m = if steep {
            p.1
        } else {
            p.0
        };
        assert(steps.contains(m) && place(m) == p);
    }
    assert(steps.map(place) =~= pixels);
    lemma_map_size(steps, pixels, place);
}

/// One pixel for every step. A segment has exactly one pixel more than
/// its ends are apart along the axis on which they are further apart.
pub proof fn lemma_segment_size(x0: int, y0: int, x1: int, y1: int)
    ensures
        segment_pixels(x0, y0, x1, y1).finite(),
        segment_pixels(x0, y0, x1, y1).len() == 1 + if abs(x1 - x0) >= abs(y1 - y0) {
            abs(x1 - x0)
        } else {
            abs(y1 - y0)
        },
{
    let dx = x1 - x0;
    let dy = y1 - y0;
    let goal = segment_pixels(x0, y0, x1, y1);
    if abs(dx) >= abs(dy) {
        if dx == 0 {
            assert(goal =~= set![(x0, y0)]);
        } else if dx > 0 {
            lemma_walk_size(x0, y0, x1, y1, false, x1 + 1);
            assert(goal =~= walked(x0, y0, x1, y1, false, x1 + 1));
        } else {
            lemma_walk_size(x1, y1, x0, y0, false, x0 + 1);
            assert(goal =~= walked(x1, y1, x0, y0, false, x0 + 1));
        }
    } else {
        if dy > 0 {
            lemma_walk_size(y0, x0, y1, x1, true, y1 + 1);
            assert(goal =~= walked(y0, x0, y1, x1, true, y1 + 1));
        } else {
            lemma_walk_size(y1, x1, y0, x0, true, y0 + 1);
            assert(goal =~= walked(y1, x1, y0, x0, true, y0 + 1));
        }
    }
}

/// A segment covers the same pixels whichever of its ends is given first.
pub proof fn lemma_segment_from_either_end(x0: int, y0: int, x1: int, y1: int)
    ensures
        segment_pixels(x0, y0, x1, y1) == segment_pixels(x1, y1, x0, y0),
{
    assert(segment_pixels(x0, y0, x1, y1) =~= segment_pixels(x1, y1, x0, y0));
}

/// The minor coordinate stays between those of the two ends.
pub proof fn lemma_along_between(ma: int, na: int, mb: int, nb: int, m: int)
    requires
        ma < mb,
        ma <= m <= mb,
    ensures
        na <= along(ma, na, mb, nb, m) <= nb || nb <= along(ma, na, mb, nb, m) <= na,
{
    let k = m - ma;
    let dm = mb - ma;
    let dn = nb - na;
    if dn >= 0 {
        assert(0 * dm <= k * dn <= dn * dm) by (nonlinear_arith)
            requires
                0 <= k <= dm,
                dn >= 0,
        ;
        lemma_round_div_between(k * dn, dm, 0, dn);
    } else {
        assert(dn * dm <= k * dn <= 0 * dm) by (nonlinear_arith)
            requires
                0 <= k <= dm,
                dn < 0,
        ;
        lemma_round_div_between(k * dn, dm, dn, 0);
    }
}

/// Walks the segment from `(ma, na)` to `(mb, nb)` along its major axis and
/// paints a pixel at every step.
fn walk(canvas: &mut Canvas, ma: i32, na: i32, mb: i32, nb: i32, steep: bool, c: Color)
    requires
        ma < mb,
        abs(nb - na) <= mb - ma,
    ensures
        final(canvas).spec_width() == old(canvas).spec_width(),
        final(canvas).spec_height() == old(canvas).spec_height(),
        final(canvas).spec_background() == old(canvas).spec_background(),
        final(canvas)@ == painted(
            old(canvas)@,
            walked(ma as int, na as int, mb as int, nb as int, steep, mb + 1),
            c,
        ),
{
    let dm: i64 = mb as i64 - ma as i64;
    let dn: i64 = nb as i64 - na as i64;
    let mut m: i64 = ma as i64;
    let mut n: i64 = na as i64;
    let mut e: i64 = dm;
    let ghost mut run: int = 0;
    let ghost mut rise: int = 0;
    assert(canvas@ =~= painted(
        old(canvas)@,
        walked(ma as int, na as int, mb as int, nb as int, steep, ma as int),
        c,
    ));
    while m <= mb as i64
        invariant
            ma < mb,
            dm == mb - ma,
            dn == nb - na,
            abs(dn as int) <= dm,
            ma <= m <= mb + 1,
            run == (m - ma) * dn,
            rise == (n - na) * (2 * dm),
            2 * run + dm == rise + e,
            0 <= e < 2 * dm,
            canvas.spec_width() == old(canvas).spec_width(),
            canvas.spec_height() == old(canvas).spec_height(),
            canvas.spec_background() == old(canvas).spec_background(),
            canvas@ == painted(
                old(canvas)@,
                walked(ma as int, na as int, mb as int, nb as int, steep, m as int),
                c,
            ),
        decreases mb + 1 - m,
    {
        proof {
            lemma_div_unique(2 * run + dm, 2 * dm, n - na);
            assert(n == along(ma as int, na as int, mb as int, nb as int, m as int));
            lemma_along_between(ma as int, na as int, mb as int, nb as int, m as int);
        }
        if steep {
            canvas.plot(n as i32, m as i32, c);
        } else {
            canvas.plot(m as i32, n as i32, c);
        }
        assert(canvas@ =~= painted(
            old(canvas)@,
            walked(ma as int, na as int, mb as int, nb as int, steep, m + 1),
            c,
        ));
        proof {
            assert((m + 1 - ma) * dn == (m - ma) * dn + dn) by (nonlinear_arith);
            assert((n + 1 - na) * (2 * dm) == (n - na) * (2 * dm) + 2 * dm) by (nonlinear_arith);
            assert((n - 1 - na) * (2 * dm) == (n - na) * (2 * dm) - 2 * dm) by (nonlinear_arith);
            run = run + dn;
        }
        m = m + 1;
        e = e + 2 * dn;
        if e >= 2 * dm {
            n = n + 1;
            e = e - 2 * dm;
            proof {
                rise = rise + 2 * dm;
            }
        } else if e < 0 {
            n = n - 1;
            e = e + 2 * dm;
            proof {
                rise = rise - 2 * dm;
            }
        }
    }
}

impl Canvas {
    /// Paints the segment from pixel `(x0, y0)` to pixel `(x1, y1)`. What
    /// lies outside the grid is left out pixel by pixel.
    pub fn draw_line(&mut self, x0: i32, y0: i32, x1: i32, y1: i32, c: Color)
        ensures
            final(self).spec_width() == old(self).spec_width(),
            final(self).spec_height() == old(self).spec_height(),
            final(self).spec_background() == old(self).spec_background(),
            final(self)@ == painted(
                old(self)@,
                segment_pixels(x0 as int, y0 as int, x1 as int, y1 as int),
                c,
            ),
    {
        let dx: i64 = x1 as i64 - x0 as i64;
        let dy: i64 = y1 as i64 - y0 as i64;
        let run: i64 = if dx < 0 {
            -dx
        } else {
            dx
        };
        let rise: i64 = if dy < 0 {
            -dy
        } else {
            dy
        };
        let ghost goal = segment_pixels(x0 as int, y0 as int, x1 as int, y1 as int);
        if run >= rise {
            if dx == 0 {
                self.plot(x0, y0, c);
                assert(goal =~= set![(x0 as int, y0 as int)]);
            } else if dx > 0 {
                walk(self, x0, y0, x1, y1, false, c);
                assert(goal =~= walked(x0 as int, y0 as int, x1 as int, y1 as int, false, x1 + 1));
            } else {
                walk(self, x1, y1, x0, y0, false, c);
                assert(goal =~= walked(x1 as int, y1 as int, x0 as int, y0 as int, false, x0 + 1));
            }
        } else {
            if dy > 0 {
                walk(self, y0, x0, y1, x1, true, c);
                assert(goal =~= walked(y0 as int, x0 as int, y1 as int, x1 as int, true, y1 + 1));
            } else {
                walk(self, y1, x1, y0, x0, true, c);
                assert(goal =~= walked(y1 as int, x1 as int, y0 as int, x0 as int, true, y0 + 1));
            }
        }
    }

    /// Paints every edge of the edge list `edges`: points `2i` and `2i + 1`,
    /// rounded to pixels, are the ends of one segment. An empty list leaves
    /// the canvas as it is.
    pub fn draw_lines(&mut self, edges: &PointStore, c: Color)
        requires
            edges@.len() % 2 == 0,
        ensures
            final(self).spec_width() == old(self).spec_width(),
            final(self).spec_height() == old(self).spec_height(),
            final(self).spec_background() == old(self).spec_background(),
            final(self)@ == painted(old(self)@, edges_pixels(edges@, edges@.len() as int / 2), c),
            edges@.len() == 0 ==> final(self)@ == old(self)@,
    {
        let total: usize = edges.len();
        let count: usize = total / 2;
        let mut i: usize = 0;
        assert(self@ =~= painted(old(self)@, edges_pixels(edges@, 0), c));
        while i < count
            invariant
                i <= count,
                total == edges@.len(),
                count == edges@.len() as int / 2,
                edges@.len() % 2 == 0,
                self.spec_width() == old(self).spec_width(),
                self.spec_height() == old(self).spec_height(),
                self.spec_background() == old(self).spec_background(),
                self@ == painted(old(self)@, edges_pixels(edges@, i as int), c),
            decreases count - i,
        {
            let p = edges.get(2 * i);
            let q = edges.get(2 * i + 1);
            let ghost before = self@;
            self.draw_line(p.x.round(), p.y.round(), q.x.round(), q.y.round(), c);
            proof {
                let one = edge_pixels(edges@, i as int);
                assert(self@ == painted(before, one, c));
                assert forall|t: (int, int)|
                    edges_pixels(edges@, i + 1).contains(t) <==> (edges_pixels(
                        edges@,
                        i as int,
                    ).contains(t) || one.contains(t)) by {
                    if edges_pixels(edges@, i + 1).contains(t) {
                        let k = choose|k: int|
                            0 <= k < i + 1 && #[trigger] edge_pixels(edges@, k).contains(t);
                        if k < i {
                            assert(edges_pixels(edges@, i as int).contains(t));
                        }
                    }
                    if one.contains(t) {
                        assert(edge_pixels(edges@, i as int).contains(t));
                    }
                }
                assert(self@ =~= painted(old(self)@, edges_pixels(edges@, i + 1), c));
            }
            i += 1;
        }
        proof {
            if edges@.len() == 0 {
                assert(self@ =~= old(self)@);
            }
        }
    }
}

} // verus!
