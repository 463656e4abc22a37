//! Points in space and the ordered store that holds them.
//!
//! A store is read in one of two ways. As an edge list, points `2i` and
//! `2i + 1` are the ends of line segment `i`; as a polygon list, points `3i`,
//! `3i + 1` and `3i + 2` are the corners of triangle `i`, in winding order.

use crate::fixed::Fixed;
use crate::transform::moved;
use crate::transform::Transform;
use vstd::prelude::*;

verus! {

/// A point in space.
#[derive(Clone, Copy, Debug, PartialEq, Eq, Structural)]
pub struct Point {
    pub x: Fixed,
    pub y: Fixed,
    pub z: Fixed,
}

impl Point {
    /// The point with the given coordinates.
    pub fn new(x: Fixed, y: Fixed, z: Fixed) -> (p: Point)
        ensures
            p == (Point { x, y, z }),
    {
        Point { x, y, z }
    }
}

/// The points of `s`, each moved by `t`.
pub open spec fn moved_all(t: Transform, s: Seq<Point>) -> Seq<Point> {
    Seq::new(s.len(), |i: int| moved(t, s[i]))
}

/// An ordered, growing sequence of points; its view is that sequence.
pub struct PointStore {
    points: Vec<Point>,
}

impl View for PointStore {
    type V = Seq<Point>;

    closed spec fn view(&self) -> Seq<Point> {
        self.points@
    }
}

impl PointStore {
    /// An empty store. `rows` and `cols` say how much the caller expects to
    /// put in; they reserve room, for 65536 points at most, and mean nothing
    /// else: whatever they are, the store is empty and grows as points are
    /// appended.
    pub fn new(rows: usize, cols: usize) -> (s: PointStore)
        ensures
            s@ == Seq::<Point>::empty(),
    {
        let _ = rows;
        let room: usize = if cols > 65536 {
            65536
        } else {
            cols
        };
        PointStore { points: Vec::with_capacity(room) }
    }

    /// The number of points.
    pub fn len(&self) -> (n: usize)
        ensures
            n == self@.len(),
    {
        self.points.len()
    }

    /// Whether the store holds no point.
    pub fn is_empty(&self) -> (b: bool)
        ensures
            b == (self@.len() == 0),
    {
        self.points.len() == 0
    }

    /// Point number `i`.
    pub fn get(&self, i: usize) -> (p: Point)
        requires
            i < self@.len(),
        ensures
            p == self@[i as int],
    {
        self.points[i]
    }

    /// Appends one point.
    pub fn add_point(&mut self, p: Point)
        ensures
            final(self)@ == old(self)@.push(p),
    {
        self.points.push(p);
    }

    /// Appends the line segment from `(x0, y0, z0)` to `(x1, y1, z1)`: two
    /// points.
    pub fn add_edge(&mut self, x0: Fixed, y0: Fixed, z0: Fixed, x1: Fixed, y1: Fixed, z1: Fixed)
        ensures
            final(self)@ == old(self)@.push(Point { x: x0, y: y0, z: z0 }).push(
                Point { x: x1, y: y1, z: z1 },
            ),
    {
        self.points.push(Point { x: x0, y: y0, z: z0 });
        self.points.push(Point { x: x1, y: y1, z: z1 });
    }

    /// Appends the triangle with corners `a`, `b`, `c`, in that winding
    /// order: three points.
    pub fn add_triangle(&mut self, a: Point, b: Point, c: Point)
        ensures
            final(self)@ == old(self)@.push(a).push(b).push(c),
    {
        self.points.push(a);
        self.points.push(b);
        self.points.push(c);
    }

    /// Removes every point.
    pub fn clear(&mut self)
        ensures
            final(self)@ == Seq::<Point>::empty(),
    {
        self.points.clear();
    }

    /// Replaces every point by its image under `t`. The number of points
    /// stays; on an empty store nothing happens.
    pub fn apply_transform(&mut self, t: &Transform)
        ensures
            final(self)@ == moved_all(*t, old(self)@),
    {
        let n = self.points.len();
        let mut i: usize = 0;
        while i < n
            invariant
                i <= n,
                n == self.points@.len(),
                n == old(self)@.len(),
                forall|k: int| 0 <= k < i ==> self.points@[k] == moved(*t, old(self).points@[k]),
                forall|k: int| i <= k < n ==> self.points@[k] == old(self).points@[k],
            decreases n - i,
        {
            let p = self.points[i];
            self.points.set(i, t.apply(p));
            i += 1;
        }
        assert(self@ =~= moved_all(*t, old(self)@));
    }
}

} // verus!
