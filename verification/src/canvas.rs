//! The pixel grid.
//!
//! A canvas of width `w` and height `h` holds one color for every pixel
//! `(x, y)` with `0 <= x < w` and `0 <= y < h`. Pixel `(0, 0)` is the bottom
//! left one and `y` grows upwards. The view of a canvas is the map from
//! pixel coordinates to colors. Painting outside the grid is not an error:
//! such pixels are left out.

use vstd::prelude::*;

verus! {

/// A color: three channels of eight bits.
#[derive(Clone, Copy, Debug, PartialEq, Eq, Structural)]
pub struct Color {
    pub red: u8,
    pub green: u8,
    pub blue: u8,
}

impl Color {
    /// The color with the given channels.
    pub fn new_color(red: u8, green: u8, blue: u8) -> (c: Color)
        ensures
            c == (Color { red, green, blue }),
    {
        Color { red, green, blue }
    }
}

/// The picture of the given size in which every pixel has the color `c`.
pub open spec fn blank(width: int, height: int, c: Color) -> Map<(int, int), Color> {
    Map::new(|p: (int, int)| 0 <= p.0 < width && 0 <= p.1 < height, |p: (int, int)| c)
}

/// The picture `m` with the color `c` put on every pixel of `s` that the
/// picture has.
pub open spec fn painted(m: Map<(int, int), Color>, s: Set<(int, int)>, c: Color) -> Map<
    (int, int),
    Color,
> {
    Map::new(
        |p: (int, int)| m.dom().contains(p),
        |p: (int, int)|
            if s.contains(p) {
                c
            } else {
                m[p]
            },
    )
}

/// The decimal digits of `n`, as ASCII.
pub open spec fn decimal(n: nat) -> Seq<u8>
    decreases n,
{
    if n < 10 {
        seq![(48 + n) as u8]
    } else {
        decimal(n / 10).push((48 + n % 10) as u8)
    }
}

/// The header of a binary portable pixmap of the given size with channel
/// values up to 255: the letter `P` and the digit `6`, the width and the
/// height in decimal, and `255`, each followed by a line feed but for the
/// width, which a blank follows.
pub open spec fn pixmap_header(width: nat, height: nat) -> Seq<u8> {
    seq![80u8, 54u8, 10u8] + decimal(width) + seq![32u8] + decimal(height) + seq![
        10u8,
        50u8,
        53u8,
        53u8,
        10u8,
    ]
}

/// Channel `k` (0 red, 1 green, 2 blue) of a color.
pub open spec fn channel(c: Color, k: int) -> u8 {
    if k == 0 {
        c.red
    } else if k == 1 {
        c.green
    } else {
        c.blue
    }
}

/// The channel bytes of a picture: rows from the top one down, every row
/// from left to right, three bytes for a pixel.
pub open spec fn pixmap_body(m: Map<(int, int), Color>, width: int, height: int) -> Seq<u8> {
    Seq::new(
        (3 * width * height) as nat,
        |i: int| channel(m[((i / 3) % width, height - 1 - (i / 3) / width)], i % 3),
    )
}

/// A grid of pixels with a background color.
pub struct Canvas {
    width: usize,
    height: usize,
    background: Color,
    pixels: Vec<Color>,
}

/// Appends the decimal digits of `n`.
fn push_decimal(out: &mut Vec<u8>, n: usize)
    ensures
        final(out)@ == old(out)@ + decimal(n as nat),
    decreases n,
{
    if n < 10 {
        out.push(48 + n as u8);
        assert(out@ =~= old(out)@ + decimal(n as nat));
    } else {
        push_decimal(out, n / 10);
        out.push(48 + (n % 10) as u8);
        assert(out@ =~= old(out)@ + decimal(n as nat));
    }
}

/// The rows of a grid do not overlap: a position inside row `r` of a grid
/// of `height` rows of `width` cells lies inside the grid, and determines
/// the row and the cell.
proof fn lemma_cell_position(width: int, height: int, r: int, x: int)
    requires
        0 <= r < height,
        0 <= x < width,
    ensures
        0 <= r * width,
        0 <= r * width + x < width * height,
        (r * width + x) / width == r,
        (r * width + x) % width == x,
{
    assert(r * width + width <= height * width) by (nonlinear_arith)
        requires
            r + 1 <= height,
            width > 0,
    ;
    assert(0 <= r * width) by (nonlinear_arith)
        requires
            0 <= r,
            width > 0,
    ;
    assert(height * width == width * height) by (nonlinear_arith);
    vstd::arithmetic::div_mod::lemma_fundamental_div_mod_converse(r * width + x, width, r, x);
}

impl Canvas {
    #[verifier::type_invariant]
    spec fn well_formed(self) -> bool {
        self.pixels@.len() == self.width * self.height
    }

    /// The number of pixels in a row.
    pub closed spec fn spec_width(&self) -> int {
        self.width as int
    }

    /// The number of rows.
    pub closed spec fn spec_height(&self) -> int {
        self.height as int
    }

    /// The color that [`Canvas::clear`] fills the grid with.
    pub closed spec fn spec_background(&self) -> Color {
        self.background
    }

    /// The place of pixel `(x, y)` in the store: rows are kept from the top
    /// one down.
    spec fn position(&self, x: int, y: int) -> int {
        (self.height - 1 - y) * self.width + x
    }
}

impl View for Canvas {
    type V = Map<(int, int), Color>;

    closed spec fn view(&self) -> Map<(int, int), Color> {
        Map::new(
            |p: (int, int)| 0 <= p.0 < self.width && 0 <= p.1 < self.height,
            |p: (int, int)| self.pixels@[self.position(p.0, p.1)],
        )
    }
}

impl Canvas {
    /// Whether the canvas has pixel `(x, y)`.
    pub open spec fn has(&self, x: int, y: int) -> bool {
        0 <= x < self.spec_width() && 0 <= y < self.spec_height()
    }

    /// The view's domain is the grid.
    pub proof fn lemma_domain(&self)
        ensures
            forall|p: (int, int)| #[trigger] self@.dom().contains(p) <==> self.has(p.0, p.1),
    {
    }

    /// A canvas of the given size with a black background, every pixel
    /// black.
    pub fn new(width: usize, height: usize) -> (c: Canvas)
        requires
            width * height <= usize::MAX,
        ensures
            c.spec_width() == width,
            c.spec_height() == height,
            c.spec_background() == (Color { red: 0, green: 0, blue: 0 }),
            c@ == blank(width as int, height as int, Color { red: 0, green: 0, blue: 0 }),
    {
        Canvas::with_background(width, height, Color { red: 0, green: 0, blue: 0 })
    }

    /// A canvas of the given size and background, every pixel in the
    /// background color.
    pub fn with_background(width: usize, height: usize, background: Color) -> (c: Canvas)
        requires
            width * height <= usize::MAX,
        ensures
            c.spec_width() == width,
            c.spec_height() == height,
            c.spec_background() == background,
            c@ == blank(width as int, height as int, background),
    {
        let n: usize = width * height;
        let mut pixels: Vec<Color> = Vec::new();
        let mut i: usize = 0;
        while i < n
            invariant
                i <= n,
                pixels@.len() == i,
                forall|k: int| 0 <= k < i ==> pixels@[k] == background,
            decreases n - i,
        {
            pixels.push(background);
            i += 1;
        }
        let c = Canvas { width, height, background, pixels };
        proof {
            assert forall|p: (int, int)| #[trigger]
                c@.dom().contains(p) implies c@[p] == background by {
                lemma_cell_position(width as int, height as int, height - 1 - p.1, p.0);
            }
            assert(c@ =~= blank(width as int, height as int, background));
        }
        c
    }

    /// The number of pixels in a row.
    pub fn width(&self) -> (w: usize)
        ensures
            w == self.spec_width(),
    {
        self.width
    }

    /// The number of rows.
    pub fn height(&self) -> (h: usize)
        ensures
            h == self.spec_height(),
    {
        self.height
    }

    /// The background color.
    pub fn background(&self) -> (c: Color)
        ensures
            c == self.spec_background(),
    {
        self.background
    }

    /// The color of pixel `(x, y)`, or `None` outside the grid.
    pub fn get(&self, x: i32, y: i32) -> (c: Option<Color>)
        ensures
            c == if self.has(x as int, y as int) {
                Some(self@[(x as int, y as int)])
            } else {
                None
            },
    {
        proof {
            use_type_invariant(self);
        }
        if x < 0 || y < 0 || x as usize >= self.width || y as usize >= self.height {
            None
        } else {
            let row: usize = self.height - 1 - y as usize;
            let cells: usize = self.pixels.len();
            proof {
                lemma_cell_position(self.width as int, self.height as int, row as int, x as int);
                assert(cells == self.width * self.height);
            }
            Some(self.pixels[row * self.width + x as usize])
        }
    }

    /// Gives pixel `(x, y)` the color `c`. Outside the grid nothing
    /// happens.
    pub fn plot(&mut self, x: i32, y: i32, c: Color)
        ensures
            final(self).spec_width() == old(self).spec_width(),
            final(self).spec_height() == old(self).spec_height(),
            final(self).spec_background() == old(self).spec_background(),
            final(self)@ == painted(old(self)@, set![(x as int, y as int)], c),
    {
        proof {
            use_type_invariant(&*self);
        }
        if x < 0 || y < 0 || x as usize >= self.width || y as usize >= self.height {
            assert(self@ =~= painted(old(self)@, set![(x as int, y as int)], c));
        } else {
            let row: usize = self.height - 1 - y as usize;
            let cells: usize = self.pixels.len();
            proof {
                lemma_cell_position(self.width as int, self.height as int, row as int, x as int);
                assert(cells == self.width * self.height);
            }
            self.pixels[row * self.width + x as usize] = c;
            proof {
                assert forall|p: (int, int)| #[trigger]
                    self@.dom().contains(p) implies self@[p] == painted(
                    old(self)@,
                    set![(x as int, y as int)],
                    c,
                )[p] by {
                    lemma_cell_position(
                        self.width as int,
                        self.height as int,
                        self.height - 1 - p.1,
                        p.0,
                    );
                }
                assert(self@ =~= painted(old(self)@, set![(x as int, y as int)], c));
            }
        }
    }

    /// Gives every pixel the background color.
    pub fn clear(&mut self)
        ensures
            final(self).spec_width() == old(self).spec_width(),
            final(self).spec_height() == old(self).spec_height(),
            final(self).spec_background() == old(self).spec_background(),
            final(self)@ == blank(
                old(self).spec_width(),
                old(self).spec_height(),
                old(self).spec_background(),
            ),
    {
        proof {
            use_type_invariant(&*self);
        }
        let n: usize = self.pixels.len();
        let mut i: usize = 0;
        while i < n
            invariant
                i <= n,
                n == self.pixels@.len(),
                n == self.width * self.height,
                self.width == old(self).width,
                self.height == old(self).height,
                self.background == old(self).background,
                forall|k: int| 0 <= k < i ==> self.pixels@[k] == self.background,
            decreases n - i,
        {
            self.pixels[i] = self.background;
            i += 1;
        }
        proof {
            assert forall|p: (int, int)| #[trigger]
                self@.dom().contains(p) implies self@[p] == self.background by {
                lemma_cell_position(
                    self.width as int,
                    self.height as int,
                    self.height - 1 - p.1,
                    p.0,
                );
            }
            assert(self@ =~= blank(
                old(self).spec_width(),
                old(self).spec_height(),
                old(self).spec_background(),
            ));
        }
    }

    /// The canvas as a binary portable pixmap: the header, then three bytes
    /// for every pixel, rows from the top one down.
    pub fn to_pixmap(&self) -> (bytes: Vec<u8>)
        ensures
            bytes@ == pixmap_header(self.spec_width() as nat, self.spec_height() as nat)
                + pixmap_body(self@, self.spec_width(), self.spec_height()),
    {
        proof {
            use_type_invariant(self);
        }
        let mut out: Vec<u8> = Vec::new();
        out.push(80);
        out.push(54);
        out.push(10);
        push_decimal(&mut out, self.width);
        out.push(32);
        push_decimal(&mut out, self.height);
        out.push(10);
        out.push(50);
        out.push(53);
        out.push(53);
        out.push(10);
        let ghost header = pixmap_header(self.width as nat, self.height as nat);
        assert(out@ =~= header);
        let ghost body = pixmap_body(self@, self.width as int, self.height as int);
        let n: usize = self.pixels.len();
        assert(3 * (self.width * self.height) == 3 * self.width * self.height) by (nonlinear_arith);
        let mut i: usize = 0;
        while i < n
            invariant
                i <= n,
                n == self.pixels@.len(),
                n == self.width * self.height,
                body == pixmap_body(self@, self.width as int, self.height as int),
                body.len() == 3 * n,
                out@ == header + body.subrange(0, 3 * i),
            decreases n - i,
        {
            let c = self.pixels[i];
            proof {
                if self.width > 0 {
                    let r = i as int / self.width as int;
                    let x = i as int % self.width as int;
                    vstd::arithmetic::div_mod::lemma_fundamental_div_mod(i as int, self.width as int);
                    vstd::arithmetic::div_mod::lemma_mod_bound(i as int, self.width as int);
                    assert(self.width * r == r * self.width) by (nonlinear_arith);
                    assert(0 <= r < self.height) by (nonlinear_arith)
                        requires
                            r * self.width + x == i,
                            0 <= x < self.width,
                            0 <= i < self.width * self.height,
                    ;
                    let y = self.height - 1 - r;
                    assert(self@.dom().contains((x, y)));
                    assert(self.position(x, y) == i);
                    assert(body[3 * i] == c.red);
                    assert(body[3 * i + 1] == c.green);
                    assert(body[3 * i + 2] == c.blue);
                } else {
                    assert(self.width * self.height == 0) by (nonlinear_arith)
                        requires
                            self.width == 0,
                    ;
                }
            }
            out.push(c.red);
            out.push(c.green);
            out.push(c.blue);
            assert(out@ =~= header + body.subrange(0, 3 * (i + 1)));
            i += 1;
        }
        assert(body.subrange(0, 3 * n) =~= body);
        out
    }
}

} // verus!
