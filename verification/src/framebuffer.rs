use vstd::prelude::*;
use vstd::arithmetic::div_mod::{
    lemma_fundamental_div_mod,
    lemma_fundamental_div_mod_converse,
    lemma_mod_pos_bound,
};
use vstd::arithmetic::mul::lemma_mul_is_commutative;

verus! {

/// How the four bytes of a pixel are laid out in video memory.
#[derive(Clone, Copy, Debug, PartialEq, Eq, Structural)]
pub enum PixelFormat {
    Rgb,
    Bgr,
    Bitmask,
    BltOnly,
}

/// A colour as three channels, red first.
pub type Rgb8 = (u8, u8, u8);

/// Only the byte-addressed formats can be drawn on directly.
pub open spec fn is_drawable(format: PixelFormat) -> bool {
    format is Rgb || format is Bgr
}

/// The byte that a pixel of `color` holds at position `k` (0..4) of its four bytes.
pub open spec fn channel(format: PixelFormat, color: Rgb8, k: int) -> u8 {
    match format {
        PixelFormat::Rgb => if k == 0 { color.0 } else if k == 1 { color.1 } else if k == 2 { color.2 } else { 0 },
        PixelFormat::Bgr => if k == 0 { color.2 } else if k == 1 { color.1 } else if k == 2 { color.0 } else { 0 },
        _ => 0,
    }
}

/// The mathematical picture of a frame buffer: its geometry and its bytes.
#[verifier::ext_equal]
pub struct FrameView {
    pub width: usize,
    pub height: usize,
    pub stride: usize,
    pub format: PixelFormat,
    pub mem: Seq<u8>,
}

impl FrameView {
    /// The geometry fits the memory: every visible pixel has its four bytes.
    pub open spec fn wf(self) -> bool {
        &&& self.width <= self.stride
        &&& self.mem.len() == self.stride * self.height * 4
        &&& self.mem.len() <= usize::MAX
    }

    /// Column of the pixel that byte `i` belongs to.
    pub open spec fn col_of(self, i: int) -> int {
        (i / 4) % (self.stride as int)
    }

    /// Scan line of the pixel that byte `i` belongs to.
    pub open spec fn row_of(self, i: int) -> int {
        (i / 4) / (self.stride as int)
    }

    /// First byte of the pixel at (`x`, `y`).
    pub open spec fn offset(self, x: int, y: int) -> int {
        (y * self.stride + x) * 4
    }

    pub open spec fn on_screen(self, x: int, y: int) -> bool {
        0 <= x < self.width && 0 <= y < self.height
    }

    /// The colour shown at (`x`, `y`), for a drawable format.
    pub open spec fn color_at(self, x: int, y: int) -> Rgb8 {
        let o = self.offset(x, y);
        match self.format {
            PixelFormat::Rgb => (self.mem[o], self.mem[o + 1], self.mem[o + 2]),
            PixelFormat::Bgr => (self.mem[o + 2], self.mem[o + 1], self.mem[o]),
            _ => (0, 0, 0),
        }
    }

    /// What `read_pixel` gives: the colour on screen, or black where nothing can be read.
    pub open spec fn read(self, x: int, y: int) -> Rgb8 {
        if is_drawable(self.format) && self.on_screen(x, y) {
            self.color_at(x, y)
        } else {
            (0, 0, 0)
        }
    }

    /// Every visible pixel for which `f` gives a colour is set to it (all four
    /// bytes, the fourth one zero); all other bytes stay. Nothing changes in a
    /// format that cannot be drawn on.
    pub open spec fn repaint(self, f: spec_fn(int, int) -> Option<Rgb8>) -> FrameView {
        FrameView {
            width: self.width,
            height: self.height,
            stride: self.stride,
            format: self.format,
            mem: Seq::new(
                self.mem.len(),
                |i: int|
                    if is_drawable(self.format) && self.on_screen(self.col_of(i), self.row_of(i))
                        && f(self.col_of(i), self.row_of(i)) is Some {
                        channel(self.format, f(self.col_of(i), self.row_of(i))->0, i % 4)
                    } else {
                        self.mem[i]
                    },
            ),
        }
    }

    /// The picture after filling the rectangle at (`x`, `y`) of size `w` x `h` with `color`,
    /// clipped to the screen.
    pub open spec fn fill(self, x: int, y: int, w: int, h: int, color: Rgb8) -> FrameView {
        self.repaint(rect_paint(x, y, w, h, color))
    }
}

/// `color` inside the rectangle, nothing elsewhere.
pub open spec fn rect_paint(x: int, y: int, w: int, h: int, color: Rgb8) -> spec_fn(int, int) -> Option<Rgb8> {
    |px: int, py: int| if x <= px < x + w && y <= py < y + h { Some(color) } else { None }
}

/// `g` where it paints, `f` elsewhere.
pub open spec fn overlay(
    f: spec_fn(int, int) -> Option<Rgb8>,
    g: spec_fn(int, int) -> Option<Rgb8>,
) -> spec_fn(int, int) -> Option<Rgb8> {
    |px: int, py: int| if g(px, py) is Some { g(px, py) } else { f(px, py) }
}

/// Byte `i` belongs to the pixel at (`x`, `y`) exactly when it lies in that pixel's four bytes.
pub proof fn lemma_pixel_of_byte(stride: int, x: int, y: int, i: int)
    requires
        stride > 0,
        0 <= x < stride,
        0 <= y,
        0 <= i,
    ensures
        ((i / 4) % stride == x && (i / 4) / stride == y) <==> ((y * stride + x) * 4 <= i < (y * stride
            + x) * 4 + 4),
{
    let q = i / 4;
    assert(q * 4 <= i < q * 4 + 4);
    lemma_fundamental_div_mod(q, stride);
    lemma_mod_pos_bound(q, stride);
    lemma_mul_is_commutative(stride, q / stride);
    lemma_mul_is_commutative(stride, y);
    if (y * stride + x) * 4 <= i < (y * stride + x) * 4 + 4 {
        assert(q == y * stride + x);
        lemma_fundamental_div_mod_converse(q, stride, y, x);
    }
}

/// Repainting twice is repainting once with the second painter on top.
pub proof fn lemma_repaint_twice(
    v: FrameView,
    f: spec_fn(int, int) -> Option<Rgb8>,
    g: spec_fn(int, int) -> Option<Rgb8>,
)
    ensures
        v.repaint(f).repaint(g) == v.repaint(overlay(f, g)),
{
    assert(v.repaint(f).repaint(g) =~= v.repaint(overlay(f, g)));
}

/// Two painters that agree on every visible pixel give the same picture.
pub proof fn lemma_repaint_same(
    v: FrameView,
    f: spec_fn(int, int) -> Option<Rgb8>,
    g: spec_fn(int, int) -> Option<Rgb8>,
)
    requires
        forall|px: int, py: int| #[trigger] v.on_screen(px, py) ==> f(px, py) == g(px, py),
    ensures
        v.repaint(f) == v.repaint(g),
{
    assert forall|i: int| 0 <= i < v.mem.len() implies #[trigger] v.repaint(f).mem[i] == v.repaint(
        g,
    ).mem[i] by {
        if v.on_screen(v.col_of(i), v.row_of(i)) {
        }
    }
    assert(v.repaint(f) =~= v.repaint(g));
}

/// A painter that paints nothing leaves the picture as it is.
pub proof fn lemma_repaint_nothing(v: FrameView, f: spec_fn(int, int) -> Option<Rgb8>)
    requires
        forall|px: int, py: int| #[trigger] v.on_screen(px, py) ==> f(px, py) is None,
    ensures
        v.repaint(f) == v,
{
    assert forall|i: int| 0 <= i < v.mem.len() implies #[trigger] v.repaint(f).mem[i] == v.mem[i] by {
        if v.on_screen(v.col_of(i), v.row_of(i)) {
        }
    }
    assert(v.repaint(f) =~= v);
}

/// A frame buffer: `height` scan lines of `stride` pixels of four bytes each,
/// of which the first `width` pixels of each line are visible.
#[derive(Debug)]
pub struct FrameBuffer {
    pixels: Vec<u8>,
    width: usize,
    height: usize,
    stride: usize,
    pixel_format: PixelFormat,
}

impl View for FrameBuffer {
    type V = FrameView;

    closed spec fn view(&self) -> FrameView {
        FrameView {
            width: self.width,
            height: self.height,
            stride: self.stride,
            format: self.pixel_format,
            mem: self.pixels@,
        }
    }
}

impl FrameBuffer {
    #[verifier::type_invariant]
    spec fn inv(self) -> bool {
        self@.wf()
    }

    /// A frame buffer with no pixels at all.
    pub fn empty() -> (fb: Self)
        ensures
            fb@.wf(),
            fb@.width == 0,
            fb@.height == 0,
            fb@.stride == 0,
            fb@.format == PixelFormat::Rgb,
            fb@.mem.len() == 0,
    {
        FrameBuffer { pixels: Vec::new(), width: 0, height: 0, stride: 0, pixel_format: PixelFormat::Rgb }
    }

    /// Takes on a video mode: its geometry and the bytes its video memory
    /// holds now, `stride * height` pixels of four bytes, so that drawing
    /// goes on from what the screen shows.
    pub fn init(&mut self, width: usize, height: usize, stride: usize, pixel_format: PixelFormat, pixels: Vec<u8>)
        requires
            width <= stride,
            pixels@.len() == stride * height * 4,
        ensures
            final(self)@.wf(),
            final(self)@.width == width,
            final(self)@.height == height,
            final(self)@.stride == stride,
            final(self)@.format == pixel_format,
            final(self)@.mem == pixels@,
    {
        assert(pixels@.len() == pixels.len() <= usize::MAX);
        *self = FrameBuffer { pixels, width, height, stride, pixel_format };
    }

    pub fn width(&self) -> (w: usize)
        ensures
            w == self@.width,
            self@.wf(),
    {
        proof {
            use_type_invariant(self);
        }
        self.width
    }

    pub fn height(&self) -> (h: usize)
        ensures
            h == self@.height,
            self@.wf(),
    {
        proof {
            use_type_invariant(self);
        }
        self.height
    }

    /// Pixels per scan line, at least the width.
    pub fn stride(&self) -> (s: usize)
        ensures
            s == self@.stride,
            self@.wf(),
    {
        proof {
            use_type_invariant(self);
        }
        self.stride
    }

    /// How the bytes of a pixel are laid out.
    pub fn pixel_format(&self) -> (f: PixelFormat)
        ensures
            f == self@.format,
    {
        self.pixel_format
    }

    /// Byte `i` of video memory.
    pub fn byte_at(&self, i: usize) -> (b: u8)
        requires
            i < self@.mem.len(),
        ensures
            b == self@.mem[i as int],
    {
        self.pixels[i]
    }

    /// Sets the pixel at (`x`, `y`); a point off the screen, or a format that
    /// cannot be drawn on, leaves everything as it was.
    pub fn draw_pixel(&mut self, x: usize, y: usize, r: u8, g: u8, b: u8)
        ensures
            final(self)@ == old(self)@.fill(x as int, y as int, 1, 1, (r, g, b)),
            final(self)@.wf(),
    {
        proof {
            use_type_invariant(&*self);
        }
        let ghost v = self@;
        if x >= self.width || y >= self.height {
            proof {
                lemma_repaint_nothing(v, rect_paint(x as int, y as int, 1, 1, (r, g, b)));
            }
            return;
        }
        proof {
            lemma_point_offset(v, x as int, y as int);
        }
        assert(y * self.stride <= y * self.stride * 4);
        let offset = y * self.stride * 4 + x * 4;
        match self.pixel_format {
            PixelFormat::Rgb => {
                self.pixels[offset] = r;
                self.pixels[offset + 1] = g;
                self.pixels[offset + 2] = b;
                self.pixels[offset + 3] = 0;
                proof {
                    lemma_fill_point(v, x as int, y as int, (r, g, b));
                }
            },
            PixelFormat::Bgr => {
                self.pixels[offset] = b;
                self.pixels[offset + 1] = g;
                self.pixels[offset + 2] = r;
                self.pixels[offset + 3] = 0;
                proof {
                    lemma_fill_point(v, x as int, y as int, (r, g, b));
                }
            },
            _ => {
                proof {
                    assert(v.fill(x as int, y as int, 1, 1, (r, g, b)) =~= v);
                }
            },
        }
    }

    /// The colour shown at (`x`, `y`); black off the screen or where the
    /// format cannot be read byte by byte.
    pub fn read_pixel(&self, x: usize, y: usize) -> (c: Rgb8)
        ensures
            c == self@.read(x as int, y as int),
    {
        proof {
            use_type_invariant(self);
        }
        if x >= self.width || y >= self.height {
            return (0, 0, 0);
        }
        proof {
            lemma_point_offset(self@, x as int, y as int);
        }
        assert(y * self.stride <= y * self.stride * 4);
        let offset = y * self.stride * 4 + x * 4;
        match self.pixel_format {
            PixelFormat::Rgb => (self.pixels[offset], self.pixels[offset + 1], self.pixels[offset + 2]),
            PixelFormat::Bgr => (self.pixels[offset + 2], self.pixels[offset + 1], self.pixels[offset]),
            _ => (0, 0, 0),
        }
    }

    /// Fills the rectangle at (`x`, `y`) of size `w` x `h`, pixel by pixel, row
    /// by row; the parts off the screen are skipped.
    pub fn draw_rect(&mut self, x: usize, y: usize, w: usize, h: usize, r: u8, g: u8, b: u8)
        requires
            w == 0 || h == 0 || (x + w <= usize::MAX + 1 && y + h <= usize::MAX + 1),
        ensures
            final(self)@ == old(self)@.fill(x as int, y as int, w as int, h as int, (r, g, b)),
            final(self)@.wf(),
    {
        proof {
            use_type_invariant(&*self);
        }
        let ghost v = self@;
        let ghost c: Rgb8 = (r, g, b);
        proof {
            lemma_repaint_nothing(v, rect_paint(x as int, y as int, w as int, 0, c));
        }
        for dy in 0..h
            invariant
                self@ == v.fill(x as int, y as int, w as int, dy as int, c),
                self@.wf(),
                c == (r, g, b),
                w == 0 || h == 0 || (x + w <= usize::MAX + 1 && y + h <= usize::MAX + 1),
        {
            proof {
                lemma_repaint_same(
                    v,
                    rect_paint(x as int, y as int, w as int, dy as int, c),
                    rows_then(x as int, y as int, w as int, dy as int, 0, c),
                );
            }
            for dx in 0..w
                invariant
                    self@ == v.repaint(rows_then(x as int, y as int, w as int, dy as int, dx as int, c)),
                    self@.wf(),
                    c == (r, g, b),
                    dy < h,
                    w == 0 || h == 0 || (x + w <= usize::MAX + 1 && y + h <= usize::MAX + 1),
            {
                let ghost before = self@;
                self.draw_pixel(x + dx, y + dy, r, g, b);
                proof {
                    let pt = rect_paint((x + dx) as int, (y + dy) as int, 1, 1, c);
                    let done = rows_then(x as int, y as int, w as int, dy as int, dx as int, c);
                    lemma_repaint_twice(v, done, pt);
                    lemma_repaint_same(
                        v,
                        overlay(done, pt),
                        rows_then(x as int, y as int, w as int, dy as int, dx + 1, c),
                    );
                }
            }
            proof {
                lemma_repaint_same(
                    v,
                    rows_then(x as int, y as int, w as int, dy as int, w as int, c),
                    rect_paint(x as int, y as int, w as int, dy + 1, c),
                );
            }
        }
    }

    /// Sets every visible pixel to the colour.
    pub fn clear(&mut self, r: u8, g: u8, b: u8)
        ensures
            final(self)@ == old(self)@.fill(0, 0, old(self)@.width as int, old(self)@.height as int, (r, g, b)),
            final(self)@.wf(),
    {
        proof {
            use_type_invariant(&*self);
        }
        let ghost v = self@;
        let ghost c: Rgb8 = (r, g, b);
        let width = self.width;
        let height = self.height;
        proof {
            lemma_repaint_nothing(v, rect_paint(0, 0, width as int, 0, c));
        }
        for y in 0..height
            invariant
                self@ == v.fill(0, 0, width as int, y as int, c),
                self@.wf(),
                c == (r, g, b),
        {
            proof {
                lemma_repaint_same(
                    v,
                    rect_paint(0, 0, width as int, y as int, c),
                    rows_then(0, 0, width as int, y as int, 0, c),
                );
            }
            for x in 0..width
                invariant
                    self@ == v.repaint(rows_then(0, 0, width as int, y as int, x as int, c)),
                    self@.wf(),
                    c == (r, g, b),
            {
                self.draw_pixel(x, y, r, g, b);
                proof {
                    let pt = rect_paint(x as int, y as int, 1, 1, c);
                    let done = rows_then(0, 0, width as int, y as int, x as int, c);
                    lemma_repaint_twice(v, done, pt);
                    lemma_repaint_same(v, overlay(done, pt), rows_then(0, 0, width as int, y as int, x + 1, c));
                }
            }
            proof {
                lemma_repaint_same(
                    v,
                    rows_then(0, 0, width as int, y as int, width as int, c),
                    rect_paint(0, 0, width as int, y + 1, c),
                );
            }
        }
    }
}

/// The first `dy` rows of the rectangle, then the first `dx` pixels of the next row.
pub open spec fn rows_then(x: int, y: int, w: int, dy: int, dx: int, color: Rgb8) -> spec_fn(int, int) -> Option<Rgb8> {
    |px: int, py: int|
        if (x <= px < x + w && y <= py < y + dy) || (py == y + dy && x <= px < x + dx) {
            Some(color)
        } else {
            None
        }
}

/// The four bytes of an on-screen pixel lie inside the buffer.
pub proof fn lemma_point_offset(v: FrameView, x: int, y: int)
    requires
        v.wf(),
        v.on_screen(x, y),
    ensures
        v.offset(x, y) + 4 <= v.mem.len(),
        v.offset(x, y) == y * v.stride * 4 + x * 4,
        v.stride > 0,
{
    assert(y * v.stride + x + 1 <= v.stride * v.height) by (nonlinear_arith)
        requires
            0 <= x < v.width <= v.stride,
            0 <= y < v.height,
    ;
    assert((y * v.stride + x) * 4 == y * v.stride * 4 + x * 4) by (nonlinear_arith);
}

/// Filling a single on-screen pixel writes its four bytes and nothing else.
proof fn lemma_fill_point(v: FrameView, x: int, y: int, color: Rgb8)
    requires
        v.wf(),
        v.on_screen(x, y),
        is_drawable(v.format),
    ensures
        ({
            let o = v.offset(x, y);
            v.fill(x, y, 1, 1, color).mem == v.mem.update(o, channel(v.format, color, 0)).update(
                o + 1,
                channel(v.format, color, 1),
            ).update(o + 2, channel(v.format, color, 2)).update(o + 3, 0)
        }),
{
    lemma_point_offset(v, x, y);
    let o = v.offset(x, y);
    let lhs = v.fill(x, y, 1, 1, color).mem;
    let rhs = v.mem.update(o, channel(v.format, color, 0)).update(o + 1, channel(v.format, color, 1)).update(
        o + 2,
        channel(v.format, color, 2),
    ).update(o + 3, 0);
    assert forall|i: int| 0 <= i < lhs.len() implies lhs[i] == rhs[i] by {
        lemma_pixel_of_byte(v.stride as int, x, y, i);
        if o <= i < o + 4 {
            assert(i % 4 == i - o);
        }
    }
    assert(lhs =~= rhs);
}

} // verus!

verus! {

/// Reading a pixel back after filling a rectangle that covers it gives the
/// fill colour, in every format that can be drawn on; a pixel outside the
/// rectangle reads as before.
pub proof fn lemma_read_after_fill(v: FrameView, x: int, y: int, w: int, h: int, color: Rgb8, px: int, py: int)
    requires
        v.wf(),
    ensures
        v.fill(x, y, w, h, color).wf(),
        is_drawable(v.format) && v.on_screen(px, py) && x <= px < x + w && y <= py < y + h
            ==> v.fill(x, y, w, h, color).read(px, py) == color,
        !(x <= px < x + w && y <= py < y + h) ==> v.fill(x, y, w, h, color).read(px, py) == v.read(px, py),
{
    lemma_read_after_repaint(v, rect_paint(x, y, w, h, color), px, py);
}

/// What a repaint leaves at one pixel: the painter's colour where it paints,
/// the old colour elsewhere.
pub proof fn lemma_read_after_repaint(v: FrameView, f: spec_fn(int, int) -> Option<Rgb8>, px: int, py: int)
    requires
        v.wf(),
    ensures
        v.repaint(f).wf(),
        f(px, py) is Some && is_drawable(v.format) && v.on_screen(px, py) ==> v.repaint(f).read(px, py)
            == f(px, py)->0,
        f(px, py) is None ==> v.repaint(f).read(px, py) == v.read(px, py),
{
    let n = v.repaint(f);
    if is_drawable(v.format) && v.on_screen(px, py) {
        lemma_point_offset(v, px, py);
        let o = v.offset(px, py);
        lemma_pixel_of_byte(v.stride as int, px, py, o);
        lemma_pixel_of_byte(v.stride as int, px, py, o + 1);
        lemma_pixel_of_byte(v.stride as int, px, py, o + 2);
        assert(v.col_of(o) == px && v.row_of(o) == py && o % 4 == 0);
        assert(v.col_of(o + 1) == px && v.row_of(o + 1) == py && (o + 1) % 4 == 1);
        assert(v.col_of(o + 2) == px && v.row_of(o + 2) == py && (o + 2) % 4 == 2);
    }
}

} // verus!
