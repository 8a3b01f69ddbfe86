use vstd::prelude::*;

use crate::common::Framebuffer;

verus! {

/// A 32-bit framebuffer pixel, laid out as blue, green, red and a reserved byte.
#[derive(Clone, Copy, PartialEq, Eq, Structural)]
pub struct Pixel {
    pub blue: u8,
    pub green: u8,
    pub red: u8,
    pub reserved: u8,
}

impl Pixel {
    /// A pixel of the given colour, with the reserved byte zero.
    pub fn new(red: u8, green: u8, blue: u8) -> (ret: Self)
        ensures
            ret.red == red,
            ret.green == green,
            ret.blue == blue,
            ret.reserved_byte() == 0,
    {
        Self { red, green, blue, reserved: 0 }
    }

    /// The reserved byte (always zero for pixels made by `new`).
    pub open spec fn reserved_byte(self) -> u8 {
        self.reserved
    }

    /// The pixel as the 32-bit word that the framebuffer stores: blue in the low
    /// byte, then green, red and the reserved byte.
    pub open spec fn word(self) -> u32 {
        (self.blue as u32) | ((self.green as u32) << 8u32) | ((self.red as u32) << 16u32)
            | ((self.reserved as u32) << 24u32)
    }
}

impl From<Pixel> for u32 {
    fn from(color: Pixel) -> (ret: u32) {
        (color.blue as u32) | ((color.green as u32) << 8u32) | ((color.red as u32) << 16u32) | ((
        color.reserved as u32) << 24u32)
    }
}

impl vstd::std_specs::convert::FromSpecImpl<Pixel> for u32 {
    open spec fn obeys_from_spec() -> bool {
        true
    }

    open spec fn from_spec(v: Pixel) -> u32 {
        v.word()
    }
}

/// An axis-aligned rectangle of pixels: its top-left corner and its size.
#[derive(Clone, Copy)]
pub struct Rect {
    pub x: usize,
    pub y: usize,
    pub width: usize,
    pub height: usize,
}

impl Rect {
    pub fn new(x: usize, y: usize, width: usize, height: usize) -> (ret: Self)
        ensures
            ret.x == x,
            ret.y == y,
            ret.width == width,
            ret.height == height,
    {
        Rect { x, y, width, height }
    }
}

/// A point on the screen.
pub struct Point {
    pub x: usize,
    pub y: usize,
}

impl Point {
    pub fn new(x: usize, y: usize) -> (ret: Self)
        ensures
            ret.x == x,
            ret.y == y,
    {
        Self { x, y }
    }
}

/// A horizontal or vertical line, from its start point, of some length.
pub enum Line {
    HorizontalLine { x: usize, y: usize, length: usize },
    VerticalLine { x: usize, y: usize, length: usize },
}

impl Line {
    pub fn new_horizontal(x: usize, y: usize, length: usize) -> (ret: Self)
        ensures
            ret == (Line::HorizontalLine { x, y, length }),
    {
        Line::HorizontalLine { x, y, length }
    }

    pub fn new_vertical(x: usize, y: usize, length: usize) -> (ret: Self)
        ensures
            ret == (Line::VerticalLine { x, y, length }),
    {
        Line::VerticalLine { x, y, length }
    }
}

/// The index of pixel (`x`, `y`) in a buffer whose rows are `stride` pixels apart.
pub open spec fn pixel_index(y: int, x: int, stride: int) -> int {
    y * stride + x
}

/// Index `i` is the index of a pixel with `y0 <= y < y1` and `x0 <= x < x1`.
pub open spec fn in_block(i: int, y0: int, y1: int, x0: int, x1: int, stride: int) -> bool {
    exists|y: int, x: int| y0 <= y < y1 && x0 <= x < x1 && i == #[trigger] pixel_index(y, x, stride)
}

/// The buffer `b` is `a` with every pixel of the block set to `color`.
pub open spec fn block_filled<T>(b: Seq<T>, a: Seq<T>, y0: int, y1: int, x0: int, x1: int, stride: int, color: T) -> bool {
    &&& b.len() == a.len()
    &&& forall|i: int| 0 <= i < b.len() ==> #[trigger] b[i] == (if in_block(i, y0, y1, x0, x1, stride) { color } else { a[i] })
}

/// Every pixel of the block lies in a buffer of `len` pixels.
pub open spec fn block_fits(y0: int, y1: int, x0: int, x1: int, stride: int, len: int) -> bool {
    y0 < y1 && x0 < x1 ==> (y1 - 1) * stride + (x1 - 1) < len
}

proof fn lemma_block_index_bound(y: int, x: int, y0: int, y1: int, x0: int, x1: int, stride: int)
    requires
        y0 <= y < y1,
        x0 <= x < x1,
        stride >= 0,
        y0 >= 0,
        x0 >= 0,
    ensures
        0 <= pixel_index(y, x, stride) <= (y1 - 1) * stride + (x1 - 1),
{
    assert(y * stride <= (y1 - 1) * stride) by (nonlinear_arith)
        requires
            y <= y1 - 1,
            stride >= 0,
    ;
    assert(0 <= y * stride) by (nonlinear_arith)
        requires
            y >= 0,
            stride >= 0,
    ;
}

proof fn lemma_block_extend_column(i: int, y: int, x0: int, x: int, stride: int)
    ensures
        in_block(i, y, y + 1, x0, x + 1, stride) <==> (in_block(i, y, y + 1, x0, x, stride) || (x0 <= x
            && i == pixel_index(y, x, stride))),
{
    if in_block(i, y, y + 1, x0, x + 1, stride) {
        let (yy, xx) = choose|yy: int, xx: int|
            y <= yy < y + 1 && x0 <= xx < x + 1 && i == #[trigger] pixel_index(yy, xx, stride);
        if xx < x {
            assert(y <= yy < y + 1 && x0 <= xx < x && i == pixel_index(yy, xx, stride));
        }
    }
    if x0 <= x && i == pixel_index(y, x, stride) {
        assert(y <= y < y + 1 && x0 <= x < x + 1 && i == pixel_index(y, x, stride));
    }
    if in_block(i, y, y + 1, x0, x, stride) {
        let (yy, xx) = choose|yy: int, xx: int|
            y <= yy < y + 1 && x0 <= xx < x && i == #[trigger] pixel_index(yy, xx, stride);
        assert(y <= yy < y + 1 && x0 <= xx < x + 1 && i == pixel_index(yy, xx, stride));
    }
}

proof fn lemma_block_extend_row(i: int, y0: int, y: int, x0: int, x1: int, stride: int)
    requires
        y0 <= y,
    ensures
        in_block(i, y0, y + 1, x0, x1, stride) <==> (in_block(i, y0, y, x0, x1, stride) || in_block(
            i,
            y,
            y + 1,
            x0,
            x1,
            stride,
        )),
{
    if in_block(i, y0, y + 1, x0, x1, stride) {
        let (yy, xx) = choose|yy: int, xx: int|
            y0 <= yy < y + 1 && x0 <= xx < x1 && i == #[trigger] pixel_index(yy, xx, stride);
        if yy < y {
            assert(y0 <= yy < y && x0 <= xx < x1 && i == pixel_index(yy, xx, stride));
        } else {
            assert(y <= yy < y + 1 && x0 <= xx < x1 && i == pixel_index(yy, xx, stride));
        }
    }
    if in_block(i, y0, y, x0, x1, stride) {
        let (yy, xx) = choose|yy: int, xx: int|
            y0 <= yy < y && x0 <= xx < x1 && i == #[trigger] pixel_index(yy, xx, stride);
        assert(y0 <= yy < y + 1 && x0 <= xx < x1 && i == pixel_index(yy, xx, stride));
    }
    if in_block(i, y, y + 1, x0, x1, stride) {
        let (yy, xx) = choose|yy: int, xx: int|
            y <= yy < y + 1 && x0 <= xx < x1 && i == #[trigger] pixel_index(yy, xx, stride);
        assert(y0 <= yy < y + 1 && x0 <= xx < x1 && i == pixel_index(yy, xx, stride));
    }
}

proof fn lemma_block_empty(i: int, y0: int, x0: int, x1: int, stride: int)
    ensures
        !in_block(i, y0, y0, x0, x1, stride),
        !in_block(i, y0, y0 + 1, x0, x0, stride),
{
}

/// Sets every element of the block of rows `y0..y1` and columns `x0..x1` of a buffer
/// whose rows are `stride` elements apart to `color`.
pub fn fill_block<T: Copy>(buf: &mut Vec<T>, stride: usize, y0: usize, y1: usize, x0: usize, x1: usize, color: T)
    requires
        block_fits(y0 as int, y1 as int, x0 as int, x1 as int, stride as int, old(buf)@.len() as int),
    ensures
        block_filled(final(buf)@, old(buf)@, y0 as int, y1 as int, x0 as int, x1 as int, stride as int, color),
{
    let ghost a = buf@;
    let ghost st = stride as int;
    let mut y = y0;
    while y < y1
        invariant
            y0 <= y <= y1 || (y == y0 && y1 < y0),
            st == stride,
            a == old(buf)@,
            block_fits(y0 as int, y1 as int, x0 as int, x1 as int, st, a.len() as int),
            block_filled(buf@, a, y0 as int, y as int, x0 as int, x1 as int, st, color),
        decreases y1 - y,
    {
        let mut x = x0;
        while x < x1
            invariant
                y0 <= y < y1,
                x0 <= x <= x1 || (x == x0 && x1 < x0),
                st == stride,
                a == old(buf)@,
                block_fits(y0 as int, y1 as int, x0 as int, x1 as int, st, a.len() as int),
                buf@.len() == a.len(),
                forall|i: int| 0 <= i < a.len() ==> #[trigger] buf@[i] == (if in_block(i, y0 as int, y as int, x0 as int, x1 as int, st)
                    || in_block(i, y as int, y + 1, x0 as int, x as int, st) { color } else { a[i] }),
            decreases x1 - x,
        {
            proof {
                lemma_block_index_bound(y as int, x as int, y0 as int, y1 as int, x0 as int, x1 as int, st);
            }
            let len = buf.len();
            assert(pixel_index(y as int, x as int, st) < len);
            assert(y * stride <= pixel_index(y as int, x as int, st));
            let j = y * stride + x;
            let ghost before = buf@;
            buf.set(j, color);
            proof {
                assert forall|i: int| 0 <= i < a.len() implies #[trigger] buf@[i] == (if in_block(i, y0 as int, y as int, x0 as int, x1 as int, st)
                    || in_block(i, y as int, y + 1, x0 as int, x + 1, st) { color } else { a[i] }) by {
                    lemma_block_extend_column(i, y as int, x0 as int, x as int, st);
                    assert(before[i] == (if in_block(i, y0 as int, y as int, x0 as int, x1 as int, st)
                        || in_block(i, y as int, y + 1, x0 as int, x as int, st) { color } else { a[i] }));
                }
            }
            x = x + 1;
        }
        proof {
            assert forall|i: int| 0 <= i < a.len() implies #[trigger] buf@[i] == (if in_block(i, y0 as int, y + 1, x0 as int, x1 as int, st) { color } else { a[i] }) by {
                lemma_block_extend_row(i, y0 as int, y as int, x0 as int, x1 as int, st);
                if x1 < x0 {
                    lemma_block_empty(i, y as int, x0 as int, x1 as int, st);
                    assert(!in_block(i, y as int, y + 1, x0 as int, x1 as int, st));
                }
            }
        }
        y = y + 1;
    }
    proof {
        if y1 < y0 {
            assert forall|i: int| 0 <= i < a.len() implies #[trigger] buf@[i] == (if in_block(i, y0 as int, y1 as int, x0 as int, x1 as int, st) { color } else { a[i] }) by {
                lemma_block_empty(i, y0 as int, x0 as int, x1 as int, st);
                assert(!in_block(i, y0 as int, y1 as int, x0 as int, x1 as int, st));
            }
        }
    }
}


/// The screen: the framebuffer's address and geometry, and a buffer of pixels that
/// drawing fills and that `write_buffer` hands out.
pub struct Graphics {
    addr: usize,
    resolution: (usize, usize),
    stride: usize,
    pixel_buffer: Vec<Pixel>,
}

impl Graphics {
    /// The pixel buffer holds `stride` pixels for each row of the screen.
    pub closed spec fn wf(&self) -> bool {
        self.pixel_buffer@.len() == self.stride * self.resolution.1
    }

    pub closed spec fn spec_addr(&self) -> usize {
        self.addr
    }

    pub closed spec fn spec_resolution(&self) -> (usize, usize) {
        self.resolution
    }

    pub closed spec fn spec_stride(&self) -> usize {
        self.stride
    }

    /// The pixels drawn so far.
    pub closed spec fn pixels(&self) -> Seq<Pixel> {
        self.pixel_buffer@
    }

    /// Sets every pixel of the block `y0..y1` by `x0..x1` to `color`.
    fn fill_block(&mut self, y0: usize, y1: usize, x0: usize, x1: usize, color: Pixel)
        requires
            block_fits(y0 as int, y1 as int, x0 as int, x1 as int, old(self).stride as int, old(self).pixel_buffer@.len() as int),
        ensures
            final(self).addr == old(self).addr,
            final(self).resolution == old(self).resolution,
            final(self).stride == old(self).stride,
            old(self).wf() ==> final(self).wf(),
            block_filled(final(self).pixel_buffer@, old(self).pixel_buffer@, y0 as int, y1 as int, x0 as int, x1 as int,
                old(self).stride as int, color),
    {
        fill_block(&mut self.pixel_buffer, self.stride, y0, y1, x0, x1, color);
    }

    /// Fills `rect` with `color`.
    pub fn draw_rect(&mut self, rect: Rect, color: Pixel)
        requires
            rect.y + rect.height <= usize::MAX,
            rect.x + rect.width <= usize::MAX,
            block_fits(rect.y as int, rect.y + rect.height, rect.x as int, rect.x + rect.width,
                old(self).spec_stride() as int, old(self).pixels().len() as int),
        ensures
            final(self).spec_addr() == old(self).spec_addr(),
            final(self).spec_resolution() == old(self).spec_resolution(),
            final(self).spec_stride() == old(self).spec_stride(),
            old(self).wf() ==> final(self).wf(),
            block_filled(final(self).pixels(), old(self).pixels(), rect.y as int, rect.y + rect.height, rect.x as int,
                rect.x + rect.width, old(self).spec_stride() as int, color),
    {
        self.fill_block(rect.y, rect.y + rect.height, rect.x, rect.x + rect.width, color);
    }

    /// Draws `line` with the given thickness: a horizontal line covers the rows from
    /// `width / 2` above its start to `(width + 1) / 2` below, a vertical line the
    /// columns likewise around its start.
    pub fn draw_line(&mut self, line: Line, width: usize, color: Pixel)
        requires
            line_drawable(line, width, old(self).spec_stride() as int, old(self).pixels().len() as int),
        ensures
            final(self).spec_addr() == old(self).spec_addr(),
            final(self).spec_resolution() == old(self).spec_resolution(),
            final(self).spec_stride() == old(self).spec_stride(),
            old(self).wf() ==> final(self).wf(),
            ({
                let (y0, y1, x0, x1) = line_block(line, width);
                block_filled(final(self).pixels(), old(self).pixels(), y0, y1, x0, x1, old(self).spec_stride() as int, color)
            }),
    {
        match line {
            Line::HorizontalLine { x, y, length } => {
                self.fill_block(y - width / 2, y + (width + 1) / 2, x, x + length, color);
            },
            Line::VerticalLine { x, y, length } => {
                self.fill_block(y, y + length, x - width / 2, x + (width + 1) / 2, color);
            },
        }
    }

    /// The pixel buffer's first `stride * height` pixels as framebuffer words: what
    /// `draw` copies to the screen.
    pub fn write_buffer(&self) -> (ret: Vec<u32>)
        requires
            self.wf(),
        ensures
            ret@.len() == self.pixels().len(),
            ret@.len() == self.spec_stride() * self.spec_resolution().1,
            forall|i: int| 0 <= i < ret@.len() ==> #[trigger] ret@[i] == self.pixels()[i].word(),
    {
        let n = self.pixel_buffer.len();
        let mut out: Vec<u32> = Vec::new();
        let mut i: usize = 0;
        while i < n
            invariant
                n == self.pixel_buffer@.len(),
                i <= n,
                out@.len() == i,
                forall|k: int| 0 <= k < i ==> #[trigger] out@[k] == self.pixel_buffer@[k].word(),
            decreases n - i,
        {
            let p = self.pixel_buffer[i];
            out.push(u32::from(p));
            i = i + 1;
        }
        out
    }
}

/// The rows and columns that `draw_line` fills: `(y0, y1, x0, x1)`.
pub open spec fn line_block(line: Line, width: usize) -> (int, int, int, int) {
    match line {
        Line::HorizontalLine { x, y, length } => (y - width / 2, y + (width + 1) / 2, x as int, x + length),
        Line::VerticalLine { x, y, length } => (y as int, y + length, x - width / 2, x + (width + 1) / 2),
    }
}

proof fn lemma_pixel_index_unique(y1: int, x1: int, y2: int, x2: int, stride: int)
    requires
        stride > 0,
        0 <= x1 < stride,
        0 <= x2 < stride,
        pixel_index(y1, x1, stride) == pixel_index(y2, x2, stride),
    ensures
        y1 == y2,
        x1 == x2,
{
    if y1 < y2 {
        assert(y1 * stride + stride <= y2 * stride) by (nonlinear_arith)
            requires
                y1 < y2,
                stride > 0,
        ;
    } else if y2 < y1 {
        assert(y2 * stride + stride <= y1 * stride) by (nonlinear_arith)
            requires
                y2 < y1,
                stride > 0,
        ;
    }
}

/// What `draw_line` leaves in the buffer (its postcondition `block_filled` over
/// `line_block`), in terms of the line itself: a horizontal line of length `n` at
/// (`x`, `y`) colours columns `x` to `x + n - 1` of its rows and no other column of
/// them; a vertical one colours rows `y` to `y + n - 1` of its columns and no other
/// row of them. The line's own row (column) is among those coloured when the width is
/// at least one.
pub proof fn lemma_line_pixels<T>(line: Line, width: usize, b: Seq<T>, a: Seq<T>, stride: int, color: T)
    requires
        stride > 0,
        width >= 1,
        ({
            let (y0, y1, x0, x1) = line_block(line, width);
            block_filled(b, a, y0, y1, x0, x1, stride, color) && 0 <= x0 && x1 <= stride && 0 <= y0
        }),
    ensures
        line matches Line::HorizontalLine { x, y, length } ==> {
            &&& forall|c: int| x <= c < x + length && pixel_index(y as int, c, stride) < b.len() ==> #[trigger] b[pixel_index(
                y as int, c, stride)] == color
            &&& forall|c: int| 0 <= c < stride && (c < x || c >= x + length) && 0 <= pixel_index(y as int, c, stride) < b.len()
                ==> #[trigger] b[pixel_index(y as int, c, stride)] == a[pixel_index(y as int, c, stride)]
        },
        line matches Line::VerticalLine { x, y, length } ==> {
            &&& forall|r: int| y <= r < y + length && pixel_index(r, x as int, stride) < b.len() ==> #[trigger] b[pixel_index(
                r, x as int, stride)] == color
            &&& forall|r: int| (r < y || r >= y + length) && 0 <= pixel_index(r, x as int, stride) < b.len() ==> #[trigger] b[
                pixel_index(r, x as int, stride)] == a[pixel_index(r, x as int, stride)]
        },
{
    let (y0, y1, x0, x1) = line_block(line, width);
    match line {
        Line::HorizontalLine { x, y, length } => {
            assert forall|c: int| x <= c < x + length && pixel_index(y as int, c, stride) < b.len() implies #[trigger] b[
                pixel_index(y as int, c, stride)] == color by {
                let i = pixel_index(y as int, c, stride);
                assert(0 <= i) by (nonlinear_arith)
                    requires
                        i == y * stride + c,
                        y >= 0,
                        stride > 0,
                        c >= 0,
                ;
                assert(in_block(i, y0, y1, x0, x1, stride));
            }
            assert forall|c: int| 0 <= c < stride && (c < x || c >= x + length) && 0 <= pixel_index(y as int, c, stride)
                < b.len() implies #[trigger] b[pixel_index(y as int, c, stride)] == a[pixel_index(y as int, c, stride)] by {
                let i = pixel_index(y as int, c, stride);
                if in_block(i, y0, y1, x0, x1, stride) {
                    let (yy, xx) = choose|yy: int, xx: int| y0 <= yy < y1 && x0 <= xx < x1 && i == #[trigger] pixel_index(
                        yy, xx, stride);
                    lemma_pixel_index_unique(y as int, c, yy, xx, stride);
                }
            }
        },
        Line::VerticalLine { x, y, length } => {
            assert forall|r: int| y <= r < y + length && pixel_index(r, x as int, stride) < b.len() implies #[trigger] b[
                pixel_index(r, x as int, stride)] == color by {
                let i = pixel_index(r, x as int, stride);
                assert(0 <= i) by (nonlinear_arith)
                    requires
                        i == r * stride + x,
                        r >= 0,
                        stride > 0,
                        x >= 0,
                ;
                assert(in_block(i, y0, y1, x0, x1, stride));
            }
            assert forall|r: int| (r < y || r >= y + length) && 0 <= pixel_index(r, x as int, stride) < b.len() implies #[trigger] b[
                pixel_index(r, x as int, stride)] == a[pixel_index(r, x as int, stride)] by {
                let i = pixel_index(r, x as int, stride);
                if in_block(i, y0, y1, x0, x1, stride) {
                    let (yy, xx) = choose|yy: int, xx: int| y0 <= yy < y1 && x0 <= xx < x1 && i == #[trigger] pixel_index(
                        yy, xx, stride);
                    lemma_pixel_index_unique(r, x as int, yy, xx, stride);
                }
            }
        },
    }
}

/// `draw_line` can draw `line`: the line's block starts at or after the origin, its
/// end fits in a `usize`, and the block lies in the buffer.
pub open spec fn line_drawable(line: Line, width: usize, stride: int, len: int) -> bool {
    let (y0, y1, x0, x1) = line_block(line, width);
    &&& width < usize::MAX
    &&& 0 <= y0 && y1 <= usize::MAX
    &&& 0 <= x0 && x1 <= usize::MAX
    &&& block_fits(y0, y1, x0, x1, stride, len)
}

/// The screen state for a framebuffer: its geometry, and a black pixel buffer of
/// `stride * height` pixels.
pub fn init(framebuffer: Framebuffer) -> (ret: Graphics)
    requires
        framebuffer.stride * framebuffer.resolution_y <= usize::MAX,
    ensures
        ret.spec_addr() == framebuffer.ptr,
        ret.spec_resolution() == (framebuffer.resolution_x, framebuffer.resolution_y),
        ret.spec_stride() == framebuffer.stride,
        ret.wf(),
        ret.pixels().len() == framebuffer.stride * framebuffer.resolution_y,
        forall|i: int| 0 <= i < ret.pixels().len() ==> #[trigger] ret.pixels()[i] == Pixel::new_spec(0, 0, 0),
{
    let n = framebuffer.stride * framebuffer.resolution_y;
    let mut pixel_buffer: Vec<Pixel> = Vec::new();
    let mut i: usize = 0;
    while i < n
        invariant
            i <= n,
            pixel_buffer@.len() == i,
            forall|k: int| 0 <= k < i ==> #[trigger] pixel_buffer@[k] == Pixel::new_spec(0, 0, 0),
        decreases n - i,
    {
        pixel_buffer.push(Pixel::new(0, 0, 0));
        i = i + 1;
    }
    Graphics { addr: framebuffer.ptr, resolution: framebuffer.resolution(), stride: framebuffer.stride, pixel_buffer }
}

impl Pixel {
    /// The pixel that `new` makes.
    pub open spec fn new_spec(red: u8, green: u8, blue: u8) -> Pixel {
        Pixel { red, green, blue, reserved: 0 }
    }
}

/// The words that `draw` hands out for a screen state: its pixel buffer as
/// framebuffer words.
pub open spec fn screen_words(g: Graphics) -> Seq<u32> {
    Seq::new(g.pixels().len(), |i: int| g.pixels()[i].word())
}

/// Runs `func` on the screen state, then hands out the pixel words to copy to the
/// framebuffer (see `write_buffer`). A screen state whose buffer does not match its
/// geometry, which the library never makes, gives no words.
pub fn draw<F: FnOnce(&mut Graphics)>(graphics: &mut Graphics, func: F) -> (ret: Vec<u32>)
    requires
        forall|g: &mut Graphics| call_requires(func, (g,)),
    ensures
        exists|g: &mut Graphics| #[trigger] call_ensures(func, (g,), ()) && *g == *old(graphics) && *final(g) == *final(
            graphics),
        ret@ == (if final(graphics).wf() { screen_words(*final(graphics)) } else { Seq::empty() }),
{
    func(graphics);
    let len = graphics.pixel_buffer.len();
    let fits = match graphics.stride.checked_mul(graphics.resolution.1) {
        Some(n) => n == len,
        None => false,
    };
    if fits {
        let ret = graphics.write_buffer();
        assert(ret@ =~= screen_words(*graphics));
        ret
    } else {
        Vec::new()
    }
}

} // verus!
