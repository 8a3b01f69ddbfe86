use vstd::prelude::*;

use super::Framebuffer;
use super::text::{FONT_LEN, draw_glyph, glyph_drawn, glyph_fits};
use crate::kernel::graphics::{block_filled, block_fits, fill_block};

verus! {

/// The pixels after scrolling the screen up by one row of text (16 pixel rows):
/// each visible pixel takes the one 16 rows below it, the bottom 16 rows turn
/// black, and the pixels right of the visible width stay.
pub open spec fn scrolled(p: Seq<u32>, stride: int, res_x: int, res_y: int) -> Seq<u32> {
    Seq::new(
        p.len(),
        |i: int|
            {
                let y = i / stride;
                let x = i % stride;
                if x < res_x && y < res_y - 16 {
                    p[i + 16 * stride]
                } else if x < res_x && y < res_y {
                    0u32
                } else {
                    p[i]
                }
            },
    )
}

/// The pixels and cursor after writing `c` on a scrolling console whose screen is
/// `size.0` rows by `size.1` columns of characters.
pub open spec fn console_step(
    p: Seq<u32>,
    cursor: (usize, usize),
    font: Seq<u8>,
    fb: Framebuffer,
    size: (usize, usize),
    c: char,
) -> (Seq<u32>, (usize, usize)) {
    let (cy, cx) = cursor;
    let (q, k) = if c == '\n' {
        (p, ((cy + 1) as usize, 0usize))
    } else if (c as u32) < 32 {
        (p, cursor)
    } else {
        let q = glyph_drawn(p, font, c as int, cy as int, cx as int, fb.stride as int);
        if cx + 1 >= size.1 {
            (q, ((cy + 1) as usize, 0usize))
        } else {
            (q, (cy, (cx + 1) as usize))
        }
    };
    if k.0 >= size.0 {
        (scrolled(q, fb.stride as int, fb.resolution_x as int, fb.resolution_y as int), ((k.0 - 1) as usize, k.1))
    } else {
        (q, k)
    }
}

/// Scrolling is possible: the screen is at least one text row high, rows are at
/// least as wide as the visible width, and the buffer covers the screen.
pub open spec fn scroll_ok(len: int, fb: Framebuffer) -> bool {
    &&& fb.resolution_y >= 16
    &&& fb.resolution_x <= fb.stride
    &&& len == fb.stride * fb.resolution_y
}

/// `c` can be written at `cursor` without a failed index or an overflow.
pub open spec fn console_char_fits(len: int, cursor: (usize, usize), fb: Framebuffer, size: (usize, usize), c: char) -> bool {
    let (cy, cx) = cursor;
    let k = if c == '\n' {
        ((cy + 1) as usize, 0usize)
    } else if (c as u32) < 32 {
        cursor
    } else if cx + 1 >= size.1 {
        ((cy + 1) as usize, 0usize)
    } else {
        (cy, (cx + 1) as usize)
    };
    &&& (c as u32) < 128
    &&& cy + 1 <= usize::MAX
    &&& cx + 1 <= usize::MAX
    &&& (c as u32) >= 32 ==> glyph_fits(len, cy as int, cx as int, fb.stride as int)
    &&& k.0 >= size.0 ==> k.0 >= 1 && scroll_ok(len, fb)
}

/// The pixels and cursor after writing `cs` in turn.
pub open spec fn console_after(p: Seq<u32>, cursor: (usize, usize), font: Seq<u8>, fb: Framebuffer, size: (usize, usize), cs: Seq<char>) -> (
    Seq<u32>,
    (usize, usize),
)
    decreases cs.len(),
{
    if cs.len() == 0 {
        (p, cursor)
    } else {
        let (q, k) = console_after(p, cursor, font, fb, size, cs.drop_last());
        console_step(q, k, font, fb, size, cs.last())
    }
}

/// Every character of `cs` can be written in turn.
pub open spec fn console_fits(p: Seq<u32>, cursor: (usize, usize), font: Seq<u8>, fb: Framebuffer, size: (usize, usize), cs: Seq<char>) -> bool
    decreases cs.len(),
{
    if cs.len() == 0 {
        true
    } else {
        let (q, k) = console_after(p, cursor, font, fb, size, cs.drop_last());
        console_fits(p, cursor, font, fb, size, cs.drop_last()) && console_char_fits(q.len() as int, k, fb, size, cs.last())
    }
}

/// The console that the kernel prints on: the framebuffer, the cursor (row,
/// column), the screen size in characters, the framebuffer's pixels and the font.
pub struct Writer {
    framebuffer: Framebuffer,
    cursor: (usize, usize),
    char_size: (usize, usize),
    pixels: Vec<u32>,
    font: Vec<u8>,
}

impl Writer {
    pub closed spec fn spec_framebuffer(&self) -> Framebuffer {
        self.framebuffer
    }

    pub closed spec fn spec_cursor(&self) -> (usize, usize) {
        self.cursor
    }

    pub closed spec fn spec_char_size(&self) -> (usize, usize) {
        self.char_size
    }

    pub closed spec fn pixels(&self) -> Seq<u32> {
        self.pixels@
    }

    pub closed spec fn font(&self) -> Seq<u8> {
        self.font@
    }

    pub open spec fn wf(&self) -> bool {
        &&& self.font().len() == FONT_LEN
        &&& self.pixels().len() == self.spec_framebuffer().stride * self.spec_framebuffer().resolution_y
    }

    /// The state after writing `cs`.
    pub open spec fn after(&self, cs: Seq<char>) -> (Seq<u32>, (usize, usize)) {
        console_after(self.pixels(), self.spec_cursor(), self.font(), self.spec_framebuffer(), self.spec_char_size(), cs)
    }

    /// `cs` can be written.
    pub open spec fn fits(&self, cs: Seq<char>) -> bool {
        console_fits(self.pixels(), self.spec_cursor(), self.font(), self.spec_framebuffer(), self.spec_char_size(), cs)
    }

    /// The framebuffer that the console draws on.
    pub fn framebuffer(&self) -> (ret: Framebuffer)
        ensures
            ret == self.spec_framebuffer(),
    {
        self.framebuffer
    }

    /// The framebuffer's pixels, for copying to the screen.
    pub fn pixel_words(&self) -> (ret: &Vec<u32>)
        ensures
            ret@ == self.pixels(),
    {
        &self.pixels
    }

    /// A console on `framebuffer`: the screen holds `height / 16` rows of
    /// `width / 8` characters, the cursor is at the top left, the screen black.
    pub fn init(framebuffer: Framebuffer, font: Vec<u8>) -> (ret: Writer)
        requires
            font@.len() == FONT_LEN,
            framebuffer.stride * framebuffer.resolution_y <= usize::MAX,
        ensures
            ret.wf(),
            ret.spec_framebuffer() == framebuffer,
            ret.spec_cursor() == (0usize, 0usize),
            ret.spec_char_size() == ((framebuffer.resolution_y / 16) as usize, (framebuffer.resolution_x / 8) as usize),
            ret.font() == font@,
            forall|i: int| 0 <= i < ret.pixels().len() ==> #[trigger] ret.pixels()[i] == 0,
    {
        let n = framebuffer.stride * framebuffer.resolution_y;
        let mut pixels: Vec<u32> = Vec::new();
        let mut i: usize = 0;
        while i < n
            invariant
                i <= n,
                pixels@.len() == i,
                forall|k: int| 0 <= k < i ==> #[trigger] pixels@[k] == 0,
            decreases n - i,
        {
            pixels.push(0);
            i = i + 1;
        }
        Writer {
            char_size: (framebuffer.resolution_y / 16, framebuffer.resolution_x / 8),
            framebuffer,
            cursor: (0, 0),
            pixels,
            font,
        }
    }

    /// Points the console at a framebuffer at another address.
    pub fn update_ptr(&mut self, ptr: usize)
        ensures
            final(self).spec_framebuffer() == (Framebuffer { ptr, ..old(self).spec_framebuffer() }),
            final(self).spec_cursor() == old(self).spec_cursor(),
            final(self).spec_char_size() == old(self).spec_char_size(),
            final(self).pixels() == old(self).pixels(),
            final(self).font() == old(self).font(),
    {
        self.framebuffer.ptr = ptr;
    }

    /// Blacks out the visible part of the screen; the cursor stays.
    pub fn clear(&mut self)
        requires
            block_fits(0, old(self).spec_framebuffer().resolution_y as int, 0, old(self).spec_framebuffer().resolution_x as int,
                old(self).spec_framebuffer().stride as int, old(self).pixels().len() as int),
        ensures
            final(self).spec_framebuffer() == old(self).spec_framebuffer(),
            final(self).spec_cursor() == old(self).spec_cursor(),
            final(self).spec_char_size() == old(self).spec_char_size(),
            final(self).font() == old(self).font(),
            block_filled(final(self).pixels(), old(self).pixels(), 0, old(self).spec_framebuffer().resolution_y as int, 0,
                old(self).spec_framebuffer().resolution_x as int, old(self).spec_framebuffer().stride as int, 0u32),
    {
        let mut pixels = Vec::new();
        std::mem::swap(&mut pixels, &mut self.pixels);
        fill_block(&mut pixels, self.framebuffer.stride, 0, self.framebuffer.resolution_y, 0, self.framebuffer.resolution_x, 0u32);
        self.pixels = pixels;
    }

    /// Scrolls the screen up by one row of text and moves the cursor up a row.
    pub fn scroll(&mut self)
        requires
            scroll_ok(old(self).pixels().len() as int, old(self).spec_framebuffer()),
            old(self).spec_cursor().0 >= 1,
        ensures
            final(self).spec_framebuffer() == old(self).spec_framebuffer(),
            final(self).spec_char_size() == old(self).spec_char_size(),
            final(self).font() == old(self).font(),
            final(self).pixels() == scrolled(old(self).pixels(), old(self).spec_framebuffer().stride as int,
                old(self).spec_framebuffer().resolution_x as int, old(self).spec_framebuffer().resolution_y as int),
            final(self).spec_cursor() == ((old(self).spec_cursor().0 - 1) as usize, old(self).spec_cursor().1),
    {
        let pixels = scroll_pixels(&self.pixels, self.framebuffer.stride, self.framebuffer.resolution_x, self.framebuffer.resolution_y);
        self.pixels = pixels;
        self.cursor.0 = self.cursor.0 - 1;
    }

    /// Writes `c`: a newline moves to the next row, other control characters do
    /// nothing, any other character is drawn and the cursor moves on, wrapping at
    /// the end of the row; past the last row the screen scrolls.
    pub fn write_char(&mut self, c: char)
        requires
            old(self).wf(),
            console_char_fits(old(self).pixels().len() as int, old(self).spec_cursor(), old(self).spec_framebuffer(),
                old(self).spec_char_size(), c),
        ensures
            final(self).wf(),
            final(self).spec_framebuffer() == old(self).spec_framebuffer(),
            final(self).spec_char_size() == old(self).spec_char_size(),
            final(self).font() == old(self).font(),
            (final(self).pixels(), final(self).spec_cursor()) == console_step(old(self).pixels(), old(self).spec_cursor(),
                old(self).font(), old(self).spec_framebuffer(), old(self).spec_char_size(), c),
    {
        let (cy, cx) = self.cursor;
        if c == '\n' {
            self.cursor = (cy + 1, 0);
        } else if (c as u32) < 32 {
        } else {
            let mut pixels = Vec::new();
            std::mem::swap(&mut pixels, &mut self.pixels);
            draw_glyph(&mut pixels, &self.font, c as usize, cy, cx, self.framebuffer.stride);
            self.pixels = pixels;
            self.cursor.1 = self.cursor.1 + 1;
            if self.cursor.1 >= self.char_size.1 {
                self.cursor.1 = 0;
                self.cursor.0 = self.cursor.0 + 1;
            }
        }
        if self.cursor.0 >= self.char_size.0 {
            self.scroll();
        }
    }

    /// Writes the characters of `s` in turn.
    pub fn write_str(&mut self, s: &str)
        requires
            old(self).wf(),
            old(self).fits(s@),
        ensures
            final(self).wf(),
            final(self).spec_framebuffer() == old(self).spec_framebuffer(),
            final(self).spec_char_size() == old(self).spec_char_size(),
            final(self).font() == old(self).font(),
            (final(self).pixels(), final(self).spec_cursor()) == old(self).after(s@),
    {
        let cs = crate::bootloader::writer::chars_of(s);
        let ghost p0 = self.pixels@;
        let ghost k0 = self.cursor;
        let mut i: usize = 0;
        while i < cs.len()
            invariant
                i <= cs@.len(),
                cs@ == s@,
                self.wf(),
                self.framebuffer == old(self).framebuffer,
                self.char_size == old(self).char_size,
                self.font@ == old(self).font@,
                p0 == old(self).pixels@,
                k0 == old(self).cursor,
                console_fits(p0, k0, self.font@, self.framebuffer, self.char_size, cs@),
                (self.pixels@, self.cursor) == console_after(p0, k0, self.font@, self.framebuffer, self.char_size, cs@.take(i as int)),
            decreases cs@.len() - i,
        {
            proof {
                lemma_console_fits_prefix(p0, k0, self.font@, self.framebuffer, self.char_size, cs@, i as int + 1);
                assert(cs@.take(i as int + 1).drop_last() =~= cs@.take(i as int));
            }
            self.write_char(cs[i]);
            i = i + 1;
        }
        assert(cs@.take(i as int) =~= cs@);
    }
}

proof fn lemma_console_fits_prefix(p: Seq<u32>, cursor: (usize, usize), font: Seq<u8>, fb: Framebuffer, size: (usize, usize), cs: Seq<char>, n: int)
    requires
        console_fits(p, cursor, font, fb, size, cs),
        0 <= n <= cs.len(),
    ensures
        console_fits(p, cursor, font, fb, size, cs.take(n)),
    decreases cs.len(),
{
    if n < cs.len() {
        lemma_console_fits_prefix(p, cursor, font, fb, size, cs.drop_last(), n);
        assert(cs.drop_last().take(n) =~= cs.take(n));
    } else {
        assert(cs.take(n) =~= cs);
    }
}

/// The pixels of a screen scrolled up by one row of text (see `scrolled`).
pub fn scroll_pixels(p: &Vec<u32>, stride: usize, res_x: usize, res_y: usize) -> (ret: Vec<u32>)
    requires
        res_y >= 16,
        res_x <= stride,
        p@.len() == stride * res_y,
    ensures
        ret@ == scrolled(p@, stride as int, res_x as int, res_y as int),
{
    let n = p.len();
    let mut out: Vec<u32> = Vec::new();
    let mut i: usize = 0;
    while i < n
        invariant
            n == p@.len(),
            n == stride * res_y,
            res_y >= 16,
            res_x <= stride,
            i <= n,
            out@.len() == i,
            forall|k: int| 0 <= k < i ==> #[trigger] out@[k] == scrolled(p@, stride as int, res_x as int, res_y as int)[k],
        decreases n - i,
    {
        assert(stride > 0) by (nonlinear_arith)
            requires
                i < n,
                n == stride * res_y,
        ;
        let y = i / stride;
        let x = i % stride;
        proof {
            vstd::arithmetic::div_mod::lemma_fundamental_div_mod(i as int, stride as int);
        }
        let v = if x < res_x && y < res_y - 16 {
            assert(i + 16 * stride < n) by (nonlinear_arith)
                requires
                    y == i / stride,
                    x == i % stride,
                    y < res_y - 16,
                    stride > 0,
                    n == stride * res_y,
                    i == stride * y + x,
                    x < stride,
            ;
            p[i + 16 * stride]
        } else if x < res_x && y < res_y {
            0u32
        } else {
            p[i]
        };
        out.push(v);
        i = i + 1;
    }
    assert(out@ =~= scrolled(p@, stride as int, res_x as int, res_y as int));
    out
}

} // verus!
