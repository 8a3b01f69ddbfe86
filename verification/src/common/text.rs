use vstd::prelude::*;

use vstd::arithmetic::div_mod::{lemma_fundamental_div_mod, lemma_fundamental_div_mod_converse};

verus! {

/// The size in bytes of the console font: 128 glyphs of 16 rows of 8 grey levels.
pub const FONT_LEN: usize = 16384;

/// The framebuffer word of grey level `g`: the same level in red, green and blue.
pub open spec fn gray(g: u8) -> u32 {
    ((g as u32) << 16u32) | ((g as u32) << 8u32) | (g as u32)
}

/// The index of the top-left pixel of character cell (`cy`, `cx`): cells are 16
/// rows high and 8 pixels wide.
pub open spec fn cell_origin(cy: int, cx: int, stride: int) -> int {
    cy * 16 * stride + cx * 8
}

/// Pixel `i` lies in character cell (`cy`, `cx`).
pub open spec fn in_glyph(i: int, cy: int, cx: int, stride: int) -> bool {
    let d = i - cell_origin(cy, cx, stride);
    0 <= d && d / stride < 16 && d % stride < 8
}

/// The colour that glyph `c` gives pixel `i` of cell (`cy`, `cx`).
pub open spec fn glyph_pixel(font: Seq<u8>, c: int, i: int, cy: int, cx: int, stride: int) -> u32 {
    let d = i - cell_origin(cy, cx, stride);
    gray(font[c * 128 + (d / stride) * 8 + d % stride])
}

/// The pixels `p` with glyph `c` drawn in cell (`cy`, `cx`).
pub open spec fn glyph_drawn(p: Seq<u32>, font: Seq<u8>, c: int, cy: int, cx: int, stride: int) -> Seq<u32> {
    Seq::new(
        p.len(),
        |i: int|
            if in_glyph(i, cy, cx, stride) {
                glyph_pixel(font, c, i, cy, cx, stride)
            } else {
                p[i]
            },
    )
}

/// Cell (`cy`, `cx`) lies in a buffer of `len` pixels whose rows are `stride`
/// pixels apart, and rows are at least one cell wide.
pub open spec fn glyph_fits(len: int, cy: int, cx: int, stride: int) -> bool {
    &&& stride >= 8
    &&& cy >= 0
    &&& cx >= 0
    &&& cell_origin(cy, cx, stride) + 15 * stride + 7 < len
}

proof fn lemma_glyph_index(i: int, cy: int, cx: int, stride: int, y: int, x: int)
    requires
        stride >= 8,
        0 <= y < 16,
        0 <= x < 8,
    ensures
        i == cell_origin(cy, cx, stride) + y * stride + x ==> {
            let d = i - cell_origin(cy, cx, stride);
            d / stride == y && d % stride == x && in_glyph(i, cy, cx, stride)
        },
        ({
            let d = i - cell_origin(cy, cx, stride);
            0 <= d && d / stride == y && d % stride == x
        }) ==> i == cell_origin(cy, cx, stride) + y * stride + x,
{
    let d = i - cell_origin(cy, cx, stride);
    if i == cell_origin(cy, cx, stride) + y * stride + x {
        lemma_fundamental_div_mod_converse(d, stride, y, x);
    }
    lemma_fundamental_div_mod(d, stride);
    assert(stride * (d / stride) == (d / stride) * stride) by (nonlinear_arith);
}

/// Draws glyph `c` of `font` in character cell (`cy`, `cx`) of a buffer whose rows
/// are `stride` pixels apart, each pixel in the glyph's grey level.
pub fn draw_glyph(pixels: &mut Vec<u32>, font: &Vec<u8>, c: usize, cy: usize, cx: usize, stride: usize)
    requires
        font@.len() == FONT_LEN,
        c < 128,
        glyph_fits(old(pixels)@.len() as int, cy as int, cx as int, stride as int),
    ensures
        final(pixels)@ == glyph_drawn(old(pixels)@, font@, c as int, cy as int, cx as int, stride as int),
{
    let ghost p0 = pixels@;
    let ghost org = cell_origin(cy as int, cx as int, stride as int);
    let len = pixels.len();
    assert((cy * 16 + 15) * stride + cx * 8 + 7 == org + 15 * stride + 7) by (nonlinear_arith)
        requires
            org == cy * 16 * stride + cx * 8,
    ;
    let mut y: usize = 0;
    while y < 16
        invariant
            font@.len() == FONT_LEN,
            c < 128,
            glyph_fits(len as int, cy as int, cx as int, stride as int),
            org == cell_origin(cy as int, cx as int, stride as int),
            (cy * 16 + 15) * stride + cx * 8 + 7 == org + 15 * stride + 7,
            len == p0.len(),
            y <= 16,
            pixels@.len() == len,
            forall|i: int| 0 <= i < len ==> #[trigger] pixels@[i] == if in_glyph(i, cy as int, cx as int, stride as int)
                && (i - org) / (stride as int) < y {
                glyph_pixel(font@, c as int, i, cy as int, cx as int, stride as int)
            } else {
                p0[i]
            },
        decreases 16 - y,
    {
        let mut x: usize = 0;
        while x < 8
            invariant
                font@.len() == FONT_LEN,
                c < 128,
                glyph_fits(len as int, cy as int, cx as int, stride as int),
                org == cell_origin(cy as int, cx as int, stride as int),
                (cy * 16 + 15) * stride + cx * 8 + 7 == org + 15 * stride + 7,
                len == p0.len(),
                y < 16,
                x <= 8,
                pixels@.len() == len,
                forall|i: int| 0 <= i < len ==> #[trigger] pixels@[i] == if in_glyph(i, cy as int, cx as int, stride as int)
                    && ((i - org) / (stride as int) < y || ((i - org) / (stride as int) == y && (i - org) % (stride as int)
                    < x)) {
                    glyph_pixel(font@, c as int, i, cy as int, cx as int, stride as int)
                } else {
                    p0[i]
                },
            decreases 8 - x,
        {
            assert((cy * 16 + y) * stride + cx * 8 + x == org + y * stride + x) by (nonlinear_arith)
                requires
                    org == cy * 16 * stride + cx * 8,
            ;
            assert((cy * 16 + y) * stride <= (cy * 16 + 15) * stride) by (nonlinear_arith)
                requires
                    y < 16,
            ;
            assert(cy * 16 + y <= (cy * 16 + y) * stride) by (nonlinear_arith)
                requires
                    stride >= 8,
            ;
            let idx = (cy * 16 + y) * stride + cx * 8 + x;
            let g = font[c * 128 + y * 8 + x];
            let color: u32 = ((g as u32) << 16u32) | ((g as u32) << 8u32) | (g as u32);
            let ghost before = pixels@;
            pixels.set(idx, color);
            proof {
                assert forall|i: int| 0 <= i < len implies #[trigger] pixels@[i] == if in_glyph(i, cy as int, cx as int, stride as int)
                    && ((i - org) / (stride as int) < y || ((i - org) / (stride as int) == y && (i - org) % (stride as int)
                    < x + 1)) {
                    glyph_pixel(font@, c as int, i, cy as int, cx as int, stride as int)
                } else {
                    p0[i]
                } by {
                    lemma_glyph_index(i, cy as int, cx as int, stride as int, y as int, x as int);
                    if i != idx {
                        assert(before[i] == pixels@[i]);
                    }
                }
            }
            x = x + 1;
        }
        y = y + 1;
    }
    assert(pixels@ =~= glyph_drawn(p0, font@, c as int, cy as int, cx as int, stride as int));
}


/// Where the cursor of a console without scrolling goes after `c`: a newline starts
/// the next row, other control characters leave it, and a printed character moves
/// it one cell right, or to the next row when the next cell would not start inside
/// the visible width.
pub open spec fn next_cursor(cursor: (usize, usize), c: char, res_x: usize) -> (usize, usize) {
    if c == '\n' {
        ((cursor.0 + 1) as usize, 0usize)
    } else if (c as u32) < 32 {
        cursor
    } else if (cursor.1 + 1) * 8 >= res_x {
        ((cursor.0 + 1) as usize, 0usize)
    } else {
        (cursor.0, (cursor.1 + 1) as usize)
    }
}

/// Whether `c` draws a glyph: it is not a control character.
pub open spec fn draws_glyph(c: char) -> bool {
    (c as u32) >= 32
}

/// The pixels after writing `c` at `cursor`.
pub open spec fn char_pixels(p: Seq<u32>, font: Seq<u8>, c: char, cursor: (usize, usize), stride: usize) -> Seq<u32> {
    if draws_glyph(c) {
        glyph_drawn(p, font, c as int, cursor.0 as int, cursor.1 as int, stride as int)
    } else {
        p
    }
}

/// `c` can be written at `cursor`: it has a glyph, its cell lies in the buffer, and
/// the cursor's next position fits in a `usize`.
pub open spec fn char_fits(len: int, stride: usize, cursor: (usize, usize), c: char) -> bool {
    &&& (c as u32) < 128
    &&& cursor.0 + 1 <= usize::MAX
    &&& (cursor.1 + 1) * 8 <= usize::MAX
    &&& draws_glyph(c) ==> glyph_fits(len, cursor.0 as int, cursor.1 as int, stride as int)
}

/// The pixels and cursor after writing `cs` from `cursor` on a console without
/// scrolling.
pub open spec fn text_after(p: Seq<u32>, cursor: (usize, usize), font: Seq<u8>, stride: usize, res_x: usize, cs: Seq<char>) -> (
    Seq<u32>,
    (usize, usize),
)
    decreases cs.len(),
{
    if cs.len() == 0 {
        (p, cursor)
    } else {
        let (q, k) = text_after(p, cursor, font, stride, res_x, cs.drop_last());
        (char_pixels(q, font, cs.last(), k, stride), next_cursor(k, cs.last(), res_x))
    }
}

/// Every character of `cs` can be written in turn (see `char_fits`).
pub open spec fn text_fits(len: int, cursor: (usize, usize), stride: usize, res_x: usize, cs: Seq<char>) -> bool
    decreases cs.len(),
{
    if cs.len() == 0 {
        true
    } else {
        let k = text_after(Seq::empty(), cursor, Seq::empty(), stride, res_x, cs.drop_last()).1;
        text_fits(len, cursor, stride, res_x, cs.drop_last()) && char_fits(len, stride, k, cs.last())
    }
}

/// The cursor after `cs` does not depend on the pixels or the font.
pub proof fn lemma_text_cursor(p: Seq<u32>, q: Seq<u32>, cursor: (usize, usize), f: Seq<u8>, g: Seq<u8>, stride: usize, res_x: usize, cs: Seq<char>)
    ensures
        text_after(p, cursor, f, stride, res_x, cs).1 == text_after(q, cursor, g, stride, res_x, cs).1,
        text_after(p, cursor, f, stride, res_x, cs).0.len() == p.len(),
    decreases cs.len(),
{
    if cs.len() > 0 {
        lemma_text_cursor(p, q, cursor, f, g, stride, res_x, cs.drop_last());
    }
}

/// Writes `c` at `cursor` and returns the next cursor (see `next_cursor`).
pub fn render_char(pixels: &mut Vec<u32>, font: &Vec<u8>, stride: usize, res_x: usize, cursor: (usize, usize), c: char) -> (ret: (
    usize,
    usize,
))
    requires
        font@.len() == FONT_LEN,
        char_fits(old(pixels)@.len() as int, stride, cursor, c),
    ensures
        final(pixels)@ == char_pixels(old(pixels)@, font@, c, cursor, stride),
        ret == next_cursor(cursor, c, res_x),
{
    let (cy, cx) = cursor;
    if c == '\n' {
        (cy + 1, 0)
    } else if (c as u32) < 32 {
        cursor
    } else {
        draw_glyph(pixels, font, c as usize, cy, cx, stride);
        if (cx + 1) * 8 >= res_x {
            (cy + 1, 0)
        } else {
            (cy, cx + 1)
        }
    }
}

/// Writes each character of `cs` in turn from `cursor` and returns the last cursor.
pub fn render_chars(pixels: &mut Vec<u32>, font: &Vec<u8>, stride: usize, res_x: usize, cursor: (usize, usize), cs: &Vec<char>) -> (ret: (
    usize,
    usize,
))
    requires
        font@.len() == FONT_LEN,
        text_fits(old(pixels)@.len() as int, cursor, stride, res_x, cs@),
    ensures
        (final(pixels)@, ret) == text_after(old(pixels)@, cursor, font@, stride, res_x, cs@),
{
    let ghost p0 = pixels@;
    let mut k = cursor;
    let mut i: usize = 0;
    while i < cs.len()
        invariant
            font@.len() == FONT_LEN,
            i <= cs@.len(),
            pixels@.len() == p0.len(),
            text_fits(p0.len() as int, cursor, stride, res_x, cs@),
            (pixels@, k) == text_after(p0, cursor, font@, stride, res_x, cs@.take(i as int)),
        decreases cs@.len() - i,
    {
        proof {
            lemma_text_fits_prefix(p0.len() as int, cursor, stride, res_x, cs@, i as int + 1);
            assert(cs@.take(i as int + 1).drop_last() =~= cs@.take(i as int));
            lemma_text_cursor(Seq::empty(), p0, cursor, Seq::empty(), font@, stride, res_x, cs@.take(i as int));
        }
        k = render_char(pixels, font, stride, res_x, k, cs[i]);
        i = i + 1;
    }
    assert(cs@.take(i as int) =~= cs@);
    k
}

proof fn lemma_text_fits_prefix(len: int, cursor: (usize, usize), stride: usize, res_x: usize, cs: Seq<char>, n: int)
    requires
        text_fits(len, cursor, stride, res_x, cs),
        0 <= n <= cs.len(),
    ensures
        text_fits(len, cursor, stride, res_x, cs.take(n)),
    decreases cs.len(),
{
    if n < cs.len() {
        lemma_text_fits_prefix(len, cursor, stride, res_x, cs.drop_last(), n);
        assert(cs.drop_last().take(n) =~= cs.take(n));
    } else {
        assert(cs.take(n) =~= cs);
    }
}

} // verus!
