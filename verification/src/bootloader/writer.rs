use vstd::prelude::*;

use crate::common::Framebuffer;
use crate::common::text::{FONT_LEN, render_char, render_chars, text_after, text_fits};
use crate::kernel::graphics::{block_filled, block_fits, fill_block};

verus! {

/// The character of digit `d`: `0` to `9`, then `a` onwards.
pub open spec fn digit_char(d: nat) -> char {
    if d < 10 {
        (('0' as nat) + d) as char
    } else {
        (('a' as nat) + d - 10) as char
    }
}

/// The decimal digits of `v`, most significant first, with no leading zero.
pub open spec fn decimal(v: nat) -> Seq<char>
    decreases v,
{
    if v < 10 {
        seq![digit_char(v)]
    } else {
        decimal(v / 10).push(digit_char(v % 10))
    }
}

/// The number that a sequence of decimal digits stands for.
pub open spec fn decimal_value(s: Seq<char>) -> nat
    decreases s.len(),
{
    if s.len() == 0 {
        0
    } else {
        decimal_value(s.drop_last()) * 10 + ((s.last() as nat) - ('0' as nat)) as nat
    }
}

/// The sixteen hexadecimal digits of `v`, most significant first, lower case.
pub open spec fn hex_digits(v: u64) -> Seq<char> {
    Seq::new(16, |k: int| digit_char(((v >> (((15 - k) * 4) as u64)) & 0xF) as nat))
}

/// The character for digit `num` in base `radix`, or `None` when `num` is not a
/// digit of that base.
pub fn from_digit(num: u32, radix: u32) -> (ret: Option<char>)
    requires
        2 <= radix <= 36,
    ensures
        ret == (if num < radix { Some(digit_char(num as nat)) } else { None }),
{
    if num >= radix {
        None
    } else if num < 10 {
        let b: u8 = 48u8 + num as u8;
        Some(b as char)
    } else {
        let b: u8 = 97u8 + (num - 10) as u8;
        Some(b as char)
    }
}

/// A text console on a framebuffer: the framebuffer, the cursor (row, column) in
/// character cells, the framebuffer's pixels, and the font.
pub struct Writer {
    framebuffer: Framebuffer,
    cursor: (usize, usize),
    pixels: Vec<u32>,
    font: Vec<u8>,
}

impl Writer {
    pub closed spec fn spec_framebuffer(&self) -> Framebuffer {
        self.framebuffer
    }

    pub closed spec fn spec_cursor(&self) -> (usize, usize) {
        self.cursor
    }

    /// The framebuffer's pixels, row after row, `stride` pixels apart.
    pub closed spec fn pixels(&self) -> Seq<u32> {
        self.pixels@
    }

    pub closed spec fn font(&self) -> Seq<u8> {
        self.font@
    }

    /// The font is complete and the pixel buffer covers the framebuffer.
    pub open spec fn wf(&self) -> bool {
        &&& self.font().len() == FONT_LEN
        &&& self.pixels().len() == self.spec_framebuffer().stride * self.spec_framebuffer().resolution_y
    }

    /// The framebuffer's pixels, for copying to the screen.
    pub fn pixel_words(&self) -> (ret: &Vec<u32>)
        ensures
            ret@ == self.pixels(),
    {
        &self.pixels
    }

    /// The cursor, row first.
    pub fn cursor(&self) -> (ret: (usize, usize))
        ensures
            ret == self.spec_cursor(),
    {
        self.cursor
    }

    /// The state after writing `cs` (see `text_after`).
    pub open spec fn after(&self, cs: Seq<char>) -> (Seq<u32>, (usize, usize)) {
        text_after(self.pixels(), self.spec_cursor(), self.font(), self.spec_framebuffer().stride,
            self.spec_framebuffer().resolution_x, cs)
    }

    /// `cs` can be written from the current cursor (see `text_fits`).
    pub open spec fn fits(&self, cs: Seq<char>) -> bool {
        text_fits(self.pixels().len() as int, self.spec_cursor(), self.spec_framebuffer().stride,
            self.spec_framebuffer().resolution_x, cs)
    }

    /// Writes the characters of `cs` in turn.
    fn write_chars(&mut self, cs: &Vec<char>)
        requires
            old(self).wf(),
            old(self).fits(cs@),
        ensures
            final(self).wf(),
            final(self).spec_framebuffer() == old(self).spec_framebuffer(),
            final(self).font() == old(self).font(),
            (final(self).pixels(), final(self).spec_cursor()) == old(self).after(cs@),
    {
        proof {
            crate::common::text::lemma_text_cursor(self.pixels@, self.pixels@, self.cursor, self.font@, self.font@,
                self.framebuffer.stride, self.framebuffer.resolution_x, cs@);
        }
        let mut pixels = Vec::new();
        std::mem::swap(&mut pixels, &mut self.pixels);
        let k = render_chars(&mut pixels, &self.font, self.framebuffer.stride, self.framebuffer.resolution_x, self.cursor, cs);
        self.pixels = pixels;
        self.cursor = k;
    }
}

/// A console on `framebuffer` with the cursor at the top left and a black screen.
pub fn init(framebuffer: Framebuffer, font: Vec<u8>) -> (ret: Writer)
    requires
        font@.len() == FONT_LEN,
        framebuffer.stride * framebuffer.resolution_y <= usize::MAX,
    ensures
        ret.wf(),
        ret.spec_framebuffer() == framebuffer,
        ret.spec_cursor() == (0usize, 0usize),
        ret.font() == font@,
        forall|i: int| 0 <= i < ret.pixels().len() ==> #[trigger] ret.pixels()[i] == 0,
{
    let n = framebuffer.stride * framebuffer.resolution_y;
    let mut pixels: Vec<u32> = Vec::new();
    let mut i: usize = 0;
    while i < n
        invariant
            i <= n,
            pixels@.len() == i,
            forall|k: int| 0 <= k < i ==> #[trigger] pixels@[k] == 0,
        decreases n - i,
    {
        pixels.push(0);
        i = i + 1;
    }
    Writer { framebuffer, cursor: (0, 0), pixels, font }
}

/// Blacks out the visible part of the screen and puts the cursor at the top left.
pub fn clear(writer: &mut Writer)
    requires
        old(writer).wf(),
        block_fits(0, old(writer).spec_framebuffer().resolution_y as int, 0, old(writer).spec_framebuffer().resolution_x as int,
            old(writer).spec_framebuffer().stride as int, old(writer).pixels().len() as int),
    ensures
        final(writer).wf(),
        final(writer).spec_framebuffer() == old(writer).spec_framebuffer(),
        final(writer).font() == old(writer).font(),
        final(writer).spec_cursor() == (0usize, 0usize),
        block_filled(final(writer).pixels(), old(writer).pixels(), 0, old(writer).spec_framebuffer().resolution_y as int, 0,
            old(writer).spec_framebuffer().resolution_x as int, old(writer).spec_framebuffer().stride as int, 0u32),
{
    let mut pixels = Vec::new();
    std::mem::swap(&mut pixels, &mut writer.pixels);
    fill_block(&mut pixels, writer.framebuffer.stride, 0, writer.framebuffer.resolution_y, 0, writer.framebuffer.resolution_x, 0u32);
    writer.pixels = pixels;
    writer.cursor = (0, 0);
}

/// Writes `c`: a newline moves to the next row, other control characters do
/// nothing, and any other character is drawn at the cursor, which moves on.
pub fn write_char(writer: &mut Writer, c: char)
    requires
        old(writer).wf(),
        old(writer).fits(seq![c]),
    ensures
        final(writer).wf(),
        final(writer).spec_framebuffer() == old(writer).spec_framebuffer(),
        final(writer).font() == old(writer).font(),
        (final(writer).pixels(), final(writer).spec_cursor()) == old(writer).after(seq![c]),
{
    let mut cs: Vec<char> = Vec::new();
    cs.push(c);
    assert(cs@ =~= seq![c]);
    writer.write_chars(&cs);
}

/// Writes the characters of `string` in turn.
pub fn write_str(writer: &mut Writer, string: &str)
    requires
        old(writer).wf(),
        old(writer).fits(string@),
    ensures
        final(writer).wf(),
        final(writer).spec_framebuffer() == old(writer).spec_framebuffer(),
        final(writer).font() == old(writer).font(),
        (final(writer).pixels(), final(writer).spec_cursor()) == old(writer).after(string@),
{
    let cs = chars_of(string);
    writer.write_chars(&cs);
}

/// The characters of `string`.
pub fn chars_of(string: &str) -> (ret: Vec<char>)
    ensures
        ret@ == string@,
{
    broadcast use vstd::string::axiom_spec_iter;

    let mut cs: Vec<char> = Vec::new();
    for c in it: string.chars()
        invariant
            cs@ == it.seq().take(it.index() as int),
    {
        cs.push(c);
    }
    cs
}

proof fn lemma_decimal_step(v: nat)
    requires
        v > 0,
    ensures
        decimal(v) == (if v / 10 > 0 { decimal(v / 10) } else { Seq::<char>::empty() }) + seq![digit_char(v % 10)],
{
    if v < 10 {
        assert(decimal(v) =~= Seq::<char>::empty() + seq![digit_char(v % 10)]);
    } else {
        assert(decimal(v) =~= decimal(v / 10) + seq![digit_char(v % 10)]);
    }
}

/// Writes `val` in decimal, with no leading zero (`0` for zero).
pub fn write_u64(writer: &mut Writer, val: u64)
    requires
        old(writer).wf(),
        old(writer).fits(decimal(val as nat)),
    ensures
        final(writer).wf(),
        final(writer).spec_framebuffer() == old(writer).spec_framebuffer(),
        final(writer).font() == old(writer).font(),
        (final(writer).pixels(), final(writer).spec_cursor()) == old(writer).after(decimal(val as nat)),
{
    if val == 0 {
        assert(decimal(0) =~= seq!['0']);
        write_char(writer, '0');
    } else {
        let mut v = val;
        let mut cs: Vec<char> = Vec::new();
        while v > 0
            invariant
                decimal(val as nat) == (if v > 0 { decimal(v as nat) } else { Seq::<char>::empty() }) + cs@,
            decreases v,
        {
            let digit = v % 10;
            let c = from_digit(digit as u32, 10).unwrap();
            proof {
                lemma_decimal_step(v as nat);
                assert(seq![c] + cs@ =~= cs@.insert(0, c));
                assert(((if v / 10 > 0 { decimal((v / 10) as nat) } else { Seq::<char>::empty() }) + seq![c]) + cs@
                    =~= (if v / 10 > 0 { decimal((v / 10) as nat) } else { Seq::<char>::empty() }) + (seq![c] + cs@));
            }
            cs.insert(0, c);
            v = v / 10;
        }
        assert(Seq::<char>::empty() + cs@ =~= cs@);
        writer.write_chars(&cs);
    }
}

/// Writes all sixteen hexadecimal digits of `val`, most significant first.
pub fn write_hex(writer: &mut Writer, val: u64)
    requires
        old(writer).wf(),
        old(writer).fits(hex_digits(val)),
    ensures
        final(writer).wf(),
        final(writer).spec_framebuffer() == old(writer).spec_framebuffer(),
        final(writer).font() == old(writer).font(),
        (final(writer).pixels(), final(writer).spec_cursor()) == old(writer).after(hex_digits(val)),
{
    let mut cs: Vec<char> = Vec::new();
    let mut i: u64 = 16;
    while i > 0
        invariant
            i <= 16,
            cs@.len() == 16 - i,
            forall|k: int| 0 <= k < cs@.len() ==> #[trigger] cs@[k] == hex_digits(val)[k],
        decreases i,
    {
        i = i - 1;
        let digit = (val >> (i * 4)) & 0xF;
        assert(digit < 16) by (bit_vector)
            requires
                digit == (val >> (i * 4)) & 0xF,
        ;
        let c = from_digit(digit as u32, 16).unwrap();
        cs.push(c);
    }
    assert(cs@ =~= hex_digits(val));
    writer.write_chars(&cs);
}

/// Reading back the decimal digits that `write_u64` writes gives the number.
pub proof fn lemma_decimal_round_trip(v: nat)
    ensures
        decimal_value(decimal(v)) == v,
    decreases v,
{
    let d = v % 10;
    assert((('0' as nat) + d) as char as nat == ('0' as nat) + d);
    if v < 10 {
        assert(decimal(v).drop_last() =~= Seq::<char>::empty());
        assert(decimal_value(Seq::<char>::empty()) == 0);
        assert(decimal(v).last() == digit_char(v));
    } else {
        lemma_decimal_round_trip(v / 10);
        assert(decimal(v).drop_last() =~= decimal(v / 10));
        assert(decimal(v).last() == digit_char(d));
        assert(decimal_value(decimal(v)) == decimal_value(decimal(v / 10)) * 10 + d);
    }
}


/// The value of a digit character: `0` to `9`, then `a` onwards.
pub open spec fn digit_value(c: char) -> int {
    if ('0' as int) <= (c as int) <= ('9' as int) {
        (c as int) - ('0' as int)
    } else {
        (c as int) - ('a' as int) + 10
    }
}

/// The number that a sequence of hexadecimal digits stands for.
pub open spec fn hex_value(s: Seq<char>) -> int
    decreases s.len(),
{
    if s.len() == 0 {
        0
    } else {
        hex_value(s.drop_last()) * 16 + digit_value(s.last())
    }
}

proof fn lemma_nibble_split(v: u64, s: u64)
    requires
        s < 64,
    ensures
        (v >> s) as int == ((v >> (s + 4) as u64) as int) * 16 + ((v >> s) & 0xF) as int,
        (v >> s) & 0xF < 16,
        v >> 0u64 == v,
        v >> 64u64 == 0,
{
    assert((v >> s) == ((v >> (s + 4) as u64) << 4u64) + ((v >> s) & 0xF) && (v >> (s + 4) as u64) < 0x1000_0000_0000_0000
        && (v >> s) & 0xF < 16 && v >> 0u64 == v && v >> 64u64 == 0) by (bit_vector)
        requires
            s < 64,
    ;
    assert(((v >> (s + 4) as u64) << 4u64) == (v >> (s + 4) as u64) * 16) by (bit_vector)
        requires
            (v >> (s + 4) as u64) < 0x1000_0000_0000_0000,
    ;
}

/// Reading back the hexadecimal digits that `write_hex` writes gives the number.
pub proof fn lemma_hex_round_trip(v: u64)
    ensures
        hex_value(hex_digits(v)) == v,
{
    let h = hex_digits(v);
    assert forall|m: int| 0 <= m <= 16 implies #[trigger] hex_value(h.take(m)) == (v >> ((64 - 4 * m) as u64)) as int by {
        lemma_hex_prefix(v, m);
    }
    assert(h.take(16) =~= h);
    lemma_nibble_split(v, 0);
}

proof fn lemma_hex_prefix(v: u64, m: int)
    requires
        0 <= m <= 16,
    ensures
        hex_value(hex_digits(v).take(m)) == (v >> ((64 - 4 * m) as u64)) as int,
    decreases m,
{
    let h = hex_digits(v);
    if m == 0 {
        assert(h.take(0) =~= Seq::<char>::empty());
        lemma_nibble_split(v, 0);
    } else {
        lemma_hex_prefix(v, m - 1);
        assert(h.take(m).drop_last() =~= h.take(m - 1));
        let s = (64 - 4 * m) as u64;
        lemma_nibble_split(v, s);
        assert((s + 4) as u64 == (64 - 4 * (m - 1)) as u64);
        let d = ((v >> (((15 - (m - 1)) * 4) as u64)) & 0xF) as nat;
        assert(((15 - (m - 1)) * 4) as u64 == s);
        assert(h[m - 1] == digit_char(d));
        assert(d < 16);
        if d < 10 {
            assert((('0' as nat) + d) as char as int == ('0' as int) + d);
        } else {
            assert((('a' as nat) + d - 10) as char as int == ('a' as int) + d - 10);
        }
        assert(digit_value(digit_char(d)) == d);
    }
}

} // verus!
