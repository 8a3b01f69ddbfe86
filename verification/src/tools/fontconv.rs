use vstd::prelude::*;

verus! {

/// The font byte at index `i` of the font made from a 128 by 128 image of 128
/// glyphs, 16 glyphs to a row of the image: glyph `i / 128`, row `(i % 128) / 8`,
/// column `i % 8` of the glyph; dark pixels (below 25) are lit (0xFF).
pub open spec fn font_byte(luma: Seq<u8>, i: int) -> u8 {
    let g = i / 128;
    let y = (i % 128) / 8;
    let x = i % 8;
    let px = luma[((g / 16) * 16 + y) * 128 + (g % 16) * 8 + x];
    if px < 25 {
        0xFF
    } else {
        0x00
    }
}

/// The console font made from the grey levels of a 128 by 128 image (see
/// `font_byte`).
pub fn font_from_luma(luma: &Vec<u8>) -> (ret: Vec<u8>)
    requires
        luma@.len() >= 128 * 128,
    ensures
        ret@.len() == 16384,
        forall|i: int| 0 <= i < 16384 ==> #[trigger] ret@[i] == font_byte(luma@, i),
{
    let mut out: Vec<u8> = Vec::new();
    let mut i: usize = 0;
    while i < 16384
        invariant
            luma@.len() >= 128 * 128,
            i <= 16384,
            out@.len() == i,
            forall|k: int| 0 <= k < i ==> #[trigger] out@[k] == font_byte(luma@, k),
        decreases 16384 - i,
    {
        let g = i / 128;
        let y = (i % 128) / 8;
        let x = i % 8;
        let cy = g / 16;
        let cx = g % 16;
        let px = luma[(cy * 16 + y) * 128 + cx * 8 + x];
        let byte: u8 = if px < 25 {
            0xFF
        } else {
            0x00
        };
        out.push(byte);
        i = i + 1;
    }
    out
}

} // verus!
