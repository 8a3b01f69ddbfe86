use osdev::bootloader::writer::{clear, init, write_char, write_hex, write_str, write_u64, from_digit};
use osdev::common::Framebuffer;

/// A font in which glyph `c` has every pixel at grey level `c`.
fn flat_font() -> Vec<u8> {
    let mut font = vec![0u8; 16384];
    for c in 0..128usize {
        for k in 0..128usize {
            font[c * 128 + k] = c as u8;
        }
    }
    font
}

fn gray(g: u32) -> u32 {
    (g << 16) | (g << 8) | g
}

/// The grey levels of the top-left pixel of each cell of the first row.
fn first_row(w: &osdev::bootloader::writer::Writer, cells: usize, stride: usize) -> Vec<u32> {
    let _ = stride;
    (0..cells).map(|i| w.pixel_words()[i * 8]).collect()
}

#[test]
fn digits_of_numbers() {
    assert_eq!(from_digit(7, 10), Some('7'));
    assert_eq!(from_digit(11, 16), Some('b'));
    assert_eq!(from_digit(10, 10), None);
}

#[test]
fn writes_text_in_cells() {
    let fb = Framebuffer::new(0, (64, 32), 64);
    let mut w = init(fb, flat_font());
    write_str(&mut w, "Hi");
    assert_eq!(w.cursor(), (0, 2));
    assert_eq!(first_row(&w, 3, 64), vec![gray('H' as u32), gray('i' as u32), 0]);
    // Every pixel of the first cell is drawn.
    assert_eq!(w.pixel_words()[15 * 64 + 7], gray('H' as u32));
    assert_eq!(w.pixel_words()[16 * 64], 0);
}

#[test]
fn newline_and_wrapping() {
    let fb = Framebuffer::new(0, (16, 48), 16);
    let mut w = init(fb, flat_font());
    write_char(&mut w, 'a');
    assert_eq!(w.cursor(), (0, 1));
    write_char(&mut w, 'b');
    // Two cells fill the 16-pixel row: the cursor wraps.
    assert_eq!(w.cursor(), (1, 0));
    write_char(&mut w, '\n');
    assert_eq!(w.cursor(), (2, 0));
    write_char(&mut w, '\t');
    assert_eq!(w.cursor(), (2, 0));
}

#[test]
fn decimal_and_hex_output() {
    let fb = Framebuffer::new(0, (256, 16), 256);
    let mut w = init(fb, flat_font());
    write_u64(&mut w, 1207);
    assert_eq!(first_row(&w, 5, 256), vec![gray('1' as u32), gray('2' as u32), gray('0' as u32), gray('7' as u32), 0]);
    let mut w = init(fb, flat_font());
    write_u64(&mut w, 0);
    assert_eq!(first_row(&w, 2, 256), vec![gray('0' as u32), 0]);
    let mut w = init(fb, flat_font());
    write_hex(&mut w, 0xAB);
    let expected: Vec<u32> = "00000000000000ab".chars().map(|c| gray(c as u32)).collect();
    assert_eq!(first_row(&w, 16, 256), expected);
    assert_eq!(w.cursor(), (0, 16));
}

#[test]
fn clear_blacks_out_and_homes() {
    let fb = Framebuffer::new(0, (16, 16), 16);
    let mut w = init(fb, flat_font());
    write_str(&mut w, "x");
    clear(&mut w);
    assert_eq!(w.cursor(), (0, 0));
    assert!(w.pixel_words().iter().all(|&p| p == 0));
}
