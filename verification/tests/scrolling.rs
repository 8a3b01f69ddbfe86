use osdev::common::writer::Writer;
use osdev::common::Framebuffer;

fn flat_font() -> Vec<u8> {
    let mut font = vec![0u8; 16384];
    for c in 0..128usize {
        for k in 0..128usize {
            font[c * 128 + k] = c as u8;
        }
    }
    font
}

fn gray(g: u32) -> u32 {
    (g << 16) | (g << 8) | g
}

#[test]
fn console_size_follows_the_screen() {
    let w = Writer::init(Framebuffer::new(0, (80, 40), 80), flat_font());
    // 40 / 16 = 2 rows, 80 / 8 = 10 columns.
    let mut w = w;
    w.write_str("abc");
    assert_eq!(w.pixel_words()[0], gray('a' as u32));
    assert_eq!(w.pixel_words()[16], gray('c' as u32));
}

#[test]
fn writing_past_the_last_row_scrolls() {
    // Two rows of two characters.
    let mut w = Writer::init(Framebuffer::new(0, (16, 32), 16), flat_font());
    w.write_str("ab");
    w.write_str("cd");
    // The fourth character filled the last row: the screen scrolled up a row.
    assert_eq!(w.pixel_words()[0], gray('c' as u32));
    assert_eq!(w.pixel_words()[8], gray('d' as u32));
    assert_eq!(w.pixel_words()[16 * 16], 0);
    w.write_str("e");
    assert_eq!(w.pixel_words()[16 * 16], gray('e' as u32));
}

#[test]
fn newline_at_the_bottom_scrolls() {
    let mut w = Writer::init(Framebuffer::new(0, (16, 32), 16), flat_font());
    w.write_str("x\ny\n");
    assert_eq!(w.pixel_words()[0], gray('y' as u32));
    assert_eq!(w.pixel_words()[16 * 16], 0);
}

#[test]
fn scroll_moves_rows_up_and_keeps_the_margin() {
    // Visible width 8 of a stride of 10: the two margin pixels of each row stay.
    let mut w = Writer::init(Framebuffer::new(0, (8, 32), 10), flat_font());
    w.write_str("\nq");
    // One character per row: `q` filled the last row and the screen scrolled.
    assert_eq!(w.pixel_words()[0], gray('q' as u32));
    assert_eq!(w.pixel_words()[7], gray('q' as u32));
    assert_eq!(w.pixel_words()[8], 0);
    assert_eq!(w.pixel_words()[16 * 10], 0);
    w.update_ptr(0x2000);
    w.clear();
    assert!(w.pixel_words().iter().all(|&p| p == 0));
}
