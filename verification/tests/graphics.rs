use osdev::common::Framebuffer;
use osdev::kernel::graphics::{draw, init, Graphics, Line, Pixel, Point, Rect};

fn small_screen() -> Graphics {
    init(Framebuffer::new(0x1000, (4, 3), 5))
}

#[test]
fn pixel_word_is_blue_green_red() {
    let p = Pixel::new(0x11, 0x22, 0x33);
    assert_eq!(u32::from(p), 0x0011_2233);
    assert_eq!(p.red, 0x11);
    assert_eq!(p.green, 0x22);
    assert_eq!(p.blue, 0x33);
    assert_eq!(p.reserved, 0);
}

#[test]
fn constructors_keep_their_arguments() {
    let r = Rect::new(1, 2, 3, 4);
    assert_eq!((r.x, r.y, r.width, r.height), (1, 2, 3, 4));
    let p = Point::new(5, 6);
    assert_eq!((p.x, p.y), (5, 6));
    assert!(matches!(Line::new_horizontal(1, 2, 3), Line::HorizontalLine { x: 1, y: 2, length: 3 }));
    assert!(matches!(Line::new_vertical(1, 2, 3), Line::VerticalLine { x: 1, y: 2, length: 3 }));
}

#[test]
fn new_screen_is_black() {
    let mut g = small_screen();
    let words = g.write_buffer();
    assert_eq!(words, vec![0u32; 15]);
    let words = draw(&mut g, |_g: &mut Graphics| {});
    assert_eq!(words.len(), 15);
}

#[test]
fn rectangle_fills_its_pixels_only() {
    let mut g = small_screen();
    let white = Pixel::new(255, 255, 255);
    let words = draw(&mut g, |g: &mut Graphics| g.draw_rect(Rect::new(1, 1, 2, 2), white));
    let w = 0x00FF_FFFFu32;
    assert_eq!(words, vec![0, 0, 0, 0, 0, 0, w, w, 0, 0, 0, w, w, 0, 0]);
}

#[test]
fn thick_lines_are_centred() {
    let mut g = small_screen();
    let red = Pixel::new(255, 0, 0);
    g.draw_line(Line::new_horizontal(0, 1, 3), 3, red);
    let words = g.write_buffer();
    let r = 0x00FF_0000u32;
    // Rows 0 to 2, columns 0 to 2.
    assert_eq!(words, vec![r, r, r, 0, 0, r, r, r, 0, 0, r, r, r, 0, 0]);
    let mut g = small_screen();
    g.draw_line(Line::new_vertical(2, 0, 2), 2, red);
    let words = g.write_buffer();
    // Rows 0 and 1, columns 1 and 2.
    assert_eq!(words, vec![0, r, r, 0, 0, 0, r, r, 0, 0, 0, 0, 0, 0, 0]);
}

#[test]
fn empty_rectangle_changes_nothing() {
    let mut g = small_screen();
    g.draw_rect(Rect::new(2, 2, 0, 5), Pixel::new(1, 1, 1));
    assert_eq!(g.write_buffer(), vec![0u32; 15]);
}
