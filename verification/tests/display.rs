use corne_rmk::display::{BinaryColor, NiceView, Pixel, Point, FRAME_LEN, STRIDE};
use corne_rmk::nice_view;

fn line_start(ny: usize) -> usize {
    1 + ny * STRIDE
}

#[test]
fn blank_frame_layout() {
    let v = nice_view();
    let f = v.frame();
    assert_eq!(FRAME_LEN, 1498);
    assert_eq!(f.len(), FRAME_LEN);
    assert_eq!(f[0], 0x80);
    // line addresses are the 1-based line numbers, bit-reversed
    assert_eq!(f[line_start(0)], 0x80);
    assert_eq!(f[line_start(1)], 0x40);
    assert_eq!(f[line_start(2)], 0xC0);
    assert_eq!(f[line_start(67)], 0x22);
    for ny in 0..68 {
        assert_eq!(f[line_start(ny)], ((ny + 1) as u8).reverse_bits());
        assert_eq!(f[line_start(ny) + STRIDE - 1], 0);
        for k in 0..20 {
            assert_eq!(f[line_start(ny) + 1 + k], 0xFF);
        }
    }
    assert_eq!(f[FRAME_LEN - 1], 0);
}

#[test]
fn screen_is_portrait() {
    let v = NiceView::new();
    assert_eq!(v.size(), (68, 160));
}

#[test]
fn draw_corner_pixels() {
    let mut v = NiceView::new();
    // Screen (0, 0) is panel column 0 of the last panel line.
    v.draw_iter(&[Pixel(Point { x: 0, y: 0 }, BinaryColor::On)]);
    let idx = line_start(67) + 1;
    assert_eq!(v.frame()[idx], 0x7F);
    // Screen (67, 159) is panel column 159 of panel line 0.
    v.draw_iter(&[Pixel(Point { x: 67, y: 159 }, BinaryColor::On)]);
    assert_eq!(v.frame()[line_start(0) + 1 + 19], 0xFE);
    // Screen (5, 10) is panel column 10 of line 62: byte 1, bit 0x20.
    v.draw_iter(&[Pixel(Point { x: 5, y: 10 }, BinaryColor::On)]);
    assert_eq!(v.frame()[line_start(62) + 1 + 1], 0xDF);
    // Painting it off again restores white.
    v.draw_iter(&[Pixel(Point { x: 5, y: 10 }, BinaryColor::Off)]);
    assert_eq!(v.frame()[line_start(62) + 1 + 1], 0xFF);
}

#[test]
fn off_screen_pixels_are_skipped() {
    let mut v = NiceView::new();
    let before = v.frame().clone();
    v.draw_iter(&[
        Pixel(Point { x: -1, y: 0 }, BinaryColor::On),
        Pixel(Point { x: 0, y: -1 }, BinaryColor::On),
        Pixel(Point { x: 68, y: 0 }, BinaryColor::On),
        Pixel(Point { x: 0, y: 160 }, BinaryColor::On),
        Pixel(Point { x: i32::MAX, y: i32::MIN }, BinaryColor::On),
    ]);
    assert_eq!(v.frame(), &before);
}

#[test]
fn last_pixel_drawn_wins() {
    let mut v = NiceView::new();
    v.draw_iter(&[
        Pixel(Point { x: 3, y: 3 }, BinaryColor::On),
        Pixel(Point { x: 3, y: 4 }, BinaryColor::On),
        Pixel(Point { x: 3, y: 3 }, BinaryColor::Off),
    ]);
    // (3, 3) -> panel (3, 64), (3, 4) -> panel (4, 64): same byte
    assert_eq!(v.frame()[line_start(64) + 1], 0xF7);
}

#[test]
fn clear_fills_pixels_and_keeps_framing() {
    let mut v = NiceView::new();
    v.clear(BinaryColor::On);
    let f = v.frame();
    for ny in 0..68 {
        assert_eq!(f[line_start(ny)], ((ny + 1) as u8).reverse_bits());
        assert_eq!(f[line_start(ny) + STRIDE - 1], 0);
        for k in 0..20 {
            assert_eq!(f[line_start(ny) + 1 + k], 0x00);
        }
    }
    assert_eq!(f[0], 0x80);
    assert_eq!(f[FRAME_LEN - 1], 0);
    v.clear(BinaryColor::Off);
    assert_eq!(v.frame(), NiceView::new().frame());
}

#[test]
fn vcom_toggles_once_a_second() {
    let mut v = NiceView::new();
    v.prepare_write(0);
    assert_eq!(v.frame()[0], 0x80);
    v.prepare_write(32_767);
    assert_eq!(v.frame()[0], 0x80);
    v.prepare_write(32_768);
    assert_eq!(v.frame()[0], 0xC0);
    // measured from the last toggle, not from boot
    v.prepare_write(40_000);
    assert_eq!(v.frame()[0], 0xC0);
    v.prepare_write(65_536);
    assert_eq!(v.frame()[0], 0x80);
}
