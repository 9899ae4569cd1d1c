use rusticos::dwm::font::CachedGlyph;
use rusticos::dwm::window::Window;

#[test]
fn new_window_is_black_and_visible() {
    let w = Window::new(10, 20, 4, 3, "Window1", true);
    assert_eq!(w.buffer.len(), 12);
    assert!(w.buffer.iter().all(|&p| p == 0));
    assert!(w.is_visible);
    assert!(w.has_title_bar);
    assert!(w.can_resizable && w.can_movable);
    assert!(!w.is_active);
    assert_eq!(w.title, "Window1");
}

#[test]
fn set_then_get_pixel() {
    let mut w = Window::new(0, 0, 4, 3, "w", false);
    w.set_pixel(2, 1, 0x123456);
    assert_eq!(w.get_pixel(2, 1), 0x123456);
    assert_eq!(w.buffer[1 * 4 + 2], 0x123456);
    assert_eq!(w.get_pixel(1, 2), 0);
}

#[test]
fn out_of_range_pixels() {
    let mut w = Window::new(0, 0, 4, 3, "w", false);
    w.fill(0xABCDEF);
    w.set_pixel(4, 0, 1);
    w.set_pixel(0, 3, 1);
    assert!(w.buffer.iter().all(|&p| p == 0xABCDEF));
    assert_eq!(w.get_pixel(4, 0), 0);
    assert_eq!(w.get_pixel(0, 3), 0);
}

#[test]
fn fill_rect_is_clipped() {
    let mut w = Window::new(0, 0, 4, 3, "w", false);
    w.fill_rect(2, 1, 10, 10, 7);
    for y in 0..3 {
        for x in 0..4 {
            let expected = if x >= 2 && y >= 1 { 7 } else { 0 };
            assert_eq!(w.get_pixel(x, y), expected);
        }
    }
}

#[test]
fn fill_rect_outside_changes_nothing() {
    let mut w = Window::new(0, 0, 4, 3, "w", false);
    w.fill_rect(4, 0, 2, 2, 9);
    w.fill_rect(0, 3, 2, 2, 9);
    w.fill_rect(1, 1, 0, 5, 9);
    assert!(w.buffer.iter().all(|&p| p == 0));
}

#[test]
fn blend_formula() {
    let w = Window::new(0, 0, 1, 1, "w", false);
    assert_eq!(w.blend(0x000000, 0xFFFFFF, 255), 0xFFFFFF);
    assert_eq!(w.blend(0x102030, 0xFFFFFF, 0), 0x102030);
    // (255 * 128 + 0 * 127) / 255 = 128 per channel
    assert_eq!(w.blend(0x000000, 0xFFFFFF, 128), 0x808080);
    // red: (0x10 * 64 + 0xF0 * 191) / 255 = 183 = 0xB7
    assert_eq!(w.blend(0xF00000, 0x100000, 64), 0xB70000);
    // the top byte is dropped
    assert_eq!(w.blend(0xFF000000, 0xFF000000, 100), 0);
}

#[test]
fn draw_glyph_blends_by_coverage() {
    let mut w = Window::new(0, 0, 3, 2, "w", false);
    w.fill(0x000000);
    let glyph = CachedGlyph {
        width: 2,
        height: 1,
        top: 0,
        left: 0,
        advance_bits: 0,
        alpha_map: vec![255, 128],
    };
    w.draw_glyph(1, 1, 0xFFFFFF, &glyph);
    assert_eq!(w.get_pixel(1, 1), 0xFFFFFF);
    assert_eq!(w.get_pixel(2, 1), 0x808080);
    assert_eq!(w.get_pixel(0, 1), 0);
    assert_eq!(w.get_pixel(1, 0), 0);
}

#[test]
fn draw_glyph_skips_transparent_and_clips() {
    let mut w = Window::new(0, 0, 2, 2, "w", false);
    w.fill(0x111111);
    let glyph = CachedGlyph {
        width: 2,
        height: 2,
        top: 0,
        left: 0,
        advance_bits: 0,
        alpha_map: vec![0, 255, 255, 255],
    };
    w.draw_glyph(1, 1, 0x222222, &glyph);
    assert_eq!(w.get_pixel(1, 1), 0x111111);
    assert_eq!(w.get_pixel(0, 0), 0x111111);
    assert_eq!(w.buffer.len(), 4);
}

#[test]
fn fill_paints_a_buffer_of_any_length() {
    let mut w = Window::new(0, 0, 2, 2, "w", false);
    w.buffer.push(5);
    w.fill(3);
    assert_eq!(w.buffer, vec![3; 5]);
}
