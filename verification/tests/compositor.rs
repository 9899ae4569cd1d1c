use rusticos::dwm::manager::{is_placeable, WindowManager};
use rusticos::dwm::window::Window;


/// The smallest font that parses: the `head`, `hhea` and `maxp` tables, one glyph.
fn tiny_font() -> Vec<u8> {
    fn be16(v: &mut Vec<u8>, x: u16) {
        v.extend_from_slice(&x.to_be_bytes());
    }
    fn be32(v: &mut Vec<u8>, x: u32) {
        v.extend_from_slice(&x.to_be_bytes());
    }
    let mut f = Vec::new();
    be32(&mut f, 0x0001_0000);
    be16(&mut f, 3);
    be16(&mut f, 0);
    be16(&mut f, 0);
    be16(&mut f, 0);
    // table records: tag, checksum, offset, length
    for (tag, offset, length) in [(b"head", 60u32, 54u32), (b"hhea", 114, 36), (b"maxp", 150, 6)] {
        f.extend_from_slice(tag);
        be32(&mut f, 0);
        be32(&mut f, offset);
        be32(&mut f, length);
    }
    // head
    let mut head = vec![0u8; 54];
    head[0..4].copy_from_slice(&0x0001_0000u32.to_be_bytes());
    head[18..20].copy_from_slice(&1000u16.to_be_bytes());
    f.extend_from_slice(&head);
    // hhea
    let mut hhea = vec![0u8; 36];
    hhea[0..4].copy_from_slice(&0x0001_0000u32.to_be_bytes());
    hhea[34..36].copy_from_slice(&1u16.to_be_bytes());
    f.extend_from_slice(&hhea);
    // maxp
    be32(&mut f, 0x0000_5000);
    be16(&mut f, 1);
    f
}

fn pixel(m: &WindowManager, x: usize, y: usize) -> u32 {
    m.back_buffer[y * m.screen_width + x]
}

#[test]
fn new_screen_is_teal() {
    let font = tiny_font();
    let m = WindowManager::new(5, 4, &font).unwrap();
    assert_eq!(m.back_buffer.len(), 20);
    assert!(m.back_buffer.iter().all(|&p| p == 0x008080));
    assert!(m.windows.is_empty());
}

#[test]
fn empty_desktop_is_grey() {
    let font = tiny_font();
    let mut m = WindowManager::new(5, 4, &font).unwrap();
    m.compose_all();
    assert!(m.back_buffer.iter().all(|&p| p == 0x999999));
}

#[test]
fn window_without_title_bar() {
    let font = tiny_font();
    let mut m = WindowManager::new(6, 6, &font).unwrap();
    let mut w = Window::new(1, 2, 2, 2, "a", false);
    w.fill(0xABCDEF);
    m.add_window(w);
    m.compose_all();
    for y in 0..6 {
        for x in 0..6 {
            let inside = (1..3).contains(&x) && (2..4).contains(&y);
            assert_eq!(pixel(&m, x, y), if inside { 0xABCDEF } else { 0x999999 });
        }
    }
}

#[test]
fn title_bar_sits_above_contents() {
    let font = tiny_font();
    let mut m = WindowManager::new(4, 30, &font).unwrap();
    let mut w = Window::new(0, 1, 2, 3, "t", true);
    w.fill(0x00FF00);
    m.add_window(w);
    m.compose_all();
    assert_eq!(pixel(&m, 0, 0), 0x999999);
    assert_eq!(pixel(&m, 0, 1), 0x555555);
    assert_eq!(pixel(&m, 1, 24), 0x555555);
    assert_eq!(pixel(&m, 0, 25), 0x00FF00);
    assert_eq!(pixel(&m, 1, 27), 0x00FF00);
    assert_eq!(pixel(&m, 0, 28), 0x999999);
    assert_eq!(pixel(&m, 2, 25), 0x999999);
}

#[test]
fn active_title_bar_is_blue() {
    let font = tiny_font();
    let mut m = WindowManager::new(4, 30, &font).unwrap();
    let mut w = Window::new(0, 0, 2, 1, "t", true);
    w.is_active = true;
    m.add_window(w);
    m.compose_all();
    assert_eq!(pixel(&m, 1, 0), 0x0000AA);
}

#[test]
fn front_window_wins_and_hidden_windows_do_not_show() {
    let font = tiny_font();
    let mut m = WindowManager::new(4, 4, &font).unwrap();
    let mut back = Window::new(0, 0, 3, 3, "back", false);
    back.fill(1);
    let mut front = Window::new(1, 1, 3, 3, "front", false);
    front.fill(2);
    let mut hidden = Window::new(0, 0, 4, 4, "hidden", false);
    hidden.fill(3);
    hidden.is_visible = false;
    m.add_window(back);
    m.add_window(front);
    m.add_window(hidden);
    m.compose_all();
    assert_eq!(pixel(&m, 0, 0), 1);
    assert_eq!(pixel(&m, 1, 1), 2);
    assert_eq!(pixel(&m, 3, 3), 2);
    assert_eq!(pixel(&m, 3, 0), 0x999999);
}

#[test]
fn windows_are_clipped_at_every_edge() {
    let font = tiny_font();
    let mut m = WindowManager::new(3, 3, &font).unwrap();
    let mut w = Window::new(-2, -1, 6, 5, "big", false);
    for y in 0..5 {
        for x in 0..6 {
            w.set_pixel(x, y, (y * 10 + x) as u32);
        }
    }
    m.add_window(w);
    m.compose_all();
    for y in 0..3 {
        for x in 0..3 {
            assert_eq!(pixel(&m, x, y), ((y + 1) * 10 + (x + 2)) as u32);
        }
    }
}

#[test]
fn hidden_and_oversized_windows_are_composed() {
    let font = tiny_font();
    let mut m = WindowManager::new(3, 3, &font).unwrap();
    let mut hidden = Window::new(0, 0, 2, 2, "h", false);
    hidden.buffer.clear();
    hidden.is_visible = false;
    let mut big = Window::new(1, 1, 1, 1, "b", false);
    big.buffer = vec![6, 7, 8];
    m.add_window(hidden);
    m.add_window(big);
    m.compose_all();
    assert_eq!(pixel(&m, 1, 1), 6);
    assert_eq!(pixel(&m, 0, 0), 0x999999);
}

#[test]
fn unreadable_font_gives_no_manager() {
    assert!(WindowManager::new(4, 4, b"no font").is_none());
}

#[test]
fn zero_height_screen_of_any_width() {
    let font = tiny_font();
    let mut m = WindowManager::new(usize::MAX, 0, &font).unwrap();
    let mut w = Window::new(0, 0, 2, 1, "w", true);
    w.fill(1);
    assert!(is_placeable(&w, 0));
    m.add_window(w);
    m.compose_all();
    assert!(m.back_buffer.is_empty());
}

#[test]
fn window_beside_the_screen_rows_is_accepted() {
    let font = tiny_font();
    let mut m = WindowManager::new(3, 3, &font).unwrap();
    let w = Window::new(isize::MAX, -1000, 2, 1, "w", false);
    assert!(is_placeable(&w, 3));
    m.add_window(w);
    m.compose_all();
    assert!(m.back_buffer.iter().all(|&p| p == 0x999999));
    let on_rows = Window::new(isize::MAX, 1, 2, 1, "w", false);
    assert!(!is_placeable(&on_rows, 3));
}
