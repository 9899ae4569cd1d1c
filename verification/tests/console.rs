use rusticos::draw::{draw_glyph, print_hex, Console};
use rusticos::vga::{
    clear_back_buffer, fetch_commands, init_vga, is_empty, push_command, request_update, update_screen,
    DrawCommand,
};

fn text_of(cmd: &DrawCommand) -> Option<(usize, usize, u32, String)> {
    match cmd {
        DrawCommand::Text { x, y, color, content } => Some((*x, *y, *color, content.clone())),
        _ => None,
    }
}

#[test]
fn queue_is_first_in_first_out() {
    let mut q = Vec::new();
    assert!(is_empty(&q));
    push_command(&mut q, DrawCommand::Clear(1));
    push_command(&mut q, DrawCommand::Rect { x: 1, y: 2, w: 3, h: 4, color: 5 });
    assert!(!is_empty(&q));
    let taken = fetch_commands(&mut q);
    assert!(is_empty(&q));
    assert_eq!(taken.len(), 2);
    assert!(matches!(taken[0], DrawCommand::Clear(1)));
    assert!(matches!(taken[1], DrawCommand::Rect { x: 1, y: 2, w: 3, h: 4, color: 5 }));
}

#[test]
fn clear_back_buffer_queues_and_requests() {
    let mut q = Vec::new();
    let mut s = init_vga(3, 2);
    assert!(!s.needs_frame_update);
    assert!(s.back_buffer.iter().all(|&p| p == 0));
    clear_back_buffer(&mut q, &mut s, 0x123456);
    assert!(s.needs_frame_update);
    assert_eq!(q.len(), 1);
    assert!(matches!(q[0], DrawCommand::Clear(0x123456)));
    assert!(s.back_buffer.iter().all(|&p| p == 0));
}

#[test]
fn request_update_sets_flag() {
    let mut s = init_vga(1, 1);
    request_update(&mut s);
    assert!(s.needs_frame_update);
}

#[test]
fn update_screen_with_nothing_queued() {
    let mut q = Vec::new();
    let mut s = init_vga(2, 2);
    assert!(update_screen(&mut q, &mut s).is_none());
    assert!(s.back_buffer.iter().all(|&p| p == 0));
}

#[test]
fn update_screen_applies_clear_and_keeps_later_text() {
    let mut q = Vec::new();
    let mut s = init_vga(2, 2);
    push_command(&mut q, DrawCommand::Text { x: 0, y: 0, color: 1, content: "old".to_string() });
    push_command(&mut q, DrawCommand::Clear(0xFF));
    push_command(&mut q, DrawCommand::Rect { x: 0, y: 0, w: 1, h: 1, color: 2 });
    push_command(&mut q, DrawCommand::Text { x: 5, y: 6, color: 7, content: "new".to_string() });
    push_command(&mut q, DrawCommand::Clear(0xAA));
    push_command(&mut q, DrawCommand::Text { x: 1, y: 2, color: 3, content: "last".to_string() });
    let texts = update_screen(&mut q, &mut s).unwrap();
    assert!(q.is_empty());
    assert!(s.back_buffer.iter().all(|&p| p == 0xAA));
    assert_eq!(texts.len(), 1);
    assert_eq!(text_of(&texts[0]), Some((1, 2, 3, "last".to_string())));
}

#[test]
fn println_queues_line_and_advances() {
    let mut q = Vec::new();
    let mut s = init_vga(10, 100);
    let mut c = Console { current_y: 0, initialized: false };
    assert!(rusticos::draw::println(&mut c, &mut q, &mut s, "Starting RusticOS..."));
    assert_eq!(c.current_y, 24);
    assert_eq!(q.len(), 1);
    assert_eq!(text_of(&q[0]), Some((0, 0, 0, "Starting RusticOS...".to_string())));
    c.initialized = true;
    assert!(!rusticos::draw::println(&mut c, &mut q, &mut s, "second"));
    assert!(s.needs_frame_update);
    assert_eq!(text_of(&q[1]), Some((0, 24, 0, "second".to_string())));
    assert_eq!(c.current_y, 48);
}

#[test]
fn println_starts_a_new_page_when_full() {
    let mut q = Vec::new();
    let mut s = init_vga(10, 50);
    let mut c = Console { current_y: 30, initialized: true };
    rusticos::draw::println(&mut c, &mut q, &mut s, "x");
    assert_eq!(q.len(), 2);
    assert!(matches!(q[0], DrawCommand::Clear(0xFFFFFF)));
    assert_eq!(text_of(&q[1]), Some((0, 0, 0, "x".to_string())));
    assert_eq!(c.current_y, 24);
}

#[test]
fn print_hex_formats_sixteen_digits() {
    let mut q = Vec::new();
    let mut s = init_vga(10, 100);
    let mut c = Console { current_y: 0, initialized: true };
    print_hex(&mut c, &mut q, &mut s, 0xDEAD_BEEF);
    print_hex(&mut c, &mut q, &mut s, 0);
    print_hex(&mut c, &mut q, &mut s, u64::MAX);
    assert_eq!(text_of(&q[0]).unwrap().3, "0x00000000DEADBEEF");
    assert_eq!(text_of(&q[1]).unwrap().3, "0x0000000000000000");
    assert_eq!(text_of(&q[2]).unwrap().3, "0xFFFFFFFFFFFFFFFF");
}

#[test]
fn bitmap_glyph_is_drawn_black() {
    let mut buf = vec![0xFFFFFFu32; 30 * 30];
    let mut glyph = [0u32; 24];
    glyph[0] = 1 << 31; // leftmost pixel of the first row
    glyph[2] = 1 << 8; // pixel 23 of the third row
    draw_glyph(&mut buf, 30, 3, 4, &glyph);
    assert_eq!(buf[4 * 30 + 3], 0);
    assert_eq!(buf[6 * 30 + 3 + 23], 0);
    assert_eq!(buf.iter().filter(|&&p| p == 0).count(), 2);
}

#[test]
fn bitmap_glyph_outside_buffer_is_dropped() {
    let mut buf = vec![0xFFFFFFu32; 10];
    let glyph = [0xFFFF_FF00u32; 24];
    draw_glyph(&mut buf, 10, 0, 0, &glyph);
    assert!(buf.iter().all(|&p| p == 0));
    let mut small = vec![7u32; 4];
    draw_glyph(&mut small, 2, 0, 5, &glyph);
    assert!(small.iter().all(|&p| p == 7));
}

#[test]
fn update_screen_clears_a_buffer_of_any_length() {
    let mut q = Vec::new();
    let mut s = init_vga(2, 2);
    s.back_buffer.push(1);
    push_command(&mut q, DrawCommand::Clear(4));
    assert!(update_screen(&mut q, &mut s).unwrap().is_empty());
    assert_eq!(s.back_buffer, vec![4; 5]);
}
