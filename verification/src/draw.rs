//! The boot console: bitmap glyphs drawn straight into the back buffer, and
//! line-by-line text output through the draw queue.

use vstd::prelude::*;
use vstd::utf8::{valid_utf8, decode_utf8};
use crate::vga::{DrawCommand, Screen, push_command, request_update};
use crate::text::{utf8_text, lemma_ascii_decode};

verus! {

/// Height of a console line, in pixels.
pub const LINE_HEIGHT: u64 = 24;

/// Background of a console page.
pub const PAGE_COLOR: u32 = 0xFFFFFF;

/// Colour of console text.
pub const TEXT_COLOR: u32 = 0x000000;

/// Glyph bit `col` (0 = leftmost) of a 24-pixel glyph row stored in the top bits of `row_data`.
pub open spec fn glyph_bit(row_data: u32, col: int) -> bool {
    (row_data >> ((31 - col) as u32)) & 1 == 1
}

/// Back-buffer position of glyph pixel `(col, row)` for a glyph placed at `(x, y)`.
pub open spec fn glyph_offset(screen_width: int, x: int, y: int, col: int, row: int) -> int {
    (y + row) * screen_width + (x + col)
}

/// Some set pixel of `glyph`, placed at `(x, y)`, lands on back-buffer position `i`.
pub open spec fn glyph_covers(glyph: Seq<u32>, screen_width: int, x: int, y: int, i: int) -> bool {
    exists|col: int, row: int|
        0 <= col < 24 && 0 <= row < 24 && glyph_bit(glyph[row], col) && #[trigger] glyph_offset(
            screen_width,
            x,
            y,
            col,
            row,
        ) == i
}

/// The back-buffer position of every set pixel of `glyph` placed at `(x, y)`
/// can be computed in 64 bits.
pub open spec fn glyph_fits(glyph: Seq<u32>, screen_width: int, x: int, y: int) -> bool {
    forall|col: int, row: int|
        0 <= col < 24 && 0 <= row < 24 && glyph_bit(glyph[row], col) ==> y + row <= u64::MAX
            && #[trigger] glyph_offset(screen_width, x, y, col, row) <= u64::MAX
}

/// Draws the 24 by 24 bitmap `glyph` (one row per word, leftmost pixel in bit 31)
/// in black at `(x_start, y_start)`: every set pixel that lands inside the buffer
/// becomes black, every other pixel is kept.
pub fn draw_glyph(buffer: &mut Vec<u32>, screen_width: usize, x_start: u64, y_start: u64, glyph: &[u32; 24])
    requires
        glyph_fits(glyph@, screen_width as int, x_start as int, y_start as int),
    ensures
        final(buffer)@.len() == old(buffer)@.len(),
        forall|i: int|
            0 <= i < old(buffer)@.len() ==> #[trigger] final(buffer)@[i] == if glyph_covers(
                glyph@,
                screen_width as int,
                x_start as int,
                y_start as int,
                i,
            ) {
                TEXT_COLOR
            } else {
                old(buffer)@[i]
            },
{
    let ghost sw = screen_width as int;
    let ghost xs = x_start as int;
    let ghost ys = y_start as int;
    let width = screen_width as u64;
    let mut row: usize = 0;
    while row < 24
        invariant
            buffer@.len() == old(buffer)@.len(),
            width == screen_width,
            glyph_fits(glyph@, screen_width as int, x_start as int, y_start as int),
            sw == screen_width,
            xs == x_start,
            ys == y_start,
            row <= 24,
            forall|i: int|
                0 <= i < old(buffer)@.len() ==> #[trigger] buffer@[i] == if exists|col: int, r: int|
                    0 <= col < 24 && 0 <= r < row && glyph_bit(glyph@[r], col) && #[trigger] glyph_offset(
                        sw,
                        xs,
                        ys,
                        col,
                        r,
                    ) == i {
                    TEXT_COLOR
                } else {
                    old(buffer)@[i]
                },
        decreases 24 - row,
    {
        let row_data = glyph[row];
        let mut col: usize = 0;
        while col < 24
            invariant
                buffer@.len() == old(buffer)@.len(),
                width == screen_width,
                glyph_fits(glyph@, screen_width as int, x_start as int, y_start as int),
                sw == screen_width,
                xs == x_start,
                ys == y_start,
                row < 24,
                row_data == glyph@[row as int],
                col <= 24,
                forall|i: int|
                    0 <= i < old(buffer)@.len() ==> #[trigger] buffer@[i] == if exists|c: int, r: int|
                        0 <= c < 24 && 0 <= r < 24 && (r < row || (r == row && c < col)) && glyph_bit(
                            glyph@[r],
                            c,
                        ) && #[trigger] glyph_offset(sw, xs, ys, c, r) == i {
                        TEXT_COLOR
                    } else {
                        old(buffer)@[i]
                    },
            decreases 24 - col,
        {
            let bit = (row_data >> (31 - col as u32)) & 1;
            if bit == 1 {
                proof {
                    assert(glyph_bit(glyph@[row as int], col as int));
                    assert(glyph_offset(sw, xs, ys, col as int, row as int) <= u64::MAX);
                    let yy = y_start + row;
                    assert(0 <= yy * width) by (nonlinear_arith)
                        requires
                            0 <= yy,
                            0 <= width,
                    ;
                }
                let yrow: u64 = y_start + row as u64;
                let line_start: u64 = yrow * width;
                let offset = line_start + (x_start + col as u64);
                if offset < buffer.len() as u64 {
                    let ghost prev = buffer@;
                    buffer.set(offset as usize, TEXT_COLOR);
                    proof {
                        assert(glyph_offset(sw, xs, ys, col as int, row as int) == offset);
                        assert forall|i: int| 0 <= i < old(buffer)@.len() implies #[trigger] buffer@[i]
                            == if exists|c: int, r: int|
                            0 <= c < 24 && 0 <= r < 24 && (r < row || (r == row && c < col + 1)) && glyph_bit(
                                glyph@[r],
                                c,
                            ) && #[trigger] glyph_offset(sw, xs, ys, c, r) == i {
                            TEXT_COLOR
                        } else {
                            old(buffer)@[i]
                        } by {
                            if i == offset {
                            } else {
                                assert(buffer@[i] == prev[i]);
                            }
                        }
                    }
                } else {
                    proof {
                        assert(glyph_offset(sw, xs, ys, col as int, row as int) == offset);
                    }
                }
            }
            col = col + 1;
        }
        row = row + 1;
    }
}

/// Where the next console line goes, and whether booting has finished (until then
/// every line is shown at once).
pub struct Console {
    pub current_y: u64,
    pub initialized: bool,
}

/// `cmd` draws `text` in the console colour at the left edge of line `y`.
pub open spec fn line_command(cmd: DrawCommand, y: u64, text: Seq<char>) -> bool {
    &&& cmd matches DrawCommand::Text { x, y: line_y, color, content }
    &&& x == 0
    &&& line_y == y as usize
    &&& color == TEXT_COLOR
    &&& content@ == text
}

/// A line at `current_y` would not fit on a screen `height` pixels high.
pub open spec fn must_scroll(current_y: u64, height: usize) -> bool {
    current_y + LINE_HEIGHT > height
}

/// What a console line queues after `queue`: a page clear when the screen is
/// full, then the line itself; `line` is the queue afterwards.
pub open spec fn queued_line(queue: Seq<DrawCommand>, line: Seq<DrawCommand>, current_y: u64, height: usize, text: Seq<char>) -> bool {
    let scroll = must_scroll(current_y, height);
    let y: u64 = if scroll { 0 } else { current_y };
    &&& line.len() == queue.len() + if scroll { 2int } else { 1int }
    &&& line.subrange(0, queue.len() as int) == queue
    &&& scroll ==> line[queue.len() as int] == DrawCommand::Clear(PAGE_COLOR)
    &&& line_command(line.last(), y, text)
}

/// ASCII code of hexadecimal digit `d` (upper case).
pub open spec fn hex_digit(d: u64) -> u8 {
    if d < 10 {
        (0x30 + d) as u8
    } else {
        (0x41 + d - 10) as u8
    }
}

/// Character `i` of `value` written as `0x` and sixteen upper-case hexadecimal digits.
pub open spec fn hex_byte(value: u64, i: int) -> u8 {
    if i == 0 {
        0x30
    } else if i == 1 {
        0x78
    } else {
        hex_digit((value >> ((4 * (17 - i)) as u64)) & 0xF)
    }
}

/// `value` written as `0x` and sixteen upper-case hexadecimal digits.
pub open spec fn hex_text(value: u64) -> Seq<char> {
    Seq::new(18, |i: int| hex_byte(value, i) as char)
}

/// Queues `s` as the next console line, starting a fresh page first when the
/// screen is full. Returns whether the screen must be redrawn at once (booting has
/// not finished); otherwise an update is requested.
pub fn println(console: &mut Console, queue: &mut Vec<DrawCommand>, screen: &mut Screen, s: &str) -> (render_now: bool)
    requires
        old(console).current_y + LINE_HEIGHT <= u64::MAX,
    ensures
        queued_line(old(queue)@, final(queue)@, old(console).current_y, old(screen).height, s@),
        final(console).current_y == (if must_scroll(old(console).current_y, old(screen).height) {
            0
        } else {
            old(console).current_y
        }) + LINE_HEIGHT,
        final(console).initialized == old(console).initialized,
        render_now == !old(console).initialized,
        final(screen).needs_frame_update == (old(screen).needs_frame_update || old(console).initialized),
        final(screen).width == old(screen).width,
        final(screen).height == old(screen).height,
        final(screen).back_buffer@ == old(screen).back_buffer@,
{
    if console.current_y + LINE_HEIGHT > screen.height as u64 {
        push_command(queue, DrawCommand::Clear(PAGE_COLOR));
        console.current_y = 0;
    }
    let content = s.to_owned();
    push_command(queue, DrawCommand::Text { x: 0, y: console.current_y as usize, color: TEXT_COLOR, content });
    console.current_y = console.current_y + LINE_HEIGHT;
    proof {
        assert(final(queue)@.subrange(0, old(queue)@.len() as int) =~= old(queue)@);
    }
    if !console.initialized {
        true
    } else {
        request_update(screen);
        false
    }
}

/// Queues `value` as a console line in the form `0x0123456789ABCDEF`; the result
/// is that of `println`.
pub fn print_hex(console: &mut Console, queue: &mut Vec<DrawCommand>, screen: &mut Screen, value: u64) -> (render_now: bool)
    requires
        old(console).current_y + LINE_HEIGHT <= u64::MAX,
    ensures
        queued_line(old(queue)@, final(queue)@, old(console).current_y, old(screen).height, hex_text(value)),
        final(console).current_y == (if must_scroll(old(console).current_y, old(screen).height) {
            0
        } else {
            old(console).current_y
        }) + LINE_HEIGHT,
        final(console).initialized == old(console).initialized,
        render_now == !old(console).initialized,
        final(screen).needs_frame_update == (old(screen).needs_frame_update || old(console).initialized),
        final(screen).width == old(screen).width,
        final(screen).height == old(screen).height,
        final(screen).back_buffer@ == old(screen).back_buffer@,
{
    let mut buf: Vec<u8> = vec![0u8; 18];
    buf.set(0, 0x30);
    buf.set(1, 0x78);
    let mut i: usize = 0;
    while i < 16
        invariant
            buf@.len() == 18,
            i <= 16,
            buf@[0] == 0x30,
            buf@[1] == 0x78,
            forall|j: int| 2 <= j < i + 2 ==> #[trigger] buf@[j] == hex_byte(value, j),
        decreases 16 - i,
    {
        let d = (value >> ((15 - i) * 4) as u64) & 0xF;
        proof {
            assert(d <= 15) by (bit_vector)
                requires
                    d == (value >> (((15 - i) * 4) as u64)) & 0xF,
            ;
            assert((4 * (17 - (i + 2))) as u64 == ((15 - i) * 4) as u64);
        }
        let c: u8 = if d < 10 { 0x30 + d as u8 } else { 0x41 + (d as u8 - 10) };
        buf.set(i + 2, c);
        i = i + 1;
    }
    proof {
        assert forall|j: int| 0 <= j < buf@.len() implies #[trigger] buf@[j] < 0x80 && buf@[j] == hex_byte(value, j) by {
            if j >= 2 {
                let sh = (4 * (17 - j)) as u64;
                assert((value >> sh) & 0xF <= 15) by (bit_vector);
            }
        }
        lemma_ascii_decode(buf@);
        assert(decode_utf8(buf@) =~= hex_text(value));
    }
    match utf8_text(buf.as_slice()) {
        Some(text) => println(console, queue, screen, text),
        None => {
            proof {
                assert(valid_utf8(buf@));
            }
            false
        },
    }
}

/// On a screen at least one line high, a console whose position is on the screen
/// writes each line entirely on the screen and stays on it.
pub proof fn lemma_console_line_fits(current_y: u64, height: usize)
    requires
        LINE_HEIGHT <= height,
        current_y <= height,
    ensures
        ({
            let y = if must_scroll(current_y, height) { 0 } else { current_y as int };
            &&& y + LINE_HEIGHT <= height
            &&& 0 <= y + LINE_HEIGHT
        }),
{
}

proof fn lemma_hex_digit_injective(a: u64, b: u64)
    requires
        a < 16,
        b < 16,
        hex_digit(a) == hex_digit(b),
    ensures
        a == b,
{
}

proof fn lemma_hex_nibble(a: u64, b: u64, j: int)
    requires
        hex_text(a) == hex_text(b),
        2 <= j < 18,
    ensures
        (a >> ((4 * (17 - j)) as u64)) & 0xF == (b >> ((4 * (17 - j)) as u64)) & 0xF,
{
    let sh = (4 * (17 - j)) as u64;
    assert((a >> sh) & 0xF < 16 && (b >> sh) & 0xF < 16) by (bit_vector);
    assert(hex_text(a)[j] == hex_byte(a, j) as char);
    assert(hex_text(b)[j] == hex_byte(b, j) as char);
    assert((hex_byte(a, j) as char) as u32 == hex_byte(a, j) as u32);
    assert((hex_byte(b, j) as char) as u32 == hex_byte(b, j) as u32);
    lemma_hex_digit_injective((a >> sh) & 0xF, (b >> sh) & 0xF);
}

/// Different numbers are printed differently: the hexadecimal text determines the value.
pub proof fn lemma_hex_text_injective(a: u64, b: u64)
    requires
        hex_text(a) == hex_text(b),
    ensures
        a == b,
{
    lemma_hex_high_digits(a, b, 17);
    assert((4 * (17 - 17int)) as u64 == 0u64);
    assert(a >> 0u64 == a && b >> 0u64 == b) by (bit_vector);
}

/// Equal texts agree on the value above the last `17 - j` digits.
proof fn lemma_hex_high_digits(a: u64, b: u64, j: int)
    requires
        hex_text(a) == hex_text(b),
        2 <= j <= 17,
    ensures
        a >> ((4 * (17 - j)) as u64) == b >> ((4 * (17 - j)) as u64),
    decreases j,
{
    lemma_hex_nibble(a, b, j);
    let sh = (4 * (17 - j)) as u64;
    if j == 2 {
        assert(sh == 60u64);
        assert((a >> 60u64) & 0xF == (b >> 60u64) & 0xF ==> a >> 60u64 == b >> 60u64) by (bit_vector);
    } else {
        lemma_hex_high_digits(a, b, j - 1);
        assert((4 * (17 - (j - 1))) as u64 == sh + 4);
        assert(a >> sh == b >> sh) by (bit_vector)
            requires
                sh <= 56,
                a >> (sh + 4) == b >> (sh + 4),
                (a >> sh) & 0xF == (b >> sh) & 0xF,
        ;
    }
}

/// Each of the sixteen characters after `0x` is the hexadecimal digit, from
/// "0123456789ABCDEF", of the corresponding nibble of `value`, most significant
/// first.
pub proof fn lemma_hex_text_digits(value: u64, j: int)
    requires
        0 <= j < 16,
    ensures
        hex_text(value).len() == 18,
        hex_text(value)[0] == '0',
        hex_text(value)[1] == 'x',
        hex_text(value)[j + 2] == "0123456789ABCDEF"@[((value >> ((4 * (15 - j)) as u64)) & 0xF) as int],
{
    reveal_strlit("0123456789ABCDEF");
    let sh = (4 * (15 - j)) as u64;
    let n = (value >> sh) & 0xF;
    assert(n < 16) by (bit_vector)
        requires
            n == (value >> sh) & 0xF,
    ;
    assert((4 * (17 - (j + 2))) as u64 == sh);
    assert(hex_text(value)[j + 2] == hex_digit(n) as char);
    assert(hex_text(value)[0] == (0x30u8) as char);
    assert(hex_text(value)[1] == (0x78u8) as char);
    if n == 0 {
    } else if n == 1 {
    } else if n == 2 {
    } else if n == 3 {
    } else if n == 4 {
    } else if n == 5 {
    } else if n == 6 {
    } else if n == 7 {
    } else if n == 8 {
    } else if n == 9 {
    } else if n == 10 {
    } else if n == 11 {
    } else if n == 12 {
    } else if n == 13 {
    } else if n == 14 {
    } else {
    }
}

/// A console line goes on a fresh page exactly when it would not fit below the
/// current position: while `current_y + 24 <= height` the line is queued at
/// `current_y` with nothing before it and the position moves down one line;
/// otherwise a page clear comes first and the line goes to the top.
pub proof fn lemma_println_scrolls_only_when_full(
    queue: Seq<DrawCommand>,
    line: Seq<DrawCommand>,
    current_y: u64,
    new_y: int,
    height: usize,
    text: Seq<char>,
)
    requires
        queued_line(queue, line, current_y, height, text),
        new_y == (if must_scroll(current_y, height) { 0 } else { current_y }) + LINE_HEIGHT,
    ensures
        current_y + 24 <= height ==> {
            &&& line.len() == queue.len() + 1
            &&& line.subrange(0, queue.len() as int) == queue
            &&& line_command(line.last(), current_y, text)
            &&& new_y == current_y + 24
        },
        current_y + 24 > height ==> {
            &&& line.len() == queue.len() + 2
            &&& line[queue.len() as int] == DrawCommand::Clear(0xFFFFFF)
            &&& line_command(line.last(), 0, text)
            &&& new_y == 24
        },
{
}

} // verus!
