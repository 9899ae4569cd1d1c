//! A window: position on the screen, presentation flags and its own pixel buffer.

use vstd::prelude::*;
use crate::grid::{cell, lemma_cell_in_bounds, lemma_cell_distinct};
use crate::dwm::font::CachedGlyph;

verus! {

/// A window of `width` by `height` pixels whose top-left corner (below the
/// title bar, if any) sits at `(x, y)` on the screen.
pub struct Window {
    pub x: isize,
    pub y: isize,
    pub width: usize,
    pub height: usize,
    pub title: String,
    /// Hidden (minimised) windows are not composed.
    pub is_visible: bool,
    /// Pop-ups have no title bar.
    pub has_title_bar: bool,
    pub can_resizable: bool,
    pub can_movable: bool,
    pub is_active: bool,
    /// Pixels, row by row, `0x00RRGGBB`.
    pub buffer: Vec<u32>,
}

/// Colour channel of `c` that starts at bit `shift`.
pub open spec fn channel(c: u32, shift: u32) -> u32 {
    (c >> shift) & 0xff
}

/// Channel value `f` laid over `b` with coverage `a` out of 255, rounded down.
pub open spec fn mix(f: u32, b: u32, a: u32) -> u32 {
    ((f * a + b * (255 - a)) / 255) as u32
}

/// `fg` laid over `bg` with coverage `alpha`, channel by channel; the top byte is cleared.
pub open spec fn blend_spec(bg: u32, fg: u32, alpha: u8) -> u32 {
    let a = alpha as u32;
    (mix(channel(fg, 16), channel(bg, 16), a) << 16u32) | (mix(channel(fg, 8), channel(bg, 8), a)
        << 8u32) | mix(channel(fg, 0), channel(bg, 0), a)
}

proof fn lemma_mix_bounds(f: u32, b: u32, a: u32)
    requires
        f <= 255,
        b <= 255,
        a <= 255,
    ensures
        f * a + b * (255 - a) <= 65025,
        mix(f, b, a) <= 255,
{
    assert(f * a + b * (255 - a) <= 65025) by (nonlinear_arith)
        requires
            f <= 255,
            b <= 255,
            a <= 255,
    ;
}

impl Window {
    /// The buffer holds exactly one pixel for each column and row.
    pub open spec fn wf(&self) -> bool {
        &&& self.buffer@.len() == self.width * self.height
        &&& self.width * self.height <= usize::MAX
    }

    /// Pixel at column `px`, row `py` of the window's own buffer.
    pub open spec fn pixel(&self, px: int, py: int) -> u32 {
        self.buffer@[cell(self.width as int, px, py)]
    }

    pub open spec fn in_window(&self, px: int, py: int) -> bool {
        0 <= px < self.width && 0 <= py < self.height
    }

    pub open spec fn active(&self) -> bool {
        self.is_active
    }

    /// Only the buffer changed, and it kept its size.
    pub open spec fn same_frame(&self, other: &Window) -> bool {
        &&& self.x == other.x
        &&& self.y == other.y
        &&& self.width == other.width
        &&& self.height == other.height
        &&& self.title@ == other.title@
        &&& self.is_visible == other.is_visible
        &&& self.has_title_bar == other.has_title_bar
        &&& self.can_resizable == other.can_resizable
        &&& self.can_movable == other.can_movable
        &&& self.is_active == other.is_active
        &&& self.buffer@.len() == other.buffer@.len()
    }

    /// A new visible, inactive, resizable and movable window, cleared to black.
    pub fn new(x: isize, y: isize, width: usize, height: usize, title: &str, has_title_bar: bool) -> (w: Self)
        requires
            width * height <= usize::MAX,
        ensures
            w.wf(),
            w.x == x,
            w.y == y,
            w.width == width,
            w.height == height,
            w.title@ == title@,
            w.is_visible,
            w.has_title_bar == has_title_bar,
            w.can_resizable,
            w.can_movable,
            !w.active(),
            forall|i: int| 0 <= i < w.buffer@.len() ==> w.buffer@[i] == 0,
    {
        let buffer_size = width * height;
        let buffer = vec![0x000000u32; buffer_size];
        Window {
            x,
            y,
            width,
            height,
            title: title.to_owned(),
            is_visible: true,
            has_title_bar,
            can_resizable: true,
            can_movable: true,
            is_active: false,
            buffer,
        }
    }

    /// Sets the pixel at `(x, y)` to `color`; outside the window nothing happens.
    pub fn set_pixel(&mut self, x: usize, y: usize, color: u32)
        requires
            old(self).wf(),
        ensures
            final(self).wf(),
            final(self).same_frame(&*old(self)),
            old(self).in_window(x as int, y as int) ==> final(self).buffer@ == old(self).buffer@.update(
                cell(old(self).width as int, x as int, y as int),
                color,
            ),
            !old(self).in_window(x as int, y as int) ==> final(self).buffer@ == old(self).buffer@,
    {
        if x < self.width && y < self.height {
            proof {
                lemma_cell_in_bounds(self.width as int, self.height as int, x as int, y as int);
            }
            let i = y * self.width + x;
            self.buffer.set(i, color);
        }
    }

    /// Paints every pixel of the window's buffer `color`.
    pub fn fill(&mut self, color: u32)
        ensures
            final(self).same_frame(&*old(self)),
            forall|i: int| 0 <= i < final(self).buffer@.len() ==> final(self).buffer@[i] == color,
    {
        let n = self.buffer.len();
        let mut i: usize = 0;
        while i < n
            invariant
                self.same_frame(&*old(self)),
                n == self.buffer@.len(),
                i <= n,
                forall|j: int| 0 <= j < i ==> self.buffer@[j] == color,
            decreases n - i,
        {
            self.buffer.set(i, color);
            i = i + 1;
        }
    }

    /// Paints `color` over the part of the `w` by `h` rectangle at `(x, y)` that
    /// lies inside the window; the rest of the window is unchanged.
    pub fn fill_rect(&mut self, x: usize, y: usize, w: usize, h: usize, color: u32)
        requires
            old(self).wf(),
        ensures
            final(self).wf(),
            final(self).same_frame(&*old(self)),
            forall|px: int, py: int|
                old(self).in_window(px, py) ==> #[trigger] final(self).pixel(px, py) == if x <= px < x
                    + w && y <= py < y + h {
                    color
                } else {
                    old(self).pixel(px, py)
                },
    {
        let ghost width = self.width as int;
        let ghost height = self.height as int;
        // The rectangle is clipped at the right and bottom edges of the window.
        let x_end = if x >= self.width { x } else if w > self.width - x { self.width } else { x + w };
        let y_end = if y >= self.height { y } else if h > self.height - y { self.height } else { y + h };
        let mut py = y;
        while py < y_end
            invariant
                self.wf(),
                self.same_frame(&*old(self)),
                width == self.width,
                height == self.height,
                y <= py <= y_end,
                y_end <= height || y_end == y,
                y_end == if y >= height { y as int } else if h > height - y { height } else { y + h },
                x_end == if x >= width { x as int } else if w > width - x { width } else { x + w },
                forall|px: int, qy: int|
                    old(self).in_window(px, qy) ==> #[trigger] self.pixel(px, qy) == if x <= px < x + w
                        && y <= qy < py {
                        color
                    } else {
                        old(self).pixel(px, qy)
                    },
            decreases y_end - py,
        {
            let mut px = x;
            while px < x_end
                invariant
                    self.wf(),
                    self.same_frame(&*old(self)),
                    width == self.width,
                    height == self.height,
                    y <= py < y_end,
                    y_end <= height,
                    x <= px <= x_end,
                    x_end <= width || x_end == x,
                    x_end == if x >= width { x as int } else if w > width - x { width } else { x + w },
                    forall|qx: int, qy: int|
                        old(self).in_window(qx, qy) ==> #[trigger] self.pixel(qx, qy) == if x <= qx < x
                            + w && y <= qy < py {
                            color
                        } else if qy == py && x <= qx < px {
                            color
                        } else {
                            old(self).pixel(qx, qy)
                        },
                decreases x_end - px,
            {
                proof {
                    lemma_cell_in_bounds(width, height, px as int, py as int);
                }
                let ghost prev = *self;
                self.buffer.set(py * self.width + px, color);
                proof {
                    assert forall|qx: int, qy: int| old(self).in_window(qx, qy) implies
                        #[trigger] self.pixel(qx, qy) == if x <= qx < x + w && y <= qy < py {
                            color
                        } else if qy == py && x <= qx < px + 1 {
                            color
                        } else {
                            old(self).pixel(qx, qy)
                        } by {
                        lemma_cell_in_bounds(width, height, qx, qy);
                        if qx != px || qy != py {
                            lemma_cell_distinct(width, qx, qy, px as int, py as int);
                            assert(self.pixel(qx, qy) == prev.pixel(qx, qy));
                        }
                    }
                }
                px = px + 1;
            }
            py = py + 1;
        }
    }

    /// The pixel at `(x, y)`, or 0 outside the window.
    pub fn get_pixel(&self, x: usize, y: usize) -> (c: u32)
        requires
            self.wf(),
        ensures
            c == if self.in_window(x as int, y as int) {
                self.pixel(x as int, y as int)
            } else {
                0
            },
    {
        if x < self.width && y < self.height {
            proof {
                lemma_cell_in_bounds(self.width as int, self.height as int, x as int, y as int);
            }
            self.buffer[y * self.width + x]
        } else {
            0
        }
    }

    /// Lays `fg` over `bg` with coverage `alpha` (255 = opaque), channel by channel.
    pub fn blend(&self, bg: u32, fg: u32, alpha: u8) -> (c: u32)
        ensures
            c == blend_spec(bg, fg, alpha),
    {
        let a = alpha as u32;
        let inv_a = 255 - a;
        let fr = (fg >> 16) & 0xff;
        let br = (bg >> 16) & 0xff;
        let fgc = (fg >> 8) & 0xff;
        let bgc = (bg >> 8) & 0xff;
        let fb = fg & 0xff;
        let bb = bg & 0xff;
        proof {
            assert(fr <= 255 && br <= 255 && fgc <= 255 && bgc <= 255) by (bit_vector)
                requires
                    fr == (fg >> 16) & 0xff,
                    br == (bg >> 16) & 0xff,
                    fgc == (fg >> 8) & 0xff,
                    bgc == (bg >> 8) & 0xff,
            ;
            assert(fb <= 255 && bb <= 255) by (bit_vector)
                requires
                    fb == fg & 0xff,
                    bb == bg & 0xff,
            ;
            assert(fg & 0xff == (fg >> 0u32) & 0xff) by (bit_vector);
            assert(bg & 0xff == (bg >> 0u32) & 0xff) by (bit_vector);
            lemma_mix_bounds(fr, br, a);
            lemma_mix_bounds(fgc, bgc, a);
            lemma_mix_bounds(fb, bb, a);
        }
        let r = (fr * a + br * inv_a) / 255;
        let g = (fgc * a + bgc * inv_a) / 255;
        let b = (fb * a + bb * inv_a) / 255;
        (r << 16) | (g << 8) | b
    }

    /// Pixel `(px, py)` after the glyph is drawn with its top-left corner at
    /// `(sx, sy)`: untouched where the coverage is 0, `color` where it is 255, a
    /// blend of `color` over the pixel in between.
    pub open spec fn with_glyph_at(&self, glyph: &CachedGlyph, sx: int, sy: int, color: u32, px: int, py: int) -> u32 {
        if sx <= px < sx + glyph.width && sy <= py < sy + glyph.height {
            let a = glyph.alpha(px - sx, py - sy);
            if a == 0 {
                self.pixel(px, py)
            } else if a == 255 {
                color
            } else {
                blend_spec(self.pixel(px, py), color, a)
            }
        } else {
            self.pixel(px, py)
        }
    }

    /// Draws `glyph` with its top-left corner at `(start_x, start_y)` in `color`;
    /// the parts outside the window are dropped.
    pub fn draw_glyph(&mut self, start_x: usize, start_y: usize, color: u32, glyph: &CachedGlyph)
        requires
            old(self).wf(),
            glyph.wf(),
            glyph.width == 0 || glyph.height == 0 || (start_x + glyph.width - 1 <= usize::MAX
                && start_y + glyph.height - 1 <= usize::MAX),
        ensures
            final(self).wf(),
            final(self).same_frame(&*old(self)),
            forall|px: int, py: int|
                old(self).in_window(px, py) ==> #[trigger] final(self).pixel(px, py)
                    == old(self).with_glyph_at(glyph, start_x as int, start_y as int, color, px, py),
    {
        let ghost width = self.width as int;
        let ghost height = self.height as int;
        let ghost sx = start_x as int;
        let ghost sy = start_y as int;
        let gw = glyph.width;
        let gh = glyph.height;
        let n = glyph.alpha_map.len();
        let mut dy: usize = 0;
        while dy < gh
            invariant
                self.wf(),
                self.same_frame(&*old(self)),
                glyph.wf(),
                gw == glyph.width,
                gh == glyph.height,
                width == self.width,
                height == self.height,
                sx == start_x,
                sy == start_y,
                gw == 0 || gh == 0 || (start_x + gw - 1 <= usize::MAX && start_y + gh - 1 <= usize::MAX),
                dy <= gh,
                gw * gh <= n,
                forall|px: int, py: int|
                    old(self).in_window(px, py) ==> #[trigger] self.pixel(px, py) == if sy <= py < sy + dy {
                        old(self).with_glyph_at(glyph, sx, sy, color, px, py)
                    } else {
                        old(self).pixel(px, py)
                    },
            decreases gh - dy,
        {
            let mut dx: usize = 0;
            while dx < gw
                invariant
                    self.wf(),
                    self.same_frame(&*old(self)),
                    glyph.wf(),
                    gw == glyph.width,
                    gh == glyph.height,
                    width == self.width,
                    height == self.height,
                    sx == start_x,
                    sy == start_y,
                    gw == 0 || gh == 0 || (start_x + gw - 1 <= usize::MAX && start_y + gh - 1 <= usize::MAX),
                    dy < gh,
                    dx <= gw,
                    gw * gh <= n,
                    forall|px: int, py: int|
                        old(self).in_window(px, py) ==> #[trigger] self.pixel(px, py) == if sy <= py < sy + dy
                            || (py == sy + dy && sx <= px < sx + dx) {
                            old(self).with_glyph_at(glyph, sx, sy, color, px, py)
                        } else {
                            old(self).pixel(px, py)
                        },
                decreases gw - dx,
            {
                let px = start_x + dx;
                let py = start_y + dy;
                proof {
                    lemma_cell_in_bounds(gw as int, gh as int, dx as int, dy as int);
                }
                let alpha = glyph.alpha_map[dy * gw + dx];
                let ghost prev = *self;
                if alpha == 0 {
                } else if alpha == 255 {
                    self.set_pixel(px, py, color);
                } else {
                    let bg = self.get_pixel(px, py);
                    let blended = self.blend(bg, color, alpha);
                    self.set_pixel(px, py, blended);
                }
                proof {
                    assert forall|qx: int, qy: int| old(self).in_window(qx, qy) implies #[trigger] self.pixel(qx, qy)
                        == if sy <= qy < sy + dy || (qy == sy + dy && sx <= qx < sx + dx + 1) {
                        old(self).with_glyph_at(glyph, sx, sy, color, qx, qy)
                    } else {
                        old(self).pixel(qx, qy)
                    } by {
                        lemma_cell_in_bounds(width, height, qx, qy);
                        if qx != px || qy != py {
                            if prev.in_window(px as int, py as int) {
                                lemma_cell_distinct(width, qx, qy, px as int, py as int);
                                lemma_cell_in_bounds(width, height, px as int, py as int);
                                assert(self.buffer@.len() == prev.buffer@.len());
                                assert(self.buffer@[cell(width, qx, qy)] == prev.buffer@[cell(width, qx, qy)]);
                            } else {
                                assert(self.buffer@ == prev.buffer@);
                            }
                            assert(self.pixel(qx, qy) == prev.pixel(qx, qy));
                        } else {
                            assert(prev.pixel(qx, qy) == old(self).pixel(qx, qy));
                        }
                    }
                }
                dx = dx + 1;
            }
            dy = dy + 1;
        }
    }
}

/// Blending works channel by channel: each of the red, green and blue bytes of
/// the result is `(f * alpha + b * (255 - alpha)) / 255` rounded down, for the
/// foreground byte `f` and background byte `b` of that channel, and the top byte
/// of the result is zero.
pub proof fn lemma_blend_channels(bg: u32, fg: u32, alpha: u8)
    ensures
        ({
            let c = blend_spec(bg, fg, alpha);
            let a = alpha as int;
            &&& c >> 24u32 == 0
            &&& forall|s: u32|
                s == 16 || s == 8 || s == 0 ==> {
                    let f = ((fg >> s) & 0xff) as int;
                    let b = ((bg >> s) & 0xff) as int;
                    let out = ((#[trigger] (c >> s)) & 0xff) as int;
                    &&& out * 255 <= f * a + b * (255 - a)
                    &&& f * a + b * (255 - a) < out * 255 + 255
                }
        }),
{
    let a = alpha as u32;
    let fr = channel(fg, 16);
    let fgc = channel(fg, 8);
    let fb = channel(fg, 0);
    let br = channel(bg, 16);
    let bgc = channel(bg, 8);
    let bb = channel(bg, 0);
    assert(fr <= 255 && fgc <= 255 && fb <= 255) by (bit_vector)
        requires
            fr == (fg >> 16u32) & 0xff,
            fgc == (fg >> 8u32) & 0xff,
            fb == (fg >> 0u32) & 0xff,
    ;
    assert(br <= 255 && bgc <= 255 && bb <= 255) by (bit_vector)
        requires
            br == (bg >> 16u32) & 0xff,
            bgc == (bg >> 8u32) & 0xff,
            bb == (bg >> 0u32) & 0xff,
    ;
    lemma_mix_bounds(fr, br, a);
    lemma_mix_bounds(fgc, bgc, a);
    lemma_mix_bounds(fb, bb, a);
    let r = mix(fr, br, a);
    let g = mix(fgc, bgc, a);
    let b = mix(fb, bb, a);
    let c = (r << 16u32) | (g << 8u32) | b;
    assert(c >> 24u32 == 0 && (c >> 16u32) & 0xff == r && (c >> 8u32) & 0xff == g && (c >> 0u32) & 0xff == b)
        by (bit_vector)
        requires
            r <= 255,
            g <= 255,
            b <= 255,
            c == (r << 16u32) | (g << 8u32) | b,
    ;
    assert(r as int * 255 <= fr * a + br * (255 - a) < r as int * 255 + 255) by (nonlinear_arith)
        requires
            r as int == (fr * a + br * (255 - a)) / 255,
    ;
    assert(g as int * 255 <= fgc * a + bgc * (255 - a) < g as int * 255 + 255) by (nonlinear_arith)
        requires
            g as int == (fgc * a + bgc * (255 - a)) / 255,
    ;
    assert(b as int * 255 <= fb * a + bb * (255 - a) < b as int * 255 + 255) by (nonlinear_arith)
        requires
            b as int == (fb * a + bb * (255 - a)) / 255,
    ;
}

/// Full coverage gives the foreground colour and zero coverage the background
/// colour (each without its top byte), so `blend` agrees with the opaque and
/// transparent cases that `draw_glyph` handles without blending.
pub proof fn lemma_blend_extremes(bg: u32, fg: u32)
    ensures
        blend_spec(bg, fg, 255) == fg & 0xFFFFFF,
        blend_spec(bg, fg, 0) == bg & 0xFFFFFF,
{
    assert(channel(fg, 16) <= 255 && channel(fg, 8) <= 255 && channel(fg, 0) <= 255) by (bit_vector);
    assert(channel(bg, 16) <= 255 && channel(bg, 8) <= 255 && channel(bg, 0) <= 255) by (bit_vector);
    assert(mix(channel(fg, 16), channel(bg, 16), 255) == channel(fg, 16));
    assert(mix(channel(fg, 8), channel(bg, 8), 255) == channel(fg, 8));
    assert(mix(channel(fg, 0), channel(bg, 0), 255) == channel(fg, 0));
    assert(mix(channel(fg, 16), channel(bg, 16), 0) == channel(bg, 16));
    assert(mix(channel(fg, 8), channel(bg, 8), 0) == channel(bg, 8));
    assert(mix(channel(fg, 0), channel(bg, 0), 0) == channel(bg, 0));
    assert(((((fg >> 16u32) & 0xff) << 16u32) | (((fg >> 8u32) & 0xff) << 8u32) | ((fg >> 0u32) & 0xff))
        == fg & 0xFFFFFF) by (bit_vector);
    assert(((((bg >> 16u32) & 0xff) << 16u32) | (((bg >> 8u32) & 0xff) << 8u32) | ((bg >> 0u32) & 0xff))
        == bg & 0xFFFFFF) by (bit_vector);
}

/// Drawing a glyph at `(sx, sy)` lays coverage `alpha_map[dy * width + dx]`
/// of the row-major coverage map over window pixel `(sx + dx, sy + dy)`: zero
/// coverage keeps the pixel, full coverage gives `color`, anything between a
/// blend; pixels outside the glyph are kept.
pub proof fn lemma_glyph_coverage_row_major(w: Window, glyph: CachedGlyph, sx: int, sy: int, color: u32, dx: int, dy: int)
    requires
        0 <= dx < glyph.width,
        0 <= dy < glyph.height,
    ensures
        ({
            let a = glyph.alpha_map@[dy * glyph.width + dx];
            let before = w.pixel(sx + dx, sy + dy);
            w.with_glyph_at(&glyph, sx, sy, color, sx + dx, sy + dy) == if a == 0 {
                before
            } else if a == 255 {
                color
            } else {
                blend_spec(before, color, a)
            }
        }),
{
}

/// Pixels that the glyph does not cover keep their colour.
pub proof fn lemma_glyph_leaves_rest(w: Window, glyph: CachedGlyph, sx: int, sy: int, color: u32, px: int, py: int)
    requires
        !(sx <= px < sx + glyph.width && sy <= py < sy + glyph.height),
    ensures
        w.with_glyph_at(&glyph, sx, sy, color, px, py) == w.pixel(px, py),
{
}

/// Reading a pixel back gives what was last written there, and writing one
/// pixel leaves every other pixel of the window as it was: `after` is `w` with
/// pixel `(x, y)` set to `color`, as `set_pixel` leaves it.
pub proof fn lemma_pixel_read_after_write(w: Window, after: Window, x: int, y: int, color: u32)
    requires
        w.wf(),
        w.in_window(x, y),
        after.same_frame(&w),
        after.buffer@ == w.buffer@.update(cell(w.width as int, x, y), color),
    ensures
        after.pixel(x, y) == color,
        forall|qx: int, qy: int|
            w.in_window(qx, qy) && (qx != x || qy != y) ==> #[trigger] after.pixel(qx, qy) == w.pixel(qx, qy),
{
    lemma_cell_in_bounds(w.width as int, w.height as int, x, y);
    assert forall|qx: int, qy: int| w.in_window(qx, qy) && (qx != x || qy != y) implies #[trigger] after.pixel(
        qx,
        qy,
    ) == w.pixel(qx, qy) by {
        lemma_cell_in_bounds(w.width as int, w.height as int, qx, qy);
        lemma_cell_distinct(w.width as int, qx, qy, x, y);
    }
}

} // verus!
