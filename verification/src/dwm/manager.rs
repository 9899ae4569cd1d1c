//! The compositor: a stack of windows drawn back to front into a screen-sized buffer.

use vstd::prelude::*;
use crate::grid::{cell, lemma_cell_in_bounds, lemma_cell_distinct};
use crate::dwm::window::Window;
use crate::dwm::font::{FontManager, font_parses, cached_glyphs, no_glyphs};

verus! {

/// Colour of the desktop behind all windows.
pub const DESKTOP_COLOR: u32 = 0x999999;

/// Colour a new screen buffer starts with.
pub const INITIAL_COLOR: u32 = 0x008080;

/// Height of a window's title bar, in pixels.
pub const TITLE_BAR_HEIGHT: usize = 24;

/// Title bar colour of the active window.
pub const ACTIVE_TITLE_COLOR: u32 = 0x0000AA;

/// Title bar colour of the other windows.
pub const INACTIVE_TITLE_COLOR: u32 = 0x555555;

/// Rows the title bar of `w` takes above its contents.
pub open spec fn title_rows(w: Window) -> int {
    if w.has_title_bar {
        TITLE_BAR_HEIGHT as int
    } else {
        0
    }
}

/// Screen pixel `(sx, sy)` lies on the title bar of `w`.
pub open spec fn covers_title(w: Window, sx: int, sy: int) -> bool {
    &&& w.has_title_bar
    &&& w.x <= sx < w.x + w.width
    &&& w.y <= sy < w.y + TITLE_BAR_HEIGHT
}

/// Screen pixel `(sx, sy)` lies on the contents of `w`.
pub open spec fn covers_body(w: Window, sx: int, sy: int) -> bool {
    &&& w.x <= sx < w.x + w.width
    &&& w.y + title_rows(w) <= sy < w.y + title_rows(w) + w.height
}

pub open spec fn title_color(w: Window) -> u32 {
    if w.is_active {
        ACTIVE_TITLE_COLOR
    } else {
        INACTIVE_TITLE_COLOR
    }
}

/// `w` draws over screen pixel `(sx, sy)`.
pub open spec fn shows(w: Window, sx: int, sy: int) -> bool {
    w.is_visible && (covers_title(w, sx, sy) || covers_body(w, sx, sy))
}

/// What `w` draws at screen pixel `(sx, sy)`.
pub open spec fn window_color(w: Window, sx: int, sy: int) -> u32 {
    if covers_title(w, sx, sy) {
        title_color(w)
    } else {
        w.pixel(sx - w.x, sy - w.y - title_rows(w))
    }
}

/// Screen pixel `(sx, sy)` once the windows of `ws` are drawn in order over the
/// desktop: the last window that shows there decides its colour.
pub open spec fn composed(ws: Seq<Window>, sx: int, sy: int) -> u32
    decreases ws.len(),
{
    if ws.len() == 0 {
        DESKTOP_COLOR
    } else if shows(ws.last(), sx, sy) {
        window_color(ws.last(), sx, sy)
    } else {
        composed(ws.drop_last(), sx, sy)
    }
}

/// Rows that the compositor treats as on the screen: the screen's height, read
/// as a signed number (a height beyond `isize::MAX` leaves no row on it).
pub open spec fn rows_shown(screen_height: int) -> int {
    if screen_height <= isize::MAX {
        screen_height
    } else {
        0
    }
}

/// A title-bar or content row of `w` lies on a screen with `rows` rows.
pub open spec fn meets_screen_rows(w: Window, rows: int) -> bool {
    ||| w.has_title_bar && w.y < rows && w.y + TITLE_BAR_HEIGHT > 0
    ||| w.height > 0 && w.y + title_rows(w) < rows && w.y + title_rows(w) + w.height > 0
}

/// `w` can be composed onto a screen with `rows` rows: a hidden window always
/// (it is skipped); a visible one when its buffer holds at least one pixel per
/// column and row, the screen rows of its title bar and contents can be
/// computed without overflow, and so can the screen columns, where some of its
/// rows lie on the screen.
pub open spec fn placeable(w: Window, rows: int) -> bool {
    w.is_visible ==> {
        &&& w.buffer@.len() >= w.width * w.height
        &&& w.width == 0 || w.width - 1 <= isize::MAX
        &&& w.has_title_bar ==> w.y + TITLE_BAR_HEIGHT - 1 <= isize::MAX
        &&& w.height == 0 || (w.height - 1 + title_rows(w) <= isize::MAX && w.y + title_rows(w) + w.height
            - 1 <= isize::MAX)
        &&& w.width > 0 && meets_screen_rows(w, rows) ==> w.x + w.width - 1 <= isize::MAX
    }
}

/// Whether `w` can be composed onto a screen `screen_height` pixels high (see `placeable`).
pub fn is_placeable(w: &Window, screen_height: usize) -> (b: bool)
    ensures
        b == placeable(*w, rows_shown(screen_height as int)),
{
    if !w.is_visible {
        return true;
    }
    let wd = w.width as u128;
    let ht = w.height as u128;
    assert(wd * ht <= 0xFFFF_FFFF_FFFF_FFFFu128 * 0xFFFF_FFFF_FFFF_FFFFu128) by (nonlinear_arith)
        requires
            wd <= 0xFFFF_FFFF_FFFF_FFFFu128,
            ht <= 0xFFFF_FFFF_FFFF_FFFFu128,
    ;
    let size = wd * ht;
    if (w.buffer.len() as u128) < size {
        return false;
    }
    let max = isize::MAX as i128;
    let rows: i128 = if screen_height as u128 <= isize::MAX as u128 { screen_height as i128 } else { 0 };
    let title: i128 = if w.has_title_bar { TITLE_BAR_HEIGHT as i128 } else { 0 };
    let width = w.width as i128;
    let height = w.height as i128;
    let x = w.x as i128;
    let y = w.y as i128;
    let bar = TITLE_BAR_HEIGHT as i128;
    let width_ok = width == 0 || width - 1 <= max;
    let title_ok = !w.has_title_bar || y + bar - 1 <= max;
    let rows_ok = height == 0 || (height - 1 + title <= max && y + title + height - 1 <= max);
    let on_screen = (w.has_title_bar && y < rows && y + bar > 0) || (height > 0 && y + title < rows && y
        + title + height > 0);
    let columns_ok = !(width > 0 && on_screen) || x + width - 1 <= max;
    width_ok && title_ok && rows_ok && columns_ok
}

/// The window stack, the screen-sized buffer it is composed into, and the font
/// that text on the windows is drawn with.
pub struct WindowManager<'a> {
    pub screen_width: usize,
    pub screen_height: usize,
    /// Bottom to top: the last window is in front.
    pub windows: Vec<Window>,
    /// One pixel per screen position, row by row.
    pub back_buffer: Vec<u32>,
    pub font_manager: FontManager<'a>,
}

impl<'a> WindowManager<'a> {
    /// The back buffer covers the screen (and, being a vector of pixels, holds
    /// at most `isize::MAX` of them), and every window can be composed on it.
    pub open spec fn wf(&self) -> bool {
        &&& self.back_buffer@.len() == self.screen_width * self.screen_height
        &&& self.screen_width * self.screen_height <= isize::MAX
        &&& forall|i: int|
            0 <= i < self.windows@.len() ==> placeable(
                #[trigger] self.windows@[i],
                rows_shown(self.screen_height as int),
            )
    }

    pub open spec fn on_screen(&self, sx: int, sy: int) -> bool {
        0 <= sx < self.screen_width && 0 <= sy < self.screen_height
    }

    /// Back buffer pixel at screen position `(sx, sy)`.
    pub open spec fn screen_pixel(&self, sx: int, sy: int) -> u32 {
        self.back_buffer@[cell(self.screen_width as int, sx, sy)]
    }

    /// An empty desktop of `width` by `height` pixels with the font in
    /// `font_data`, or `None` where those bytes are not a font.
    pub fn new(width: usize, height: usize, font_data: &'a [u8]) -> (r: Option<Self>)
        requires
            width * height <= isize::MAX,
        ensures
            r is Some == font_parses(font_data@),
            r matches Some(m) ==> {
                &&& m.wf()
                &&& m.screen_width == width
                &&& m.screen_height == height
                &&& m.windows@.len() == 0
                &&& m.back_buffer@.len() == width * height
                &&& forall|i: int| 0 <= i < m.back_buffer@.len() ==> m.back_buffer@[i] == INITIAL_COLOR
                &&& cached_glyphs(m.font_manager.cache) == no_glyphs()
            },
    {
        match FontManager::new(font_data) {
            Some(font_manager) => Some(
                WindowManager {
                    screen_width: width,
                    screen_height: height,
                    windows: Vec::new(),
                    back_buffer: vec![INITIAL_COLOR; width * height],
                    font_manager,
                },
            ),
            None => None,
        }
    }

    /// Puts `window` in front of all others.
    pub fn add_window(&mut self, window: Window)
        requires
            old(self).wf(),
            placeable(window, rows_shown(old(self).screen_height as int)),
        ensures
            final(self).wf(),
            final(self).windows@ == old(self).windows@.push(window),
            final(self).back_buffer@ == old(self).back_buffer@,
            final(self).screen_width == old(self).screen_width,
            final(self).screen_height == old(self).screen_height,
    {
        self.windows.push(window);
        proof {
            assert forall|i: int| 0 <= i < self.windows@.len() implies placeable(
                #[trigger] self.windows@[i],
                rows_shown(self.screen_height as int),
            ) by {
                if i < old(self).windows@.len() {
                    assert(self.windows@[i] == old(self).windows@[i]);
                }
            }
        }
    }

    /// Redraws the back buffer: the desktop colour, then every visible window from
    /// the bottom of the stack to the top, clipped to the screen.
    pub fn compose_all(&mut self)
        requires
            old(self).wf(),
        ensures
            final(self).wf(),
            final(self).windows@ == old(self).windows@,
            final(self).screen_width == old(self).screen_width,
            final(self).screen_height == old(self).screen_height,
            forall|sx: int, sy: int|
                old(self).on_screen(sx, sy) ==> #[trigger] final(self).screen_pixel(sx, sy) == composed(
                    old(self).windows@,
                    sx,
                    sy,
                ),
    {
        let sw = self.screen_width;
        let sh = self.screen_height;
        let n = self.back_buffer.len();
        let mut i: usize = 0;
        while i < n
            invariant
                self.wf(),
                self.windows@ == old(self).windows@,
                self.screen_width == sw,
                self.screen_height == sh,
                n == self.back_buffer@.len(),
                i <= n,
                forall|j: int| 0 <= j < i ==> self.back_buffer@[j] == DESKTOP_COLOR,
            decreases n - i,
        {
            self.back_buffer.set(i, DESKTOP_COLOR);
            i = i + 1;
        }
        if sw == 0 || sh == 0 {
            // No pixel is on the screen.
            return;
        }
        proof {
            assert(sw <= isize::MAX && sh <= isize::MAX) by (nonlinear_arith)
                requires
                    1 <= sw,
                    1 <= sh,
                    sw * sh <= isize::MAX,
            ;
        }
        let count = self.windows.len();
        proof {
            assert forall|sx: int, sy: int| self.on_screen(sx, sy) implies #[trigger] self.screen_pixel(sx, sy)
                == composed(self.windows@.take(0), sx, sy) by {
                lemma_cell_in_bounds(sw as int, sh as int, sx, sy);
            }
        }
        let mut k: usize = 0;
        while k < count
            invariant
                self.wf(),
                self.windows@ == old(self).windows@,
                self.screen_width == sw,
                self.screen_height == sh,
                1 <= sw <= isize::MAX,
                1 <= sh <= isize::MAX,
                count == self.windows@.len(),
                k <= count,
                forall|sx: int, sy: int|
                    self.on_screen(sx, sy) ==> #[trigger] self.screen_pixel(sx, sy) == composed(
                        self.windows@.take(k as int),
                        sx,
                        sy,
                    ),
            decreases count - k,
        {
            let ghost before = *self;
            let win = &self.windows[k];
            paint_window(&mut self.back_buffer, sw, sh, win);
            proof {
                let ws = self.windows@.take(k as int + 1);
                assert(ws.drop_last() == self.windows@.take(k as int));
                assert(ws.last() == self.windows@[k as int]);
                assert forall|sx: int, sy: int| self.on_screen(sx, sy) implies #[trigger] self.screen_pixel(sx, sy)
                    == composed(ws, sx, sy) by {
                    assert(before.screen_pixel(sx, sy) == composed(self.windows@.take(k as int), sx, sy));
                }
            }
            k = k + 1;
        }
        proof {
            assert(self.windows@.take(count as int) == self.windows@);
        }
    }
}

/// Draws `win` over a `sw` by `sh` screen buffer: where it shows, its colour
/// replaces the pixel; elsewhere the buffer is kept.
fn paint_window(back: &mut Vec<u32>, sw: usize, sh: usize, win: &Window)
    requires
        old(back)@.len() == sw * sh,
        sw * sh <= usize::MAX,
        sw <= isize::MAX,
        sh <= isize::MAX,
        placeable(*win, sh as int),
    ensures
        final(back)@.len() == old(back)@.len(),
        forall|sx: int, sy: int|
            0 <= sx < sw && 0 <= sy < sh ==> #[trigger] final(back)@[cell(sw as int, sx, sy)] == if shows(
                *win,
                sx,
                sy,
            ) {
                window_color(*win, sx, sy)
            } else {
                old(back)@[cell(sw as int, sx, sy)]
            },
{
    if !win.is_visible {
        return;
    }
    let ghost w = *win;
    let pixels = win.buffer.len();
    let title_height: usize = if win.has_title_bar { TITLE_BAR_HEIGHT } else { 0 };
    let color = if win.is_active { ACTIVE_TITLE_COLOR } else { INACTIVE_TITLE_COLOR };
    // The title bar.
    let mut ty: usize = 0;
    while ty < title_height
        invariant
            back@.len() == sw * sh,
            sw * sh <= usize::MAX,
            sw <= isize::MAX,
            sh <= isize::MAX,
            w == *win,
            placeable(w, sh as int),
            w.is_visible,
            title_height == title_rows(w),
            color == title_color(w),
            ty <= title_height,
            forall|sx: int, sy: int|
                0 <= sx < sw && 0 <= sy < sh ==> #[trigger] back@[cell(sw as int, sx, sy)] == if covers_title(
                    w,
                    sx,
                    sy,
                ) && sy < w.y + ty {
                    color
                } else {
                    old(back)@[cell(sw as int, sx, sy)]
                },
        decreases title_height - ty,
    {
        let screen_y = win.y + ty as isize;
        if !(screen_y < 0 || screen_y >= sh as isize) {
            assert(meets_screen_rows(w, sh as int));
            let mut tx: usize = 0;
            while tx < win.width
                invariant
                    back@.len() == sw * sh,
                    sw * sh <= usize::MAX,
                    sw <= isize::MAX,
                    sh <= isize::MAX,
                    w == *win,
                    placeable(w, sh as int),
                    w.is_visible,
                    title_height == title_rows(w),
                    color == title_color(w),
                    ty < title_height,
                    screen_y == w.y + ty,
                    0 <= screen_y < sh,
                    tx <= w.width,
                    forall|sx: int, sy: int|
                        0 <= sx < sw && 0 <= sy < sh ==> #[trigger] back@[cell(sw as int, sx, sy)] == if covers_title(
                            w,
                            sx,
                            sy,
                        ) && (sy < w.y + ty || (sy == screen_y && sx < w.x + tx)) {
                            color
                        } else {
                            old(back)@[cell(sw as int, sx, sy)]
                        },
                decreases w.width - tx,
            {
                let screen_x = win.x + tx as isize;
                if !(screen_x < 0 || screen_x >= sw as isize) {
                    let ghost prev = *back;
                    proof {
                        lemma_cell_in_bounds(sw as int, sh as int, screen_x as int, screen_y as int);
                    }
                    back.set(screen_y as usize * sw + screen_x as usize, color);
                    proof {
                        assert forall|sx: int, sy: int| 0 <= sx < sw && 0 <= sy < sh && (sx != screen_x || sy
                            != screen_y) implies #[trigger] back@[cell(sw as int, sx, sy)] == prev@[cell(
                            sw as int,
                            sx,
                            sy,
                        )] by {
                            lemma_cell_in_bounds(sw as int, sh as int, sx, sy);
                            lemma_cell_distinct(sw as int, sx, sy, screen_x as int, screen_y as int);
                        }
                    }
                }
                tx = tx + 1;
            }
        }
        ty = ty + 1;
    }
    // The contents, below the title bar.
    let mut yy: usize = 0;
    while yy < win.height
        invariant
            back@.len() == sw * sh,
            sw * sh <= usize::MAX,
            sw <= isize::MAX,
            sh <= isize::MAX,
            w == *win,
            placeable(w, sh as int),
            w.is_visible,
            title_height == title_rows(w),
            color == title_color(w),
            yy <= w.height,
            pixels == w.buffer@.len(),
            forall|sx: int, sy: int|
                0 <= sx < sw && 0 <= sy < sh ==> #[trigger] back@[cell(sw as int, sx, sy)] == if covers_title(
                    w,
                    sx,
                    sy,
                ) {
                    color
                } else if covers_body(w, sx, sy) && sy < w.y + title_height + yy {
                    window_color(w, sx, sy)
                } else {
                    old(back)@[cell(sw as int, sx, sy)]
                },
        decreases w.height - yy,
    {
        let screen_y = win.y + (yy + title_height) as isize;
        if !(screen_y < 0 || screen_y >= sh as isize) {
            assert(meets_screen_rows(w, sh as int));
            let mut xx: usize = 0;
            while xx < win.width
                invariant
                    back@.len() == sw * sh,
                    sw * sh <= usize::MAX,
                    sw <= isize::MAX,
                    sh <= isize::MAX,
                    w == *win,
                    placeable(w, sh as int),
                    w.is_visible,
                    title_height == title_rows(w),
                    color == title_color(w),
                    yy < w.height,
                    pixels == w.buffer@.len(),
                    screen_y == w.y + title_height + yy,
                    0 <= screen_y < sh,
                    xx <= w.width,
                    forall|sx: int, sy: int|
                        0 <= sx < sw && 0 <= sy < sh ==> #[trigger] back@[cell(sw as int, sx, sy)] == if covers_title(
                            w,
                            sx,
                            sy,
                        ) {
                            color
                        } else if covers_body(w, sx, sy) && (sy < screen_y || (sy == screen_y && sx < w.x + xx)) {
                            window_color(w, sx, sy)
                        } else {
                            old(back)@[cell(sw as int, sx, sy)]
                        },
                decreases w.width - xx,
            {
                let screen_x = win.x + xx as isize;
                if !(screen_x < 0 || screen_x >= sw as isize) {
                    proof {
                        lemma_cell_in_bounds(w.width as int, w.height as int, xx as int, yy as int);
                        lemma_cell_in_bounds(sw as int, sh as int, screen_x as int, screen_y as int);
                    }
                    let pixel = win.buffer[yy * win.width + xx];
                    let ghost prev = *back;
                    back.set(screen_y as usize * sw + screen_x as usize, pixel);
                    proof {
                        assert forall|sx: int, sy: int| 0 <= sx < sw && 0 <= sy < sh && (sx != screen_x || sy
                            != screen_y) implies #[trigger] back@[cell(sw as int, sx, sy)] == prev@[cell(
                            sw as int,
                            sx,
                            sy,
                        )] by {
                            lemma_cell_in_bounds(sw as int, sh as int, sx, sy);
                            lemma_cell_distinct(sw as int, sx, sy, screen_x as int, screen_y as int);
                        }
                        assert(window_color(w, screen_x as int, screen_y as int) == pixel);
                    }
                }
                xx = xx + 1;
            }
        }
        yy = yy + 1;
    }
}

/// The front-most window that shows at a screen pixel decides its colour,
/// whatever lies behind it.
pub proof fn lemma_front_window_wins(ws: Seq<Window>, k: int, sx: int, sy: int)
    requires
        0 <= k < ws.len(),
        shows(ws[k], sx, sy),
        forall|j: int| k < j < ws.len() ==> !shows(#[trigger] ws[j], sx, sy),
    ensures
        composed(ws, sx, sy) == window_color(ws[k], sx, sy),
    decreases ws.len(),
{
    if k < ws.len() - 1 {
        let rest = ws.drop_last();
        assert(!shows(ws[ws.len() - 1], sx, sy));
        assert forall|j: int| k < j < rest.len() implies !shows(#[trigger] rest[j], sx, sy) by {
            assert(rest[j] == ws[j]);
        }
        lemma_front_window_wins(rest, k, sx, sy);
    }
}

/// A screen pixel that no window shows at keeps the desktop colour.
pub proof fn lemma_uncovered_is_desktop(ws: Seq<Window>, sx: int, sy: int)
    requires
        forall|j: int| 0 <= j < ws.len() ==> !shows(#[trigger] ws[j], sx, sy),
    ensures
        composed(ws, sx, sy) == DESKTOP_COLOR,
    decreases ws.len(),
{
    if ws.len() > 0 {
        let rest = ws.drop_last();
        assert(!shows(ws[ws.len() - 1], sx, sy));
        assert forall|j: int| 0 <= j < rest.len() implies !shows(#[trigger] rest[j], sx, sy) by {
            assert(rest[j] == ws[j]);
        }
        lemma_uncovered_is_desktop(rest, sx, sy);
    }
}

/// Adding a hidden window changes nothing on the screen.
pub proof fn lemma_hidden_window_invisible(ws: Seq<Window>, hidden: Window, sx: int, sy: int)
    requires
        !hidden.is_visible,
    ensures
        composed(ws.push(hidden), sx, sy) == composed(ws, sx, sy),
{
    assert(ws.push(hidden).drop_last() == ws);
}

} // verus!
