//! Sample contents for the window-manager self-test: a terminal with green
//! text lines and a window with one color per row.
use vstd::prelude::*;
use crate::graphics::{Color, Rect, argb_of};
use crate::window::Window;

verus! {

/// Where stripe row `i` of the sample terminal starts in the framebuffer:
/// line `i * 20 + 10` of the window, at the content area's left edge.
pub open spec fn terminal_row_start(b: Rect, c: Rect, i: int) -> int {
    (i * 20 + 10) * b.width + c.x - b.x
}

/// Whether framebuffer index `k` lies on stripe row `i`: one content width
/// of pixels from the row's start.
pub open spec fn on_terminal_row(b: Rect, c: Rect, k: int, i: int) -> bool {
    terminal_row_start(b, c, i) <= k < terminal_row_start(b, c, i) + c.width
}

/// Whether framebuffer index `k` is painted as text: it lies on one of the
/// even stripe rows 0, 2, 4, 6 and 8.
pub open spec fn on_terminal_line(b: Rect, c: Rect, k: int) -> bool {
    exists|i: int| 0 <= i < 10 && i % 2 == 0 && #[trigger] on_terminal_row(b, c, k, i)
}

/// Whether every offset the terminal fill computes stays within `u32`.
pub open spec fn terminal_fits(b: Rect, c: Rect) -> bool {
    c.width > 0 ==> {
        &&& 10 * b.width + c.x >= b.x
        &&& 190 * b.width + c.x <= u32::MAX
        &&& 190 * b.width + c.x - b.x + c.width - 1 <= u32::MAX
    }
}

/// The background of the sample terminal.
pub open spec fn terminal_bg() -> u32 {
    argb_of(Color { r: 20, g: 20, b: 20, a: 255 })
}

/// The color of the sample terminal's text lines.
pub open spec fn terminal_fg() -> u32 {
    argb_of(Color { r: 0, g: 255, b: 0, a: 255 })
}

/// The pixel of a gradient row with intensity `level`: no red, half of it
/// as green, all of it as blue.
pub open spec fn gradient_pixel(level: u8) -> u32 {
    argb_of(Color { r: 0, g: level / 2, b: level, a: 255 })
}

/// One step of the terminal fill: the offset of pixel `x` on stripe row `i`.
fn terminal_offset(b: Rect, c: Rect, i: u32, x: u32) -> (k: u32)
    requires
        i < 10,
        x < c.width,
        terminal_fits(b, c),
    ensures
        k == terminal_row_start(b, c, i as int) + x,
{
    let y = i * 20;
    assert((y + 10) * b.width <= 190 * b.width) by (nonlinear_arith)
        requires
            y + 10 <= 190,
    ;
    assert((y + 10) * b.width >= 10 * b.width) by (nonlinear_arith)
        requires
            y + 10 >= 10,
    ;
    (y + 10) * b.width + c.x - b.x + x
}

impl Window {
    /// Whether the sample terminal can be painted on this window: every
    /// offset it computes stays within `u32`.
    pub fn terminal_sample_fits(&self) -> (r: bool)
        ensures
            r == terminal_fits(self.bounds, self.content_bounds),
    {
        let b = self.bounds;
        let c = self.content_bounds;
        if c.width == 0 {
            return true;
        }
        let rows: u64 = 190 * b.width as u64 + c.x as u64;
        10 * b.width as u64 + c.x as u64 >= b.x as u64 && rows <= 0xffff_ffff && rows - b.x as u64
            + c.width as u64 - 1 <= 0xffff_ffff
    }

    /// Paint the sample terminal: a dark background with a green line of
    /// content width on every other one of ten rows, twenty pixels apart
    /// (offsets past the framebuffer are skipped).
    pub fn fill_terminal_sample(&mut self)
        requires
            terminal_fits(old(self).bounds, old(self).content_bounds),
        ensures
            final(self).framebuffer@.len() == old(self).framebuffer@.len(),
            forall|k: int|
                0 <= k < final(self).framebuffer@.len() ==> #[trigger] final(self).framebuffer@[k]
                    == if on_terminal_line(old(self).bounds, old(self).content_bounds, k) {
                    terminal_fg()
                } else {
                    terminal_bg()
                },
            final(self).bounds == old(self).bounds,
            final(self).content_bounds == old(self).content_bounds,
            final(self).unchanged_but_geometry(*old(self)),
    {
        self.clear(Color::from_rgb(20, 20, 20));
        let fg = Color::green().to_argb();
        let b = self.bounds;
        let c = self.content_bounds;
        let n = self.framebuffer.len();
        let mut i: u32 = 0;
        while i < 10
            invariant
                i <= 10,
                b == old(self).bounds,
                c == old(self).content_bounds,
                b == self.bounds,
                c == self.content_bounds,
                fg == terminal_fg(),
                terminal_fits(b, c),
                n == self.framebuffer@.len(),
                n == old(self).framebuffer@.len(),
                self.unchanged_but_geometry(*old(self)),
                forall|k: int|
                    0 <= k < n ==> #[trigger] self.framebuffer@[k] == if exists|j: int|
                        0 <= j < i && j % 2 == 0 && #[trigger] on_terminal_row(b, c, k, j) {
                        terminal_fg()
                    } else {
                        terminal_bg()
                    },
            decreases 10 - i,
        {
            let mut x: u32 = 0;
            while x < c.width
                invariant
                    i < 10,
                    x <= c.width,
                    b == old(self).bounds,
                    c == old(self).content_bounds,
                    b == self.bounds,
                    c == self.content_bounds,
                    fg == terminal_fg(),
                    terminal_fits(b, c),
                    n == self.framebuffer@.len(),
                    self.unchanged_but_geometry(*old(self)),
                    forall|k: int|
                        0 <= k < n ==> #[trigger] self.framebuffer@[k] == if (exists|j: int|
                            0 <= j < i && j % 2 == 0 && #[trigger] on_terminal_row(b, c, k, j)) || (i
                            % 2 == 0 && terminal_row_start(b, c, i as int) <= k
                            < terminal_row_start(b, c, i as int) + x) {
                            terminal_fg()
                        } else {
                            terminal_bg()
                        },
                decreases c.width - x,
            {
                let offset = terminal_offset(b, c, i, x) as usize;
                if offset < self.framebuffer.len() && i % 2 == 0 {
                    self.framebuffer.set(offset, fg);
                }
                x = x + 1;
            }
            proof {
                assert forall|k: int| 0 <= k < n implies #[trigger] self.framebuffer@[k] == if exists|
                    j: int,
                | 0 <= j < i + 1 && j % 2 == 0 && #[trigger] on_terminal_row(b, c, k, j) {
                    terminal_fg()
                } else {
                    terminal_bg()
                } by {
                    if i % 2 == 0 && on_terminal_row(b, c, k, i as int) {
                        assert(0 <= i < i + 1 && i % 2 == 0 && on_terminal_row(b, c, k, i as int));
                    }
                    if exists|j: int| 0 <= j < i + 1 && j % 2 == 0 && on_terminal_row(b, c, k, j) {
                        let j = choose|j: int|
                            0 <= j < i + 1 && j % 2 == 0 && on_terminal_row(b, c, k, j);
                        if j < i {
                            assert(exists|j2: int|
                                0 <= j2 < i && j2 % 2 == 0 && on_terminal_row(b, c, k, j2));
                        }
                    }
                }
            }
            i = i + 1;
        }
    }

    /// Paint row `y` of the window in the gradient color of `levels[y]`, for
    /// every row of the window's bounds (offsets past the framebuffer are
    /// skipped).
    pub fn fill_gradient(&mut self, levels: &[u8])
        requires
            levels@.len() == old(self).bounds.height,
            old(self).bounds.height * old(self).bounds.width <= 0x1_0000_0000,
        ensures
            final(self).framebuffer@.len() == old(self).framebuffer@.len(),
            forall|y: int, x: int|
                0 <= y < old(self).bounds.height && 0 <= x < old(self).bounds.width && y
                    * old(self).bounds.width + x < old(self).framebuffer@.len()
                    ==> #[trigger] final(self).framebuffer@[y * old(self).bounds.width + x]
                    == gradient_pixel(levels@[y]),
            forall|k: int|
                old(self).bounds.height * old(self).bounds.width <= k
                    < old(self).framebuffer@.len() ==> #[trigger] final(self).framebuffer@[k]
                    == old(self).framebuffer@[k],
            final(self).bounds == old(self).bounds,
            final(self).content_bounds == old(self).content_bounds,
            final(self).unchanged_but_geometry(*old(self)),
    {
        let w = self.bounds.width;
        let h = self.bounds.height;
        let n = self.framebuffer.len();
        let mut y: u32 = 0;
        while y < h
            invariant
                y <= h,
                w == old(self).bounds.width,
                h == old(self).bounds.height,
                levels@.len() == h,
                h * w <= 0x1_0000_0000,
                n == self.framebuffer@.len(),
                n == old(self).framebuffer@.len(),
                self.bounds == old(self).bounds,
                self.content_bounds == old(self).content_bounds,
                self.unchanged_but_geometry(*old(self)),
                forall|yy: int, x: int|
                    0 <= yy < y && 0 <= x < w && yy * w + x < n ==> #[trigger] self.framebuffer@[yy
                        * w + x] == gradient_pixel(levels@[yy]),
                forall|k: int| y * w <= k < n ==> #[trigger] self.framebuffer@[k] == old(
                    self,
                ).framebuffer@[k],
            decreases h - y,
        {
            let level = levels[y as usize];
            let color = Color::from_rgb(0, level / 2, level).to_argb();
            assert(y * w + w <= h * w) by (nonlinear_arith)
                requires
                    y < h,
            ;
            let mut x: u32 = 0;
            while x < w
                invariant
                    y < h,
                    x <= w,
                    w == old(self).bounds.width,
                    h == old(self).bounds.height,
                    levels@.len() == h,
                    h * w <= 0x1_0000_0000,
                    y * w + w <= h * w,
                    color == gradient_pixel(levels@[y as int]),
                    n == self.framebuffer@.len(),
                    self.bounds == old(self).bounds,
                    self.content_bounds == old(self).content_bounds,
                    self.unchanged_but_geometry(*old(self)),
                    forall|yy: int, xx: int|
                        0 <= yy < y && 0 <= xx < w && yy * w + xx < n ==> #[trigger] self.framebuffer@[yy
                            * w + xx] == gradient_pixel(levels@[yy]),
                    forall|xx: int|
                        0 <= xx < x && y * w + xx < n ==> #[trigger] self.framebuffer@[y * w + xx]
                            == color,
                    forall|k: int| y * w + x <= k < n ==> #[trigger] self.framebuffer@[k] == old(
                        self,
                    ).framebuffer@[k],
                decreases w - x,
            {
                let ghost before = self.framebuffer@;
                let offset = (y * w + x) as usize;
                if offset < self.framebuffer.len() {
                    self.framebuffer.set(offset, color);
                }
                proof {
                    assert forall|yy: int, xx: int|
                        0 <= yy < y && 0 <= xx < w && yy * w + xx < n implies #[trigger] self.framebuffer@[yy
                        * w + xx] == gradient_pixel(levels@[yy]) by {
                        assert(yy * w + xx < y * w) by (nonlinear_arith)
                            requires
                                0 <= yy < y,
                                0 <= xx < w,
                        ;
                        assert(before[yy * w + xx] == gradient_pixel(levels@[yy]));
                    }
                }
                x = x + 1;
            }
            proof {
                assert forall|yy: int, xx: int|
                    0 <= yy < y + 1 && 0 <= xx < w && yy * w + xx < n implies #[trigger] self.framebuffer@[yy
                    * w + xx] == gradient_pixel(levels@[yy]) by {
                    if yy < y {
                    } else {
                        assert(yy == y);
                    }
                }
                assert((y + 1) * w == y * w + w) by (nonlinear_arith);
            }
            y = y + 1;
        }
        proof {
            assert(y == h);
        }
    }
}

} // verus!
