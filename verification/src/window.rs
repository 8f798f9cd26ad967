//! A single window: its bounds, decorations, framebuffer and state.
use vstd::prelude::*;
use crate::graphics::{Rect, Color, argb_of, rect_contains};

verus! {

/// Window identifier.
pub type WindowId = u32;

/// Smallest width a resize leaves.
pub const MIN_WINDOW_WIDTH: u32 = 100;

/// Smallest height a resize leaves.
pub const MIN_WINDOW_HEIGHT: u32 = 80;

/// Window decoration settings.
#[derive(Debug, Clone, Copy, PartialEq, Eq, Structural)]
pub struct WindowDecoration {
    pub title_bar_height: u32,
    pub border_width: u32,
    pub show_title_bar: bool,
    pub show_close_button: bool,
    pub show_minimize_button: bool,
    pub show_maximize_button: bool,
}

impl WindowDecoration {
    /// The default decoration: a 30-pixel title bar with all three buttons and a
    /// 2-pixel border.
    pub fn default() -> (d: Self)
        ensures
            d == (WindowDecoration {
                title_bar_height: 30,
                border_width: 2,
                show_title_bar: true,
                show_close_button: true,
                show_minimize_button: true,
                show_maximize_button: true,
            }),
    {
        WindowDecoration {
            title_bar_height: 30,
            border_width: 2,
            show_title_bar: true,
            show_close_button: true,
            show_minimize_button: true,
            show_maximize_button: true,
        }
    }

    /// No decoration at all.
    pub fn none() -> (d: Self)
        ensures
            d == (WindowDecoration {
                title_bar_height: 0,
                border_width: 0,
                show_title_bar: false,
                show_close_button: false,
                show_minimize_button: false,
                show_maximize_button: false,
            }),
    {
        WindowDecoration {
            title_bar_height: 0,
            border_width: 0,
            show_title_bar: false,
            show_close_button: false,
            show_minimize_button: false,
            show_maximize_button: false,
        }
    }
}

/// Window creation specification.
pub struct WindowSpec {
    pub title: String,
    pub bounds: Rect,
    pub resizable: bool,
    pub movable: bool,
    pub closable: bool,
    pub decoration: WindowDecoration,
}

impl WindowSpec {
    /// The default specification: "Untitled", at (100, 100), 400 x 300,
    /// resizable, movable, closable, with the default decoration.
    pub fn default() -> (s: Self)
        ensures
            s.title@ == "Untitled"@,
            s.bounds == (Rect { x: 100, y: 100, width: 400, height: 300 }),
            s.resizable && s.movable && s.closable,
            s.decoration == (WindowDecoration {
                title_bar_height: 30,
                border_width: 2,
                show_title_bar: true,
                show_close_button: true,
                show_minimize_button: true,
                show_maximize_button: true,
            }),
    {
        WindowSpec {
            title: String::from_str("Untitled"),
            bounds: Rect::new(100, 100, 400, 300),
            resizable: true,
            movable: true,
            closable: true,
            decoration: WindowDecoration::default(),
        }
    }
}

/// Edge or corner being resized.
#[derive(Debug, Clone, Copy, PartialEq, Eq, Structural)]
pub enum ResizeEdge {
    Top,
    Bottom,
    Left,
    Right,
    TopLeft,
    TopRight,
    BottomLeft,
    BottomRight,
}

/// A window.
pub struct Window {
    pub id: WindowId,
    pub title: String,
    /// Total bounds including decorations.
    pub bounds: Rect,
    /// Content area (excludes decorations).
    pub content_bounds: Rect,
    /// The window's own framebuffer (ARGB), `width * height` pixels.
    pub framebuffer: Vec<u32>,
    pub visible: bool,
    pub focused: bool,
    pub minimized: bool,
    pub fullscreen: bool,
    pub resizable: bool,
    pub movable: bool,
    pub closable: bool,
    pub decoration: WindowDecoration,
    /// Stacking order: higher is on top.
    pub z_order: u32,
}

/// The abstract state of a window: its fields, with the title and the
/// framebuffer taken by their contents.
pub struct WindowView {
    pub id: WindowId,
    pub title: Seq<char>,
    pub bounds: Rect,
    pub content_bounds: Rect,
    pub framebuffer: Seq<u32>,
    pub visible: bool,
    pub focused: bool,
    pub minimized: bool,
    pub fullscreen: bool,
    pub resizable: bool,
    pub movable: bool,
    pub closable: bool,
    pub decoration: WindowDecoration,
    pub z_order: u32,
}

impl View for Window {
    type V = WindowView;

    open spec fn view(&self) -> WindowView {
        WindowView {
            id: self.id,
            title: self.title@,
            bounds: self.bounds,
            content_bounds: self.content_bounds,
            framebuffer: self.framebuffer@,
            visible: self.visible,
            focused: self.focused,
            minimized: self.minimized,
            fullscreen: self.fullscreen,
            resizable: self.resizable,
            movable: self.movable,
            closable: self.closable,
            decoration: self.decoration,
            z_order: self.z_order,
        }
    }
}

/// Whether computing the content area of `b` under `d` stays within `u32`.
pub open spec fn content_fits(b: Rect, d: WindowDecoration) -> bool {
    &&& b.x + d.border_width <= u32::MAX
    &&& b.y + d.title_bar_height + d.border_width <= u32::MAX
    &&& d.border_width * 2 <= u32::MAX
    &&& d.title_bar_height + d.border_width * 2 <= u32::MAX
}

/// `a - b`, or 0 when `b > a`.
pub open spec fn sat_sub(a: int, b: int) -> int {
    if a >= b {
        a - b
    } else {
        0
    }
}

/// The content area of a window with bounds `b` and decoration `d`.
pub open spec fn content_rect(b: Rect, d: WindowDecoration) -> Rect {
    Rect {
        x: (b.x + d.border_width) as u32,
        y: (b.y + d.title_bar_height + d.border_width) as u32,
        width: sat_sub(b.width as int, d.border_width * 2) as u32,
        height: sat_sub(b.height as int, d.title_bar_height + d.border_width * 2) as u32,
    }
}

/// Whether a framebuffer of `b.width * b.height` pixels has a size that fits `u32`.
pub open spec fn area_fits(b: Rect) -> bool {
    b.width * b.height <= u32::MAX
}

/// The background pixel of fresh window contents.
pub open spec fn bg_pixel() -> u32 {
    argb_of(Color { r: 40, g: 40, b: 48, a: 255 })
}

/// A framebuffer of `n` background pixels.
pub open spec fn blank_framebuffer(n: nat) -> Seq<u32> {
    Seq::new(n, |i: int| bg_pixel())
}

/// Side of the square title-bar buttons.
pub open spec fn button_size(d: WindowDecoration) -> int {
    d.title_bar_height - 8
}

/// Left edge of the close button.
pub open spec fn close_x(b: Rect, d: WindowDecoration) -> int {
    b.x + b.width - button_size(d) - 4
}

/// Left edge of the minimize button.
pub open spec fn minimize_x(b: Rect, d: WindowDecoration) -> int {
    close_x(b, d) - button_size(d) - 4
}

/// Left edge of the maximize button.
pub open spec fn maximize_x(b: Rect, d: WindowDecoration) -> int {
    minimize_x(b, d) - button_size(d) - 4
}

/// Whether the button at left edge `x` can be computed without leaving `u32`.
pub open spec fn buttons_fit(b: Rect, d: WindowDecoration, x: int) -> bool {
    &&& d.title_bar_height >= 8
    &&& b.x + b.width <= u32::MAX
    &&& b.x + b.width >= button_size(d)
    &&& b.x + b.width - button_size(d) >= 4
    &&& x >= 0
    &&& b.y + 4 <= u32::MAX
}

/// The title bar's rectangle.
pub open spec fn title_rect(b: Rect, d: WindowDecoration) -> Rect {
    Rect { x: b.x, y: b.y, width: b.width, height: d.title_bar_height }
}

/// A button rectangle whose left edge is `x`.
pub open spec fn button_rect(b: Rect, d: WindowDecoration, x: int) -> Rect {
    Rect { x: x as u32, y: (b.y + 4) as u32, width: button_size(d) as u32, height: button_size(d) as u32 }
}

/// Whether each shown button can be computed.
pub open spec fn shown_buttons_fit(b: Rect, d: WindowDecoration) -> bool {
    &&& d.show_close_button ==> buttons_fit(b, d, close_x(b, d))
    &&& d.show_minimize_button ==> buttons_fit(b, d, close_x(b, d)) && minimize_x(b, d) >= 0
    &&& d.show_maximize_button ==> buttons_fit(b, d, close_x(b, d)) && minimize_x(b, d) >= 0
        && maximize_x(b, d) >= 0
}

/// Whether `(px, py)` is in the draggable part of the title bar.
pub open spec fn in_title_bar(b: Rect, d: WindowDecoration, px: int, py: int) -> bool {
    &&& d.show_title_bar
    &&& !(d.show_close_button && rect_contains(button_rect(b, d, close_x(b, d)), px, py))
    &&& !(d.show_minimize_button && rect_contains(button_rect(b, d, minimize_x(b, d)), px, py))
    &&& !(d.show_maximize_button && rect_contains(button_rect(b, d, maximize_x(b, d)), px, py))
    &&& rect_contains(title_rect(b, d), px, py)
}

/// The grab distance around the edges: the border width, at least 4 pixels.
pub open spec fn grab_threshold(d: WindowDecoration) -> int {
    if d.border_width >= 4 {
        d.border_width as int
    } else {
        4
    }
}

/// Whether `p` is within `t` pixels of the line at `edge`.
pub open spec fn near(p: int, edge: int, t: int) -> bool {
    sat_sub(edge, t) <= p <= edge + t
}

/// Whether the edge tests of `is_on_resize_border` stay within `u32`.
pub open spec fn edges_fit(b: Rect, d: WindowDecoration) -> bool {
    b.x + b.width + grab_threshold(d) <= u32::MAX && b.y + b.height + grab_threshold(d)
        <= u32::MAX
}

/// The edge or corner under `(px, py)`, corners first, for a resizable window.
pub open spec fn resize_edge_at(b: Rect, d: WindowDecoration, px: int, py: int) -> Option<
    ResizeEdge,
> {
    let t = grab_threshold(d);
    let left = near(px, b.x as int, t);
    let right = near(px, b.x + b.width, t);
    let top = near(py, b.y as int, t);
    let bottom = near(py, b.y + b.height, t);
    if left && top {
        Some(ResizeEdge::TopLeft)
    } else if right && top {
        Some(ResizeEdge::TopRight)
    } else if left && bottom {
        Some(ResizeEdge::BottomLeft)
    } else if right && bottom {
        Some(ResizeEdge::BottomRight)
    } else if left {
        Some(ResizeEdge::Left)
    } else if right {
        Some(ResizeEdge::Right)
    } else if top {
        Some(ResizeEdge::Top)
    } else if bottom {
        Some(ResizeEdge::Bottom)
    } else {
        None
    }
}

/// The larger of two numbers.
pub open spec fn max_int(a: int, b: int) -> int {
    if a >= b {
        a
    } else {
        b
    }
}

impl Window {
    /// Create a window from a specification: visible, unfocused, at stacking
    /// order 0, with a framebuffer of `width * height` background pixels.
    pub fn new(id: WindowId, spec: WindowSpec) -> (w: Self)
        requires
            content_fits(spec.bounds, spec.decoration),
            area_fits(spec.bounds),
        ensures
            w.id == id,
            w.title@ == spec.title@,
            w.bounds == spec.bounds,
            w.content_bounds == content_rect(spec.bounds, spec.decoration),
            w.framebuffer@ == blank_framebuffer((spec.bounds.width * spec.bounds.height) as nat),
            w.visible,
            !w.focused,
            !w.minimized,
            !w.fullscreen,
            w.resizable == spec.resizable,
            w.movable == spec.movable,
            w.closable == spec.closable,
            w.decoration == spec.decoration,
            w.z_order == 0,
    {
        let content_bounds = Self::calculate_content_bounds(&spec.bounds, &spec.decoration);
        let fb_size = (spec.bounds.width * spec.bounds.height) as usize;
        let framebuffer = blank_pixels(fb_size);
        Window {
            id,
            title: spec.title,
            bounds: spec.bounds,
            content_bounds,
            framebuffer,
            visible: true,
            focused: false,
            minimized: false,
            fullscreen: false,
            resizable: spec.resizable,
            movable: spec.movable,
            closable: spec.closable,
            decoration: spec.decoration,
            z_order: 0,
        }
    }

    /// The content area for the given bounds and decoration.
    pub fn calculate_content_bounds(bounds: &Rect, decoration: &WindowDecoration) -> (r: Rect)
        requires
            content_fits(*bounds, *decoration),
        ensures
            r == content_rect(*bounds, *decoration),
    {
        let x = bounds.x + decoration.border_width;
        let y = bounds.y + decoration.title_bar_height + decoration.border_width;
        let width = bounds.width.saturating_sub(decoration.border_width * 2);
        let height = bounds.height.saturating_sub(
            decoration.title_bar_height + decoration.border_width * 2,
        );
        Rect::new(x, y, width, height)
    }

    /// Recompute the content area after the window was resized or moved.
    pub fn update_content_bounds(&mut self)
        requires
            content_fits(old(self).bounds, old(self).decoration),
        ensures
            *final(self) == (Window {
                content_bounds: content_rect(old(self).bounds, old(self).decoration),
                ..*old(self)
            }),
    {
        self.content_bounds = Self::calculate_content_bounds(&self.bounds, &self.decoration);
    }

    /// The title bar's rectangle.
    pub fn title_bar_rect(&self) -> (r: Rect)
        ensures
            r == title_rect(self.bounds, self.decoration),
    {
        Rect::new(self.bounds.x, self.bounds.y, self.bounds.width, self.decoration.title_bar_height)
    }

    /// Whether the close button's rectangle can be computed within `u32`.
    pub fn close_button_fits(&self) -> (r: bool)
        ensures
            r == buttons_fit(self.bounds, self.decoration, close_x(self.bounds, self.decoration)),
    {
        let b = self.bounds;
        let right: i64 = b.x as i64 + b.width as i64;
        let size: i64 = self.decoration.title_bar_height as i64 - 8;
        self.decoration.title_bar_height >= 8 && right <= 0xffff_ffff && right >= size && right
            - size >= 4 && right - size - 4 >= 0 && b.y as i64 + 4 <= 0xffff_ffff
    }

    /// The close button's rectangle (rightmost in the title bar).
    pub fn close_button_rect(&self) -> (r: Rect)
        requires
            buttons_fit(self.bounds, self.decoration, close_x(self.bounds, self.decoration)),
        ensures
            r == button_rect(self.bounds, self.decoration, close_x(self.bounds, self.decoration)),
    {
        let size = self.decoration.title_bar_height - 8;
        Rect::new(self.bounds.x + self.bounds.width - size - 4, self.bounds.y + 4, size, size)
    }

    /// The minimize button's rectangle (left of the close button).
    pub fn minimize_button_rect(&self) -> (r: Rect)
        requires
            buttons_fit(self.bounds, self.decoration, close_x(self.bounds, self.decoration)),
            minimize_x(self.bounds, self.decoration) >= 0,
        ensures
            r == button_rect(self.bounds, self.decoration, minimize_x(self.bounds, self.decoration)),
    {
        let size = self.decoration.title_bar_height - 8;
        let close_x = self.bounds.x + self.bounds.width - size - 4;
        Rect::new(close_x - size - 4, self.bounds.y + 4, size, size)
    }

    /// The maximize button's rectangle (left of the minimize button).
    pub fn maximize_button_rect(&self) -> (r: Rect)
        requires
            buttons_fit(self.bounds, self.decoration, close_x(self.bounds, self.decoration)),
            minimize_x(self.bounds, self.decoration) >= 0,
            maximize_x(self.bounds, self.decoration) >= 0,
        ensures
            r == button_rect(self.bounds, self.decoration, maximize_x(self.bounds, self.decoration)),
    {
        let size = self.decoration.title_bar_height - 8;
        let close_x = self.bounds.x + self.bounds.width - size - 4;
        let minimize_x = close_x - size - 4;
        Rect::new(minimize_x - size - 4, self.bounds.y + 4, size, size)
    }

    /// Whether `(x, y)` is in the title bar but on none of its shown buttons
    /// (the part from which the window is dragged).
    pub fn is_in_title_bar(&self, x: u32, y: u32) -> (b: bool)
        requires
            self.decoration.show_title_bar ==> shown_buttons_fit(self.bounds, self.decoration),
        ensures
            b == in_title_bar(self.bounds, self.decoration, x as int, y as int),
    {
        if !self.decoration.show_title_bar {
            return false;
        }
        let title_bar = self.title_bar_rect();
        if self.decoration.show_close_button && self.close_button_rect().contains(x, y) {
            return false;
        }
        if self.decoration.show_minimize_button && self.minimize_button_rect().contains(x, y) {
            return false;
        }
        if self.decoration.show_maximize_button && self.maximize_button_rect().contains(x, y) {
            return false;
        }
        title_bar.contains(x, y)
    }

    /// The edge or corner under `(x, y)`, if the window is resizable and the
    /// point is within the grab distance of one.
    pub fn is_on_resize_border(&self, x: u32, y: u32) -> (r: Option<ResizeEdge>)
        requires
            self.resizable ==> edges_fit(self.bounds, self.decoration),
        ensures
            !self.resizable ==> r is None,
            self.resizable ==> r == resize_edge_at(self.bounds, self.decoration, x as int, y as int),
    {
        if !self.resizable {
            return None;
        }
        let border = self.decoration.border_width;
        let threshold = if border >= 4 {
            border
        } else {
            4
        };
        let left = x >= self.bounds.x.saturating_sub(threshold) && x <= self.bounds.x + threshold;
        let right = x >= (self.bounds.x + self.bounds.width).saturating_sub(threshold) && x
            <= self.bounds.x + self.bounds.width + threshold;
        let top = y >= self.bounds.y.saturating_sub(threshold) && y <= self.bounds.y + threshold;
        let bottom = y >= (self.bounds.y + self.bounds.height).saturating_sub(threshold) && y
            <= self.bounds.y + self.bounds.height + threshold;
        if left && top {
            return Some(ResizeEdge::TopLeft);
        }
        if right && top {
            return Some(ResizeEdge::TopRight);
        }
        if left && bottom {
            return Some(ResizeEdge::BottomLeft);
        }
        if right && bottom {
            return Some(ResizeEdge::BottomRight);
        }
        if left {
            return Some(ResizeEdge::Left);
        }
        if right {
            return Some(ResizeEdge::Right);
        }
        if top {
            return Some(ResizeEdge::Top);
        }
        if bottom {
            return Some(ResizeEdge::Bottom);
        }
        None
    }

    /// Resize to at least 100 x 80 pixels; the framebuffer is reallocated blank.
    pub fn resize(&mut self, new_width: u32, new_height: u32)
        requires
            max_int(new_width as int, MIN_WINDOW_WIDTH as int) * max_int(
                new_height as int,
                MIN_WINDOW_HEIGHT as int,
            ) <= u32::MAX,
            content_fits(old(self).bounds, old(self).decoration),
        ensures
            final(self).bounds == (Rect {
                width: max_int(new_width as int, MIN_WINDOW_WIDTH as int) as u32,
                height: max_int(new_height as int, MIN_WINDOW_HEIGHT as int) as u32,
                ..old(self).bounds
            }),
            final(self).framebuffer@ == blank_framebuffer(
                (final(self).bounds.width * final(self).bounds.height) as nat,
            ),
            final(self).content_bounds == content_rect(final(self).bounds, old(self).decoration),
            final(self).unchanged_but_geometry(*old(self)),
    {
        self.bounds.width = if new_width >= MIN_WINDOW_WIDTH {
            new_width
        } else {
            MIN_WINDOW_WIDTH
        };
        self.bounds.height = if new_height >= MIN_WINDOW_HEIGHT {
            new_height
        } else {
            MIN_WINDOW_HEIGHT
        };
        let new_size = (self.bounds.width * self.bounds.height) as usize;
        self.framebuffer = blank_pixels(new_size);
        self.update_content_bounds();
    }

    /// Everything but bounds, content area and framebuffer is as in `other`.
    pub open spec fn unchanged_but_geometry(&self, other: Window) -> bool {
        &&& self.id == other.id
        &&& self.title@ == other.title@
        &&& self.visible == other.visible
        &&& self.focused == other.focused
        &&& self.minimized == other.minimized
        &&& self.fullscreen == other.fullscreen
        &&& self.resizable == other.resizable
        &&& self.movable == other.movable
        &&& self.closable == other.closable
        &&& self.decoration == other.decoration
        &&& self.z_order == other.z_order
    }

    /// Move the window's top-left corner to `(x, y)`.
    pub fn move_to(&mut self, x: u32, y: u32)
        requires
            content_fits(Rect { x, y, ..old(self).bounds }, old(self).decoration),
        ensures
            final(self).bounds == (Rect { x, y, ..old(self).bounds }),
            final(self).content_bounds == content_rect(final(self).bounds, old(self).decoration),
            final(self).framebuffer@ == old(self).framebuffer@,
            final(self).unchanged_but_geometry(*old(self)),
    {
        self.bounds.x = x;
        self.bounds.y = y;
        self.update_content_bounds();
    }

    /// Fill the whole framebuffer with one color.
    pub fn clear(&mut self, color: Color)
        ensures
            final(self).framebuffer@ == Seq::new(
                old(self).framebuffer@.len(),
                |i: int| argb_of(color),
            ),
            final(self).bounds == old(self).bounds,
            final(self).content_bounds == old(self).content_bounds,
            final(self).unchanged_but_geometry(*old(self)),
    {
        let argb = color.to_argb();
        let n = self.framebuffer.len();
        let mut i: usize = 0;
        while i < n
            invariant
                n == self.framebuffer@.len(),
                n == old(self).framebuffer@.len(),
                i <= n,
                forall|j: int| 0 <= j < i ==> #[trigger] self.framebuffer@[j] == argb,
                self.bounds == old(self).bounds,
                self.content_bounds == old(self).content_bounds,
                self.unchanged_but_geometry(*old(self)),
            decreases n - i,
        {
            self.framebuffer.set(i, argb);
            i = i + 1;
        }
        assert(self.framebuffer@ =~= Seq::new(n as nat, |j: int| argb_of(color)));
    }
}

/// A framebuffer of `n` background pixels.
pub fn blank_pixels(n: usize) -> (v: Vec<u32>)
    ensures
        v@ == blank_framebuffer(n as nat),
{
    let bg = Color::ui_bg_medium().to_argb();
    let mut v: Vec<u32> = Vec::with_capacity(n);
    let mut i: usize = 0;
    while i < n
        invariant
            i <= n,
            bg == bg_pixel(),
            v@ == Seq::new(i as nat, |j: int| bg_pixel()),
        decreases n - i,
    {
        v.push(bg);
        i = i + 1;
    }
    v
}

/// The title-bar buttons sit right to left, close, minimize, maximize, each
/// a square of the title bar's height less 8, 4 pixels below the window's
/// top, with 4 pixels between neighbours and 4 to the right edge.
pub proof fn lemma_buttons_in_a_row(b: Rect, d: WindowDecoration)
    requires
        buttons_fit(b, d, close_x(b, d)),
        maximize_x(b, d) >= 0,
    ensures
        ({
            let s = button_size(d);
            let c = button_rect(b, d, close_x(b, d));
            let n = button_rect(b, d, minimize_x(b, d));
            let m = button_rect(b, d, maximize_x(b, d));
            &&& c.width == s && c.height == s && n.width == s && n.height == s && m.width == s && m.height == s
            &&& c.y == b.y + 4 && n.y == b.y + 4 && m.y == b.y + 4
            &&& m.x + s + 4 == n.x
            &&& n.x + s + 4 == c.x
            &&& c.x + s + 4 == b.x + b.width
        }),
{
}

} // verus!
