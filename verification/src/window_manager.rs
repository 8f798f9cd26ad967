//! Window manager: tiling and floating layouts, focus, and pointer handling.
use vstd::prelude::*;
use crate::error::Errno;
use crate::draw::{DrawCommand, DrawOp, draw_window, draw_fits, window_ops, ops_of};
use crate::graphics::{Rect, rect_contains};
use crate::window::{
    Window, WindowDecoration, WindowView, WindowId, WindowSpec, ResizeEdge, content_fits, content_rect, area_fits,
    blank_framebuffer, blank_pixels, button_rect, close_x, minimize_x, maximize_x, in_title_bar,
    resize_edge_at, shown_buttons_fit, edges_fit, MIN_WINDOW_WIDTH, MIN_WINDOW_HEIGHT,
};

verus! {

/// Layout mode.
#[derive(Debug, Clone, Copy, PartialEq, Eq, Structural)]
pub enum LayoutMode {
    /// Windows are arranged automatically in horizontal strips.
    Tiling,
    /// Windows keep the positions they are given.
    Floating,
    /// New windows cover the screen.
    Fullscreen,
}

/// A window drag in progress.
#[derive(Debug, Clone, Copy, PartialEq, Eq, Structural)]
pub struct DragState {
    pub window_id: WindowId,
    pub start_x: u32,
    pub start_y: u32,
    pub window_start_x: u32,
    pub window_start_y: u32,
}

/// A window resize in progress.
#[derive(Debug, Clone, Copy, PartialEq, Eq, Structural)]
pub struct ResizeState {
    pub window_id: WindowId,
    pub edge: ResizeEdge,
    pub start_x: u32,
    pub start_y: u32,
    pub start_bounds: Rect,
}

/// What a click asks the caller to do.
#[derive(Debug, Clone, Copy, PartialEq, Eq, Structural)]
pub enum WindowAction {
    Focus(WindowId),
    Close(WindowId),
    Minimize(WindowId),
    Maximize(WindowId),
    StartDrag(WindowId),
    StartResize(WindowId, ResizeEdge),
}

/// Whether a window takes part in tiling and focus cycling.
pub open spec fn is_shown(w: WindowView) -> bool {
    w.visible && !w.minimized
}

/// The ids of the shown windows, in stacking-list order.
pub open spec fn shown_ids(ws: Seq<WindowView>) -> Seq<WindowId>
    decreases ws.len(),
{
    if ws.len() == 0 {
        Seq::empty()
    } else if is_shown(ws.last()) {
        shown_ids(ws.drop_last()).push(ws.last().id)
    } else {
        shown_ids(ws.drop_last())
    }
}

/// The first position of `x` in `s`.
pub open spec fn find_first(s: Seq<WindowId>, x: WindowId) -> Option<int>
    decreases s.len(),
{
    if s.len() == 0 {
        None
    } else {
        match find_first(s.drop_last(), x) {
            Some(i) => Some(i),
            None => if s.last() == x {
                Some(s.len() - 1)
            } else {
                None
            },
        }
    }
}

/// The ids of a list of windows.
pub open spec fn ids_of(ws: Seq<WindowView>) -> Seq<WindowId> {
    Seq::new(ws.len(), |i: int| ws[i].id)
}

/// The first position of the window with id `id`.
pub open spec fn find_window(ws: Seq<WindowView>, id: WindowId) -> Option<int> {
    find_first(ids_of(ws), id)
}

/// The windows after `id` gets the focus: every window loses it, then the
/// first window with that id gains it and is raised to `z`.
pub open spec fn focus_apply(ws: Seq<WindowView>, id: WindowId, z: u32) -> Seq<WindowView> {
    Seq::new(
        ws.len(),
        |j: int|
            if find_window(ws, id) == Some(j) {
                WindowView { focused: true, z_order: z, ..ws[j] }
            } else {
                WindowView { focused: false, ..ws[j] }
            },
    )
}

/// The window that `focus_next` focuses, given the shown ids and the current focus.
pub open spec fn next_focus(vis: Seq<WindowId>, cur: Option<WindowId>) -> Option<WindowId> {
    if vis.len() == 0 {
        None
    } else {
        match cur {
            Some(c) => match find_first(vis, c) {
                Some(i) => Some(vis[(i + 1) % (vis.len() as int)]),
                None => Some(vis[0]),
            },
            None => Some(vis[0]),
        }
    }
}

/// The window that `focus_prev` focuses, given the shown ids and the current focus.
pub open spec fn prev_focus(vis: Seq<WindowId>, cur: Option<WindowId>) -> Option<WindowId> {
    if vis.len() == 0 {
        None
    } else {
        match cur {
            Some(c) => match find_first(vis, c) {
                Some(i) => Some(
                    if i == 0 {
                        vis[vis.len() - 1]
                    } else {
                        vis[i - 1]
                    },
                ),
                None => Some(vis[0]),
            },
            None => Some(vis[0]),
        }
    }
}

/// The `rank`-th horizontal strip of `count` strips covering the screen.
pub open spec fn strip(screen: Rect, count: int, rank: int) -> Rect {
    let h = (screen.height as int) / count;
    Rect { x: 0, y: (rank * h) as u32, width: screen.width, height: h as u32 }
}

/// A shown window moved into strip `rank` of `count`: new bounds and content
/// area, and a blank framebuffer when the size changed.
pub open spec fn tile_window(w: WindowView, screen: Rect, count: int, rank: int) -> WindowView {
    let b = strip(screen, count, rank);
    WindowView {
        bounds: b,
        content_bounds: content_rect(b, w.decoration),
        framebuffer: if w.framebuffer.len() == b.width * b.height {
            w.framebuffer
        } else {
            blank_framebuffer((b.width * b.height) as nat)
        },
        ..w
    }
}

/// The windows after tiling: the shown ones fill the screen top to bottom in
/// list order, one strip each; the others are unchanged.
pub open spec fn relayout(ws: Seq<WindowView>, screen: Rect) -> Seq<WindowView> {
    let count = shown_ids(ws).len() as int;
    Seq::new(
        ws.len(),
        |i: int|
            if is_shown(ws[i]) {
                tile_window(ws[i], screen, count, shown_ids(ws.subrange(0, i)).len() as int)
            } else {
                ws[i]
            },
    )
}

/// Whether tiling `ws` on `screen` stays within `u32`.
pub open spec fn tiling_fits(ws: Seq<WindowView>, screen: Rect) -> bool {
    let count = shown_ids(ws).len() as int;
    count > 0 ==> forall|i: int|
        0 <= i < ws.len() && is_shown(ws[i]) ==> {
            let b = #[trigger] strip(screen, count, shown_ids(ws.subrange(0, i)).len() as int);
            content_fits(b, ws[i].decoration) && area_fits(b)
        }
}

/// The abstract states of a list of windows.
pub open spec fn views_of(ws: Seq<Window>) -> Seq<WindowView> {
    ws.map_values(|w: Window| w@)
}

/// Where a new window goes: the whole screen when tiling (the strips are
/// assigned afterwards) or in fullscreen mode, the requested bounds when floating.
pub open spec fn layout_bounds(mode: LayoutMode, requested: Rect, screen: Rect) -> Rect {
    match mode {
        LayoutMode::Tiling => screen,
        LayoutMode::Floating => requested,
        LayoutMode::Fullscreen => screen,
    }
}

/// A window just created from `spec` with id `id`, bounds `b` and stacking order `z`.
pub open spec fn fresh_window(id: WindowId, spec: WindowSpec, b: Rect, z: u32) -> WindowView {
    WindowView {
        id,
        title: spec.title@,
        bounds: b,
        content_bounds: content_rect(b, spec.decoration),
        framebuffer: blank_framebuffer((b.width * b.height) as nat),
        visible: true,
        focused: false,
        minimized: false,
        fullscreen: false,
        resizable: spec.resizable,
        movable: spec.movable,
        closable: spec.closable,
        decoration: spec.decoration,
        z_order: z,
    }
}

/// The windows after a relayout when tiling, unchanged otherwise.
pub open spec fn relayout_if_tiling(ws: Seq<WindowView>, mode: LayoutMode, screen: Rect) -> Seq<
    WindowView,
> {
    if mode == LayoutMode::Tiling {
        relayout(ws, screen)
    } else {
        ws
    }
}

/// The windows after the focus moves to `t`, if there is a target.
pub open spec fn focus_opt(ws: Seq<WindowView>, t: Option<WindowId>, z: u32) -> Seq<WindowView> {
    match t {
        Some(id) => focus_apply(ws, id, z),
        None => ws,
    }
}

/// The next stacking order after the focus moves to `t`.
pub open spec fn z_after_focus(ws: Seq<WindowView>, t: Option<WindowId>, z: u32) -> int {
    match t {
        Some(id) => if find_window(ws, id) is Some {
            z + 1
        } else {
            z as int
        },
        None => z as int,
    }
}

/// The window a click at `(x, y)` lands on, with its stacking order: among the
/// visible windows containing the point, the one with the highest stacking
/// order, the later one on ties.
pub open spec fn topmost(ws: Seq<WindowView>, x: int, y: int) -> Option<(WindowId, u32)>
    decreases ws.len(),
{
    if ws.len() == 0 {
        None
    } else {
        let prev = topmost(ws.drop_last(), x, y);
        let w = ws.last();
        let max_z: u32 = match prev {
            Some(p) => p.1,
            None => 0u32,
        };
        if w.visible && rect_contains(w.bounds, x, y) && w.z_order >= max_z {
            Some((w.id, w.z_order))
        } else {
            prev
        }
    }
}

/// What a click at `(x, y)` on window `w` asks for: a title-bar button, a
/// drag from the title bar, a resize from an edge, or just the focus.
pub open spec fn click_action(w: WindowView, x: int, y: int) -> WindowAction {
    let b = w.bounds;
    let d = w.decoration;
    if d.show_close_button && rect_contains(button_rect(b, d, close_x(b, d)), x, y) {
        WindowAction::Close(w.id)
    } else if d.show_minimize_button && rect_contains(button_rect(b, d, minimize_x(b, d)), x, y) {
        WindowAction::Minimize(w.id)
    } else if d.show_maximize_button && rect_contains(button_rect(b, d, maximize_x(b, d)), x, y) {
        WindowAction::Maximize(w.id)
    } else if in_title_bar(b, d, x, y) && w.movable {
        WindowAction::StartDrag(w.id)
    } else if w.resizable && resize_edge_at(b, d, x, y) is Some {
        WindowAction::StartResize(w.id, resize_edge_at(b, d, x, y)->Some_0)
    } else {
        WindowAction::Focus(w.id)
    }
}

/// Whether the click tests on window `w` stay within `u32`.
pub open spec fn click_fits(w: WindowView) -> bool {
    shown_buttons_fit(w.bounds, w.decoration) && (w.resizable ==> edges_fit(
        w.bounds,
        w.decoration,
    ))
}

/// `a + b`, or `u32::MAX` when that is larger.
pub open spec fn sat_add(a: int, b: int) -> int {
    if a + b <= u32::MAX {
        a + b
    } else {
        u32::MAX as int
    }
}

/// `a - b`, or 0 when that is negative.
pub open spec fn sat_sub_u(a: int, b: int) -> int {
    if a >= b {
        a - b
    } else {
        0
    }
}

/// The value of a `u32` read as an `i32` (two's complement).
pub open spec fn u2i(v: u32) -> int {
    if v < 0x8000_0000 {
        v as int
    } else {
        v - 0x1_0000_0000
    }
}

/// The value of an `i32` read as a `u32` (two's complement).
pub open spec fn i2u(v: int) -> u32 {
    if v >= 0 {
        v as u32
    } else {
        (v + 0x1_0000_0000) as u32
    }
}

/// Whether a value is in the range of `i32`.
pub open spec fn fits_i32(v: int) -> bool {
    -0x8000_0000 <= v < 0x8000_0000
}

/// The larger of two numbers.
pub open spec fn imax(a: int, b: int) -> int {
    if a >= b {
        a
    } else {
        b
    }
}

/// Whether a resize by `(dx, dy)` from `edge` of `sb` stays within `i32`.
pub open spec fn resize_fits(edge: ResizeEdge, sb: Rect, dx: int, dy: int) -> bool {
    let grow_w = fits_i32(u2i(sb.width) + dx);
    let grow_h = fits_i32(u2i(sb.height) + dy);
    let shrink_w = fits_i32(u2i(sb.width) - dx);
    let shrink_h = fits_i32(u2i(sb.height) - dy);
    let move_x = fits_i32(u2i(sb.x) + dx);
    let move_y = fits_i32(u2i(sb.y) + dy);
    match edge {
        ResizeEdge::Right => grow_w,
        ResizeEdge::Bottom => grow_h,
        ResizeEdge::Left => shrink_w && move_x,
        ResizeEdge::Top => shrink_h && move_y,
        ResizeEdge::TopLeft => shrink_w && shrink_h && move_x && move_y,
        ResizeEdge::TopRight => shrink_h && move_y && grow_w,
        ResizeEdge::BottomLeft => shrink_w && move_x && grow_h,
        ResizeEdge::BottomRight => grow_w && grow_h,
    }
}

/// The bounds after dragging `edge` of `sb` by `(dx, dy)`: the dragged sides
/// follow the pointer, never below 100 x 80.
pub open spec fn resized_bounds(edge: ResizeEdge, sb: Rect, dx: int, dy: int) -> Rect {
    let grow_w = imax(u2i(sb.width) + dx, MIN_WINDOW_WIDTH as int) as u32;
    let grow_h = imax(u2i(sb.height) + dy, MIN_WINDOW_HEIGHT as int) as u32;
    let shrink_w = imax(u2i(sb.width) - dx, MIN_WINDOW_WIDTH as int) as u32;
    let shrink_h = imax(u2i(sb.height) - dy, MIN_WINDOW_HEIGHT as int) as u32;
    let move_x = i2u(u2i(sb.x) + dx);
    let move_y = i2u(u2i(sb.y) + dy);
    match edge {
        ResizeEdge::Right => Rect { width: grow_w, ..sb },
        ResizeEdge::Bottom => Rect { height: grow_h, ..sb },
        ResizeEdge::Left => Rect { x: move_x, width: shrink_w, ..sb },
        ResizeEdge::Top => Rect { y: move_y, height: shrink_h, ..sb },
        ResizeEdge::TopLeft => Rect { x: move_x, y: move_y, width: shrink_w, height: shrink_h },
        ResizeEdge::TopRight => Rect { y: move_y, width: grow_w, height: shrink_h, ..sb },
        ResizeEdge::BottomLeft => Rect { x: move_x, width: shrink_w, height: grow_h, ..sb },
        ResizeEdge::BottomRight => Rect { width: grow_w, height: grow_h, ..sb },
    }
}

/// Where a drag puts the window: its start position moved by how far the
/// pointer went right and down (saturating).
pub open spec fn dragged_bounds(d: DragState, b: Rect, x: int, y: int) -> Rect {
    Rect {
        x: sat_add(d.window_start_x as int, sat_sub_u(x, d.start_x as int)) as u32,
        y: sat_add(d.window_start_y as int, sat_sub_u(y, d.start_y as int)) as u32,
        ..b
    }
}

/// The windows after the drag step of `handle_drag`.
pub open spec fn drag_step(ws: Seq<WindowView>, drag: Option<DragState>, x: int, y: int) -> Seq<
    WindowView,
> {
    match drag {
        Some(d) => match find_window(ws, d.window_id) {
            Some(i) => {
                let nb = dragged_bounds(d, ws[i].bounds, x, y);
                ws.update(
                    i,
                    WindowView {
                        bounds: nb,
                        content_bounds: content_rect(nb, ws[i].decoration),
                        ..ws[i]
                    },
                )
            },
            None => ws,
        },
        None => ws,
    }
}

/// The pointer offset of a resize, as `handle_drag` computes it in `i32`.
pub open spec fn resize_delta(r: ResizeState, x: u32, y: u32) -> (int, int) {
    (u2i(x) - u2i(r.start_x), u2i(y) - u2i(r.start_y))
}

/// The windows after the resize step of `handle_drag`.
pub open spec fn resize_step(ws: Seq<WindowView>, rs: Option<ResizeState>, x: u32, y: u32) -> Seq<
    WindowView,
> {
    match rs {
        Some(r) => match find_window(ws, r.window_id) {
            Some(i) => {
                let (dx, dy) = resize_delta(r, x, y);
                let nb = resized_bounds(r.edge, r.start_bounds, dx, dy);
                ws.update(
                    i,
                    WindowView {
                        bounds: nb,
                        content_bounds: content_rect(nb, ws[i].decoration),
                        framebuffer: blank_framebuffer((nb.width * nb.height) as nat),
                        ..ws[i]
                    },
                )
            },
            None => ws,
        },
        None => ws,
    }
}

/// Whether `handle_drag(x, y)` stays within the integer ranges it computes in.
pub open spec fn drag_fits(
    ws: Seq<WindowView>,
    drag: Option<DragState>,
    rs: Option<ResizeState>,
    x: u32,
    y: u32,
) -> bool {
    &&& drag matches Some(d) ==> (find_window(ws, d.window_id) matches Some(i) ==> content_fits(
        dragged_bounds(d, ws[i].bounds, x as int, y as int),
        ws[i].decoration,
    ))
    &&& rs matches Some(r) ==> {
        let (dx, dy) = resize_delta(r, x, y);
        &&& fits_i32(dx)
        &&& fits_i32(dy)
        &&& find_window(ws, r.window_id) matches Some(i) ==> {
            let nb = resized_bounds(r.edge, r.start_bounds, dx, dy);
            &&& resize_fits(r.edge, r.start_bounds, dx, dy)
            &&& content_fits(nb, ws[i].decoration)
            &&& area_fits(nb)
        }
    }
}

/// Whether window `a` is drawn before window `b`: lower stacking order first,
/// list order on ties.
pub open spec fn drawn_before(ws: Seq<WindowView>, a: int, b: int) -> bool {
    ws[a].z_order < ws[b].z_order || (ws[a].z_order == ws[b].z_order && a < b)
}

/// Whether `order` lists every window position once, bottom to top.
pub open spec fn is_draw_order(ws: Seq<WindowView>, order: Seq<int>) -> bool {
    &&& forall|k: int| 0 <= k < order.len() ==> 0 <= #[trigger] order[k] < ws.len()
    &&& forall|i: int| 0 <= i < ws.len() ==> order.contains(i)
    &&& forall|k1: int, k2: int|
        0 <= k1 < k2 < order.len() ==> drawn_before(ws, #[trigger] order[k1], #[trigger] order[k2])
}

/// The commands drawing the visible windows in the given order.
pub open spec fn draw_ops(ws: Seq<WindowView>, order: Seq<int>) -> Seq<DrawOp>
    decreases order.len(),
{
    if order.len() == 0 {
        Seq::empty()
    } else {
        let i = order.last();
        draw_ops(ws, order.drop_last()) + if ws[i].visible {
            window_ops(ws[i])
        } else {
            Seq::empty()
        }
    }
}

/// Whether window `i` comes after the last window drawn (any window when none was).
pub open spec fn after_last(ws: Seq<WindowView>, i: int, have: bool, last: int) -> bool {
    !have || drawn_before(ws, last, i)
}

/// How many of the first `k` windows come after the last one drawn.
pub open spec fn count_after(ws: Seq<WindowView>, k: int, have: bool, last: int) -> nat
    decreases k,
{
    if k <= 0 {
        0
    } else {
        count_after(ws, k - 1, have, last) + if after_last(ws, k - 1, have, last) {
            1nat
        } else {
            0nat
        }
    }
}

/// The window manager.
pub struct WindowManager {
    windows: Vec<Window>,
    focused_id: Option<WindowId>,
    layout_mode: LayoutMode,
    screen_rect: Rect,
    next_window_id: u32,
    next_z_order: u32,
    drag_state: Option<DragState>,
    resize_state: Option<ResizeState>,
}

impl WindowManager {
    /// The windows, in stacking-list order.
    pub closed spec fn windows_view(&self) -> Seq<WindowView> {
        views_of(self.windows@)
    }

    /// The id last given the focus, if any.
    pub closed spec fn focused_view(&self) -> Option<WindowId> {
        self.focused_id
    }

    /// The layout mode.
    pub closed spec fn layout_view(&self) -> LayoutMode {
        self.layout_mode
    }

    /// The screen rectangle.
    pub closed spec fn screen_view(&self) -> Rect {
        self.screen_rect
    }

    /// The id the next window gets.
    pub closed spec fn next_id_view(&self) -> u32 {
        self.next_window_id
    }

    /// The stacking order the next raised window gets.
    pub closed spec fn next_z_view(&self) -> u32 {
        self.next_z_order
    }

    /// The drag in progress.
    pub closed spec fn drag_view(&self) -> Option<DragState> {
        self.drag_state
    }

    /// The resize in progress.
    pub closed spec fn resize_view(&self) -> Option<ResizeState> {
        self.resize_state
    }

    /// The manager's invariant: ids are unique and below the next id, stacking
    /// orders are below the next one, and at most one window has the focus.
    pub open spec fn wf(&self) -> bool {
        let ws = self.windows_view();
        &&& 1 <= self.next_id_view()
        &&& ws.len() <= self.next_id_view()
        &&& forall|i: int, j: int|
            0 <= i < ws.len() && 0 <= j < ws.len() && i != j ==> #[trigger] ws[i].id
                != #[trigger] ws[j].id
        &&& forall|i: int| 0 <= i < ws.len() ==> #[trigger] ws[i].id < self.next_id_view()
        &&& forall|i: int| 0 <= i < ws.len() ==> #[trigger] ws[i].z_order < self.next_z_view()
        &&& forall|i: int, j: int|
            0 <= i < ws.len() && 0 <= j < ws.len() && i != j && #[trigger] ws[i].focused
                ==> !#[trigger] ws[j].focused
    }

    /// Everything but the windows and the focus bookkeeping is as in `other`.
    pub open spec fn same_settings(&self, other: Self) -> bool {
        &&& self.layout_view() == other.layout_view()
        &&& self.screen_view() == other.screen_view()
        &&& self.next_id_view() == other.next_id_view()
        &&& self.drag_view() == other.drag_view()
        &&& self.resize_view() == other.resize_view()
    }

    /// A manager for a screen of the given size: no windows, tiling layout.
    pub fn new(screen_width: u32, screen_height: u32) -> (m: Self)
        ensures
            m.wf(),
            m.windows_view().len() == 0,
            m.focused_view() is None,
            m.layout_view() == LayoutMode::Tiling,
            m.screen_view() == (Rect { x: 0, y: 0, width: screen_width, height: screen_height }),
            m.next_id_view() == 1,
            m.next_z_view() == 1,
            m.drag_view() is None,
            m.resize_view() is None,
    {
        let m = WindowManager {
            windows: Vec::new(),
            focused_id: None,
            layout_mode: LayoutMode::Tiling,
            screen_rect: Rect::new(0, 0, screen_width, screen_height),
            next_window_id: 1,
            next_z_order: 1,
            drag_state: None,
            resize_state: None,
        };
        assert(m.windows_view() =~= Seq::<WindowView>::empty());
        m
    }

    /// Position of the first window with id `id`.
    fn position_of(&self, id: WindowId) -> (r: Option<usize>)
        ensures
            r matches Some(i) ==> find_window(self.windows_view(), id) == Some(i as int) && i
                < self.windows@.len() && self.windows@[i as int].id == id,
            r is None ==> find_window(self.windows_view(), id) is None,
    {
        let ghost ws = self.windows_view();
        let mut i: usize = 0;
        while i < self.windows.len()
            invariant
                ws == self.windows_view(),
                i <= ws.len(),
                find_window(ws.subrange(0, i as int), id) is None,
            decreases ws.len() - i,
        {
            proof {
                lemma_find_window_prefix(ws, i as int, id);
            }
            if self.windows[i].id == id {
                proof {
                    assert(ws[i as int] == self.windows@[i as int]@);
                }
                return Some(i);
            }
            i = i + 1;
        }
        proof {
            assert(ws.subrange(0, ws.len() as int) =~= ws);
        }
        None
    }

    /// The window with id `id`.
    pub fn get_window(&self, id: WindowId) -> (r: Option<&Window>)
        ensures
            r matches Some(w) ==> find_window(self.windows_view(), id) matches Some(i) && w@
                == self.windows_view()[i],
            r is None ==> find_window(self.windows_view(), id) is None,
    {
        match self.position_of(id) {
            Some(i) => Some(&self.windows[i]),
            None => None,
        }
    }

    /// The window with id `id`, to change it.
    pub fn get_window_mut(&mut self, id: WindowId) -> (r: Option<&mut Window>)
        ensures
            r matches Some(w) ==> find_window(old(self).windows_view(), id) matches Some(i) && {
                &&& (*w)@ == old(self).windows_view()[i]
                &&& final(self).windows_view() == old(self).windows_view().update(i, (*final(w))@)
                &&& final(self).focused_view() == old(self).focused_view()
                &&& final(self).next_z_view() == old(self).next_z_view()
                &&& final(self).same_settings(*old(self))
            },
            r is None ==> find_window(old(self).windows_view(), id) is None && *final(self) == *old(
                self,
            ),
    {
        match self.position_of(id) {
            Some(i) => {
                proof {
                    assert(self.windows_view()[i as int] == self.windows@[i as int]@);
                }
                proof {
                    assert forall|x: Window| #[trigger] views_of(self.windows@.update(i as int, x))
                        == old(self).windows_view().update(i as int, x@) by {
                        assert(views_of(self.windows@.update(i as int, x)) =~= old(
                            self,
                        ).windows_view().update(i as int, x@));
                    }
                }
                let w = &mut self.windows[i];
                Some(w)
            },
            None => None,
        }
    }

    /// Give the focus to window `id`: every window loses it, the window with
    /// that id gains it and is raised to the top. The focused id becomes `id`
    /// even when no window has it.
    pub fn focus_window(&mut self, id: WindowId)
        requires
            old(self).wf(),
            find_window(old(self).windows_view(), id) is Some ==> old(self).next_z_view()
                < u32::MAX,
        ensures
            final(self).wf(),
            final(self).windows_view() == focus_apply(
                old(self).windows_view(),
                id,
                old(self).next_z_view(),
            ),
            final(self).focused_view() == Some(id),
            final(self).next_z_view() == if find_window(old(self).windows_view(), id) is Some {
                old(self).next_z_view() + 1
            } else {
                old(self).next_z_view() as int
            },
            final(self).same_settings(*old(self)),
    {
        let ghost ws0 = self.windows_view();
        proof {
            assert forall|j: int| 0 <= j < ws0.len() implies #[trigger] self.windows@[j]@
                == ws0[j] by {}
        }
        let pos = self.position_of(id);
        let n = self.windows.len();
        let mut i: usize = 0;
        while i < n
            invariant
                n == self.windows@.len(),
                n == ws0.len(),
                i <= n,
                pos matches Some(p) ==> find_window(ws0, id) == Some(p as int),
                pos is None ==> find_window(ws0, id) is None,
                forall|j: int|
                    0 <= j < i ==> #[trigger] self.windows@[j]@ == (WindowView {
                        focused: false,
                        ..ws0[j]
                    }),
                forall|j: int| i <= j < n ==> #[trigger] self.windows@[j]@ == ws0[j],
                self.same_settings(*old(self)),
                self.next_z_order == old(self).next_z_order,
                self.focused_id == old(self).focused_id,
            decreases n - i,
        {
            let ghost before = self.windows@;
            assert(before[i as int]@ == ws0[i as int]);
            self.windows[i].focused = false;
            proof {
                assert forall|j: int| 0 <= j < n && j != i implies self.windows@[j]
                    == before[j] by {}
                assert(self.windows@[i as int].focused == false);
                assert(self.windows@[i as int].title == before[i as int].title);
                assert(self.windows@[i as int].framebuffer == before[i as int].framebuffer);
                assert(self.windows@[i as int]@ == (WindowView {
                    focused: false,
                    ..ws0[i as int]
                }));
            }
            i = i + 1;
        }
        let ghost mid = self.windows@;
        if let Some(p) = pos {
            let z = self.next_z_order;
            assert(mid[p as int]@ == (WindowView { focused: false, ..ws0[p as int] }));
            self.windows[p].focused = true;
            self.windows[p].z_order = z;
            self.next_z_order = z + 1;
            proof {
                assert(self.windows@[p as int]@ == (WindowView {
                    focused: true,
                    z_order: z,
                    ..ws0[p as int]
                }));
                assert forall|j: int| 0 <= j < n && j != p implies self.windows@[j] == mid[j] by {}
            }
        }
        self.focused_id = Some(id);
        proof {
            let fa = focus_apply(ws0, id, old(self).next_z_order);
            assert forall|j: int| 0 <= j < n implies #[trigger] self.windows_view()[j] == fa[j] by {
                assert(self.windows_view()[j] == self.windows@[j]@);
                if pos != Some(j as usize) {
                    assert(mid[j]@ == (WindowView { focused: false, ..ws0[j] }));
                }
            }
            assert(self.windows_view() =~= fa);
            lemma_focus_apply_wf(ws0, id, old(self).next_z_order, old(self).next_window_id);
        }
    }

    /// The ids of the shown (visible, not minimized) windows, in list order.
    fn shown_window_ids(&self) -> (v: Vec<WindowId>)
        ensures
            v@ == shown_ids(self.windows_view()),
    {
        let ghost ws = self.windows_view();
        let mut v: Vec<WindowId> = Vec::new();
        let mut i: usize = 0;
        while i < self.windows.len()
            invariant
                ws == self.windows_view(),
                i <= ws.len(),
                v@ == shown_ids(ws.subrange(0, i as int)),
            decreases ws.len() - i,
        {
            proof {
                assert(ws.subrange(0, i + 1).drop_last() =~= ws.subrange(0, i as int));
                assert(ws[i as int] == self.windows@[i as int]@);
            }
            if self.windows[i].visible && !self.windows[i].minimized {
                v.push(self.windows[i].id);
            }
            i = i + 1;
        }
        proof {
            assert(ws.subrange(0, ws.len() as int) =~= ws);
        }
        v
    }

    /// Focus the next shown window after the focused one, wrapping around
    /// (Alt+Tab); the first one when the focused window is not shown; nothing
    /// when no window is shown.
    pub fn focus_next(&mut self)
        requires
            old(self).wf(),
            old(self).next_z_view() < u32::MAX,
        ensures
            final(self).wf(),
            final(self).focused_view() == next_focus(
                shown_ids(old(self).windows_view()),
                old(self).focused_view(),
            ),
            next_focus(shown_ids(old(self).windows_view()), old(self).focused_view()) matches Some(
                t,
            ) ==> final(self).windows_view() == focus_apply(
                old(self).windows_view(),
                t,
                old(self).next_z_view(),
            ),
            next_focus(shown_ids(old(self).windows_view()), old(self).focused_view()) is None
                ==> final(self).windows_view() == old(self).windows_view(),
            final(self).next_z_view() == z_after_focus(
                old(self).windows_view(),
                next_focus(shown_ids(old(self).windows_view()), old(self).focused_view()),
                old(self).next_z_view(),
            ),
            final(self).same_settings(*old(self)),
    {
        let visible = self.shown_window_ids();
        if visible.len() == 0 {
            self.focused_id = None;
            return;
        }
        if let Some(current_id) = self.focused_id {
            if let Some(index) = position_in(&visible, current_id) {
                let next_index = (index + 1) % visible.len();
                self.focus_window(visible[next_index]);
                return;
            }
        }
        self.focus_window(visible[0]);
    }

    /// Focus the shown window before the focused one, wrapping around
    /// (Alt+Shift+Tab); the first one when the focused window is not shown;
    /// nothing when no window is shown.
    pub fn focus_prev(&mut self)
        requires
            old(self).wf(),
            old(self).next_z_view() < u32::MAX,
        ensures
            final(self).wf(),
            final(self).focused_view() == prev_focus(
                shown_ids(old(self).windows_view()),
                old(self).focused_view(),
            ),
            prev_focus(shown_ids(old(self).windows_view()), old(self).focused_view()) matches Some(
                t,
            ) ==> final(self).windows_view() == focus_apply(
                old(self).windows_view(),
                t,
                old(self).next_z_view(),
            ),
            prev_focus(shown_ids(old(self).windows_view()), old(self).focused_view()) is None
                ==> final(self).windows_view() == old(self).windows_view(),
            final(self).next_z_view() == z_after_focus(
                old(self).windows_view(),
                prev_focus(shown_ids(old(self).windows_view()), old(self).focused_view()),
                old(self).next_z_view(),
            ),
            final(self).same_settings(*old(self)),
    {
        let visible = self.shown_window_ids();
        if visible.len() == 0 {
            self.focused_id = None;
            return;
        }
        if let Some(current_id) = self.focused_id {
            if let Some(index) = position_in(&visible, current_id) {
                let prev_index = if index == 0 {
                    visible.len() - 1
                } else {
                    index - 1
                };
                self.focus_window(visible[prev_index]);
                return;
            }
        }
        self.focus_window(visible[0]);
    }

    /// Arrange the shown windows in horizontal strips covering the screen.
    fn relayout_tiling(&mut self)
        requires
            old(self).wf(),
            tiling_fits(old(self).windows_view(), old(self).screen_view()),
        ensures
            final(self).wf(),
            final(self).windows_view() == relayout(
                old(self).windows_view(),
                old(self).screen_view(),
            ),
            final(self).focused_view() == old(self).focused_view(),
            final(self).next_z_view() == old(self).next_z_view(),
            final(self).same_settings(*old(self)),
    {
        let ghost ws0 = self.windows_view();
        let visible = self.shown_window_ids();
        let count = visible.len();
        let n = self.windows.len();
        proof {
            lemma_shown_prefix_le(ws0, n as int);
            assert(ws0.subrange(0, n as int) =~= ws0);
            assert forall|j: int| 0 <= j < n implies #[trigger] self.windows@[j]@ == ws0[j] by {}
        }
        if count == 0 {
            proof {
                lemma_no_shown(ws0);
                assert(relayout(ws0, self.screen_rect) =~= ws0);
            }
            return;
        }
        let sw = self.screen_rect.width;
        let window_height = self.screen_rect.height / (count as u32);
        let mut rank: u32 = 0;
        let mut i: usize = 0;
        while i < n
            invariant
                n == self.windows@.len(),
                n == ws0.len(),
                count == shown_ids(ws0).len(),
                count >= 1,
                count <= n,
                n <= u32::MAX,
                i <= n,
                sw == self.screen_rect.width,
                window_height == self.screen_rect.height / (count as u32),
                rank == shown_ids(ws0.subrange(0, i as int)).len(),
                tiling_fits(ws0, self.screen_rect),
                forall|j: int|
                    0 <= j < i ==> #[trigger] self.windows@[j]@ == relayout(
                        ws0,
                        self.screen_rect,
                    )[j],
                forall|j: int| i <= j < n ==> #[trigger] self.windows@[j]@ == ws0[j],
                self.same_settings(*old(self)),
                self.screen_rect == old(self).screen_rect,
                self.next_z_order == old(self).next_z_order,
                self.focused_id == old(self).focused_id,
            decreases n - i,
        {
            let ghost before = self.windows@;
            assert(before[i as int]@ == ws0[i as int]);
            proof {
                lemma_shown_prefix_step(ws0, i as int);
                lemma_shown_prefix_le(ws0, i as int + 1);
            }
            if self.windows[i].visible && !self.windows[i].minimized {
                proof {
                    lemma_strip_fits(self.screen_rect.height as int, count as int, rank as int);
                }
                let b = Rect::new(0, rank * window_height, sw, window_height);
                assert(b == strip(self.screen_rect, count as int, rank as int));
                assert(content_fits(b, ws0[i as int].decoration) && area_fits(b));
                self.windows[i].bounds = b;
                self.windows[i].update_content_bounds();
                let new_size = (b.width * b.height) as usize;
                if self.windows[i].framebuffer.len() != new_size {
                    self.windows[i].framebuffer = blank_pixels(new_size);
                }
                rank = rank + 1;
                proof {
                    assert(self.windows@[i as int]@ == relayout(ws0, self.screen_rect)[i as int]);
                }
            }
            proof {
                assert forall|j: int| 0 <= j < n && j != i implies self.windows@[j]
                    == before[j] by {}
            }
            i = i + 1;
        }
        proof {
            assert(self.windows_view() =~= relayout(ws0, self.screen_rect));
        }
    }

    /// Bounds for a new window in tiling mode (adjusted by the relayout).
    fn calculate_tiling_bounds(&self) -> (r: Rect)
        ensures
            r == self.screen_view(),
    {
        self.screen_rect
    }

    /// Create a window and give it the focus; returns its id.
    ///
    /// When floating it keeps the requested bounds, in fullscreen mode it covers
    /// the screen, and when tiling the shown windows are rearranged.
    pub fn create_window(&mut self, spec: WindowSpec) -> (id: WindowId)
        requires
            old(self).wf(),
            old(self).next_id_view() < u32::MAX,
            old(self).next_z_view() + 2 <= u32::MAX,
            content_fits(
                layout_bounds(old(self).layout_view(), spec.bounds, old(self).screen_view()),
                spec.decoration,
            ),
            area_fits(layout_bounds(old(self).layout_view(), spec.bounds, old(self).screen_view())),
            old(self).layout_view() == LayoutMode::Tiling ==> tiling_fits(
                old(self).windows_view().push(
                    fresh_window(
                        old(self).next_id_view(),
                        spec,
                        old(self).screen_view(),
                        old(self).next_z_view(),
                    ),
                ),
                old(self).screen_view(),
            ),
        ensures
            final(self).wf(),
            id == old(self).next_id_view(),
            forall|i: int|
                0 <= i < old(self).windows_view().len() ==> #[trigger] old(
                    self,
                ).windows_view()[i].id != id,
            final(self).windows_view() == focus_apply(
                relayout_if_tiling(
                    old(self).windows_view().push(
                        fresh_window(
                            id,
                            spec,
                            layout_bounds(
                                old(self).layout_view(),
                                spec.bounds,
                                old(self).screen_view(),
                            ),
                            old(self).next_z_view(),
                        ),
                    ),
                    old(self).layout_view(),
                    old(self).screen_view(),
                ),
                id,
                (old(self).next_z_view() + 1) as u32,
            ),
            final(self).focused_view() == Some(id),
            final(self).next_id_view() == old(self).next_id_view() + 1,
            final(self).next_z_view() == old(self).next_z_view() + 2,
            final(self).layout_view() == old(self).layout_view(),
            final(self).screen_view() == old(self).screen_view(),
            final(self).drag_view() == old(self).drag_view(),
            final(self).resize_view() == old(self).resize_view(),
    {
        let ghost ws0 = self.windows_view();
        let ghost spec0 = spec;
        let id = self.next_window_id;
        self.next_window_id = id + 1;
        let bounds = match self.layout_mode {
            LayoutMode::Tiling => self.calculate_tiling_bounds(),
            LayoutMode::Floating => spec.bounds,
            LayoutMode::Fullscreen => self.screen_rect,
        };
        let mut window_spec = spec;
        window_spec.bounds = bounds;
        let mut window = Window::new(id, window_spec);
        window.z_order = self.next_z_order;
        self.next_z_order = self.next_z_order + 1;
        let ghost w = window;
        assert(w@ == fresh_window(id, spec0, bounds, old(self).next_z_order));
        self.windows.push(window);
        proof {
            assert(self.windows_view() =~= ws0.push(w@));
        }
        if self.layout_mode == LayoutMode::Tiling {
            self.relayout_tiling();
        }
        let ghost ws2 = self.windows_view();
        proof {
            lemma_relayout_keeps_ids(ws0.push(w@), self.screen_rect);
            assert(ids_of(ws2) =~= ids_of(ws0.push(w@)));
            lemma_find_first_spec(ids_of(ws2), id);
            assert(ids_of(ws2)[ws0.len() as int] == id);
        }
        self.focus_window(id);
        id
    }

    /// Remove window `id`. If it had the focus, the focus moves on as with
    /// `focus_next`; when tiling, the remaining windows are rearranged.
    /// `ENOENT` when there is no such window.
    pub fn destroy_window(&mut self, id: WindowId) -> (r: Result<(), Errno>)
        requires
            old(self).wf(),
            old(self).next_z_view() < u32::MAX,
            find_window(old(self).windows_view(), id) matches Some(i)
                ==> old(self).layout_view() == LayoutMode::Tiling ==> tiling_fits(
                old(self).windows_view().remove(i),
                old(self).screen_view(),
            ),
        ensures
            final(self).wf(),
            find_window(old(self).windows_view(), id) is None ==> r == Err::<(), Errno>(
                Errno::ENOENT,
            ) && *final(self) == *old(self),
            find_window(old(self).windows_view(), id) matches Some(i) ==> {
                let ws1 = old(self).windows_view().remove(i);
                let refocus = old(self).focused_view() == Some(id);
                let t = next_focus(shown_ids(ws1), Some(id));
                let ws2 = if refocus {
                    focus_opt(ws1, t, old(self).next_z_view())
                } else {
                    ws1
                };
                &&& r == Ok::<(), Errno>(())
                &&& final(self).windows_view() == relayout_if_tiling(
                    ws2,
                    old(self).layout_view(),
                    old(self).screen_view(),
                )
                &&& final(self).focused_view() == if refocus {
                    t
                } else {
                    old(self).focused_view()
                }
                &&& final(self).next_z_view() == if refocus {
                    z_after_focus(ws1, t, old(self).next_z_view())
                } else {
                    old(self).next_z_view() as int
                }
                &&& final(self).same_settings(*old(self))
            },
    {
        let index = match self.position_of(id) {
            Some(i) => i,
            None => {
                return Err(Errno::ENOENT);
            },
        };
        let ghost ws0 = self.windows_view();
        self.windows.remove(index);
        proof {
            assert(self.windows_view() =~= ws0.remove(index as int));
            assert forall|i: int, j: int|
                0 <= i < self.windows_view().len() && 0 <= j < self.windows_view().len() && i
                    != j implies #[trigger] self.windows_view()[i].id != #[trigger] self.windows_view()[j].id by {
                let a = if i < index { i } else { i + 1 };
                let b = if j < index { j } else { j + 1 };
                assert(self.windows_view()[i] == ws0[a]);
                assert(self.windows_view()[j] == ws0[b]);
            }
            assert forall|i: int, j: int|
                0 <= i < self.windows_view().len() && 0 <= j < self.windows_view().len() && i
                    != j && #[trigger] self.windows_view()[i].focused implies !#[trigger] self.windows_view()[j].focused by {
                let a = if i < index { i } else { i + 1 };
                let b = if j < index { j } else { j + 1 };
                assert(self.windows_view()[i] == ws0[a]);
                assert(self.windows_view()[j] == ws0[b]);
            }
        }
        let ghost ws1 = self.windows_view();
        if self.focused_id == Some(id) {
            self.focus_next();
            proof {
                lemma_focus_opt_shape(ws1, next_focus(shown_ids(ws1), Some(id)), old(self).next_z_order);
                lemma_same_shape_tiling(ws1, self.windows_view(), self.screen_rect);
            }
        }
        if self.layout_mode == LayoutMode::Tiling {
            self.relayout_tiling();
        }
        Ok(())
    }

    /// Switch between tiling and floating (fullscreen switches to tiling);
    /// rearranges the windows when the result is tiling.
    pub fn toggle_layout_mode(&mut self)
        requires
            old(self).wf(),
            (old(self).layout_view() != LayoutMode::Tiling) ==> tiling_fits(
                old(self).windows_view(),
                old(self).screen_view(),
            ),
        ensures
            final(self).wf(),
            final(self).layout_view() == match old(self).layout_view() {
                LayoutMode::Tiling => LayoutMode::Floating,
                LayoutMode::Floating => LayoutMode::Tiling,
                LayoutMode::Fullscreen => LayoutMode::Tiling,
            },
            final(self).windows_view() == relayout_if_tiling(
                old(self).windows_view(),
                final(self).layout_view(),
                old(self).screen_view(),
            ),
            final(self).focused_view() == old(self).focused_view(),
            final(self).next_z_view() == old(self).next_z_view(),
            final(self).screen_view() == old(self).screen_view(),
            final(self).next_id_view() == old(self).next_id_view(),
            final(self).drag_view() == old(self).drag_view(),
            final(self).resize_view() == old(self).resize_view(),
    {
        self.layout_mode = match self.layout_mode {
            LayoutMode::Tiling => LayoutMode::Floating,
            LayoutMode::Floating => LayoutMode::Tiling,
            LayoutMode::Fullscreen => LayoutMode::Tiling,
        };
        if self.layout_mode == LayoutMode::Tiling {
            self.relayout_tiling();
        }
    }

    /// Set the layout mode; rearranges the windows when it is tiling.
    pub fn set_layout_mode(&mut self, mode: LayoutMode)
        requires
            old(self).wf(),
            mode == LayoutMode::Tiling ==> tiling_fits(
                old(self).windows_view(),
                old(self).screen_view(),
            ),
        ensures
            final(self).wf(),
            final(self).layout_view() == mode,
            final(self).windows_view() == relayout_if_tiling(
                old(self).windows_view(),
                mode,
                old(self).screen_view(),
            ),
            final(self).focused_view() == old(self).focused_view(),
            final(self).next_z_view() == old(self).next_z_view(),
            final(self).screen_view() == old(self).screen_view(),
            final(self).next_id_view() == old(self).next_id_view(),
            final(self).drag_view() == old(self).drag_view(),
            final(self).resize_view() == old(self).resize_view(),
    {
        self.layout_mode = mode;
        if self.layout_mode == LayoutMode::Tiling {
            self.relayout_tiling();
        }
    }

    /// Handle a mouse click at `(x, y)` on the topmost visible window there.
    ///
    /// A click on a title-bar button asks for that action; in the title bar of
    /// a movable window it starts a drag, on an edge of a resizable window a
    /// resize, and otherwise it focuses the window. Drags, resizes and plain
    /// clicks also give the window the focus. `None` when no window is there.
    pub fn handle_click(&mut self, x: u32, y: u32) -> (r: Option<WindowAction>)
        requires
            old(self).wf(),
            old(self).next_z_view() < u32::MAX,
            topmost(old(self).windows_view(), x as int, y as int) matches Some(t) ==> click_fits(
                old(self).windows_view()[find_window(old(self).windows_view(), t.0)->Some_0],
            ),
        ensures
            final(self).wf(),
            topmost(old(self).windows_view(), x as int, y as int) is None ==> r is None
                && *final(self) == *old(self),
            topmost(old(self).windows_view(), x as int, y as int) matches Some(t) ==> {
                let w = old(self).windows_view()[find_window(old(self).windows_view(), t.0)->Some_0];
                let a = click_action(w, x as int, y as int);
                &&& w.id == t.0
                &&& r == Some(a)
                &&& match a {
                    WindowAction::Close(_) | WindowAction::Minimize(_) | WindowAction::Maximize(
                        _,
                    ) => *final(self) == *old(self),
                    _ => {
                        &&& final(self).windows_view() == focus_apply(
                            old(self).windows_view(),
                            w.id,
                            old(self).next_z_view(),
                        )
                        &&& final(self).focused_view() == Some(w.id)
                        &&& final(self).next_z_view() == old(self).next_z_view() + 1
                        &&& final(self).layout_view() == old(self).layout_view()
                        &&& final(self).screen_view() == old(self).screen_view()
                        &&& final(self).next_id_view() == old(self).next_id_view()
                        &&& final(self).drag_view() == if a is StartDrag {
                            Some(
                                DragState {
                                    window_id: w.id,
                                    start_x: x,
                                    start_y: y,
                                    window_start_x: w.bounds.x,
                                    window_start_y: w.bounds.y,
                                },
                            )
                        } else {
                            old(self).drag_view()
                        }
                        &&& final(self).resize_view() == match a {
                            WindowAction::StartResize(_, e) => Some(
                                ResizeState {
                                    window_id: w.id,
                                    edge: e,
                                    start_x: x,
                                    start_y: y,
                                    start_bounds: w.bounds,
                                },
                            ),
                            _ => old(self).resize_view(),
                        }
                    },
                }
            },
    {
        let ghost ws = self.windows_view();
        let mut clicked: Option<WindowId> = None;
        let mut max_z: u32 = 0;
        let mut i: usize = 0;
        while i < self.windows.len()
            invariant
                ws == self.windows_view(),
                i <= ws.len(),
                clicked == match topmost(ws.subrange(0, i as int), x as int, y as int) {
                    Some(t) => Some(t.0),
                    None => None::<WindowId>,
                },
                max_z == match topmost(ws.subrange(0, i as int), x as int, y as int) {
                    Some(t) => t.1,
                    None => 0u32,
                },
            decreases ws.len() - i,
        {
            proof {
                assert(ws.subrange(0, i + 1).drop_last() =~= ws.subrange(0, i as int));
                assert(ws[i as int] == self.windows@[i as int]@);
            }
            let w = &self.windows[i];
            if w.visible && w.bounds.contains(x, y) && w.z_order >= max_z {
                clicked = Some(w.id);
                max_z = w.z_order;
            }
            i = i + 1;
        }
        proof {
            assert(ws.subrange(0, ws.len() as int) =~= ws);
        }
        let id = match clicked {
            Some(id) => id,
            None => {
                return None;
            },
        };
        proof {
            lemma_topmost_in(ws, x as int, y as int);
        }
        let pos = self.position_of(id);
        let p = match pos {
            Some(p) => p,
            None => {
                proof {
                    lemma_find_first_spec(ids_of(ws), id);
                    let k = choose|k: int| 0 <= k < ws.len() && ws[k].id == id;
                    assert(ids_of(ws)[k] == id);
                }
                return None;
            },
        };
        proof {
            assert(ws[p as int] == self.windows@[p as int]@);
        }
        let bounds = self.windows[p].bounds;
        let deco = self.windows[p].decoration;
        let movable = self.windows[p].movable;
        if deco.show_close_button && self.windows[p].close_button_rect().contains(x, y) {
            return Some(WindowAction::Close(id));
        }
        if deco.show_minimize_button && self.windows[p].minimize_button_rect().contains(x, y) {
            return Some(WindowAction::Minimize(id));
        }
        if deco.show_maximize_button && self.windows[p].maximize_button_rect().contains(x, y) {
            return Some(WindowAction::Maximize(id));
        }
        if self.windows[p].is_in_title_bar(x, y) && movable {
            self.drag_state = Some(
                DragState {
                    window_id: id,
                    start_x: x,
                    start_y: y,
                    window_start_x: bounds.x,
                    window_start_y: bounds.y,
                },
            );
            self.focus_window(id);
            return Some(WindowAction::StartDrag(id));
        }
        if let Some(edge) = self.windows[p].is_on_resize_border(x, y) {
            self.resize_state = Some(
                ResizeState { window_id: id, edge, start_x: x, start_y: y, start_bounds: bounds },
            );
            self.focus_window(id);
            return Some(WindowAction::StartResize(id, edge));
        }
        self.focus_window(id);
        Some(WindowAction::Focus(id))
    }

    /// Handle the pointer moving to `(x, y)` with the button held: a window
    /// being dragged follows the pointer, a window being resized gets its
    /// dragged sides moved (at least 100 x 80) and a blank framebuffer.
    pub fn handle_drag(&mut self, x: u32, y: u32)
        requires
            old(self).wf(),
            drag_fits(
                old(self).windows_view(),
                old(self).drag_view(),
                old(self).resize_view(),
                x,
                y,
            ),
        ensures
            final(self).wf(),
            final(self).windows_view() == resize_step(
                drag_step(old(self).windows_view(), old(self).drag_view(), x as int, y as int),
                old(self).resize_view(),
                x,
                y,
            ),
            final(self).focused_view() == old(self).focused_view(),
            final(self).next_z_view() == old(self).next_z_view(),
            final(self).same_settings(*old(self)),
    {
        let ghost ws0 = self.windows_view();
        self.apply_drag(x, y);
        proof {
            lemma_drag_step_ids(ws0, old(self).drag_state, x as int, y as int);
            let ws1 = self.windows_view();
            if let Some(r) = self.resize_state {
                assert(find_window(ws1, r.window_id) == find_window(ws0, r.window_id));
                if let Some(i) = find_window(ws0, r.window_id) {
                    lemma_find_first_spec(ids_of(ws0), r.window_id);
                    assert(ws1[i].decoration == ws0[i].decoration);
                }
            }
        }
        self.apply_resize(x, y);
    }

    /// The drag step of `handle_drag`.
    fn apply_drag(&mut self, x: u32, y: u32)
        requires
            old(self).wf(),
            old(self).drag_view() matches Some(d) ==> (find_window(
                old(self).windows_view(),
                d.window_id,
            ) matches Some(i) ==> content_fits(
                dragged_bounds(d, old(self).windows_view()[i].bounds, x as int, y as int),
                old(self).windows_view()[i].decoration,
            )),
        ensures
            final(self).wf(),
            final(self).windows_view() == drag_step(
                old(self).windows_view(),
                old(self).drag_view(),
                x as int,
                y as int,
            ),
            final(self).focused_view() == old(self).focused_view(),
            final(self).next_z_view() == old(self).next_z_view(),
            final(self).same_settings(*old(self)),
    {
        let ghost ws0 = self.windows_view();
        if let Some(d) = self.drag_state {
            let dx = x.saturating_sub(d.start_x);
            let dy = y.saturating_sub(d.start_y);
            if let Some(p) = self.position_of(d.window_id) {
                let new_x = d.window_start_x.saturating_add(dx);
                let new_y = d.window_start_y.saturating_add(dy);
                let ghost before = self.windows@;
                proof {
                    assert(ws0[p as int] == before[p as int]@);
                }
                self.windows[p].move_to(new_x, new_y);
                proof {
                    assert forall|j: int| 0 <= j < before.len() && j != p implies self.windows@[j]
                        == before[j] by {}
                    assert(self.windows_view() =~= drag_step(
                        ws0,
                        old(self).drag_state,
                        x as int,
                        y as int,
                    ));
                    lemma_update_keeps_wf(ws0, p as int, self.windows@[p as int]@);
                }
            }
        }
    }

    /// The resize step of `handle_drag`.
    fn apply_resize(&mut self, x: u32, y: u32)
        requires
            old(self).wf(),
            old(self).resize_view() matches Some(r) ==> {
                let (dx, dy) = resize_delta(r, x, y);
                &&& fits_i32(dx)
                &&& fits_i32(dy)
                &&& find_window(old(self).windows_view(), r.window_id) matches Some(i) ==> {
                    let nb = resized_bounds(r.edge, r.start_bounds, dx, dy);
                    &&& resize_fits(r.edge, r.start_bounds, dx, dy)
                    &&& content_fits(nb, old(self).windows_view()[i].decoration)
                    &&& area_fits(nb)
                }
            },
        ensures
            final(self).wf(),
            final(self).windows_view() == resize_step(
                old(self).windows_view(),
                old(self).resize_view(),
                x,
                y,
            ),
            final(self).focused_view() == old(self).focused_view(),
            final(self).next_z_view() == old(self).next_z_view(),
            final(self).same_settings(*old(self)),
    {
        let ghost ws1 = self.windows_view();
        if let Some(r) = self.resize_state {
            let dx = i32_of_u32(x) - i32_of_u32(r.start_x);
            let dy = i32_of_u32(y) - i32_of_u32(r.start_y);
            if let Some(p) = self.position_of(r.window_id) {
                let nb = resize_from(r.edge, r.start_bounds, dx, dy);
                let ghost before = self.windows@;
                proof {
                    assert(ws1[p as int] == before[p as int]@);
                }
                self.windows[p].bounds = nb;
                self.windows[p].update_content_bounds();
                let new_size = (nb.width * nb.height) as usize;
                self.windows[p].framebuffer = blank_pixels(new_size);
                proof {
                    assert forall|j: int| 0 <= j < before.len() && j != p implies self.windows@[j]
                        == before[j] by {}
                    assert(self.windows_view() =~= resize_step(
                        ws1,
                        old(self).resize_state,
                        x,
                        y,
                    ));
                    lemma_update_keeps_wf(ws1, p as int, self.windows@[p as int]@);
                }
            }
        }
    }

    /// Handle the mouse button being released: any drag or resize ends.
    pub fn handle_release(&mut self)
        requires
            old(self).wf(),
        ensures
            final(self).wf(),
            final(self).drag_view() is None,
            final(self).resize_view() is None,
            final(self).windows_view() == old(self).windows_view(),
            final(self).focused_view() == old(self).focused_view(),
            final(self).next_z_view() == old(self).next_z_view(),
            final(self).layout_view() == old(self).layout_view(),
            final(self).screen_view() == old(self).screen_view(),
            final(self).next_id_view() == old(self).next_id_view(),
    {
        self.drag_state = None;
        self.resize_state = None;
    }

    /// The drawing commands for all visible windows, bottom to top: lower
    /// stacking order first, list order on ties.
    pub fn draw(&self) -> (cmds: Vec<DrawCommand>)
        requires
            forall|i: int|
                0 <= i < self.windows_view().len() && (#[trigger] self.windows_view()[i]).visible
                    ==> draw_fits(self.windows_view()[i]),
        ensures
            exists|order: Seq<int>|
                is_draw_order(self.windows_view(), order) && ops_of(cmds@) == draw_ops(
                    self.windows_view(),
                    order,
                ),
    {
        let ghost ws = self.windows_view();
        let n = self.windows.len();
        let mut out: Vec<DrawCommand> = Vec::new();
        let ghost mut order: Seq<int> = Seq::empty();
        let mut have_last = false;
        let mut last: usize = 0;
        proof {
            assert(ops_of(out@) =~= Seq::<DrawOp>::empty());
        }
        loop
            invariant_except_break
                !have_last ==> order.len() == 0,
                have_last ==> order.len() > 0 && order.last() == last as int && last < n,
                forall|i: int|
                    0 <= i < n ==> (order.contains(i) <==> (have_last && !after_last(
                        ws,
                        i,
                        have_last,
                        last as int,
                    ))),
            invariant
                n == ws.len(),
                ws == self.windows_view(),
                forall|i: int|
                    0 <= i < ws.len() && (#[trigger] ws[i]).visible ==> draw_fits(ws[i]),
                forall|k: int| 0 <= k < order.len() ==> 0 <= #[trigger] order[k] < n,
                forall|k1: int, k2: int|
                    0 <= k1 < k2 < order.len() ==> drawn_before(
                        ws,
                        #[trigger] order[k1],
                        #[trigger] order[k2],
                    ),
                ops_of(out@) == draw_ops(ws, order),
            ensures
                forall|i: int| 0 <= i < n ==> order.contains(i),
            decreases count_after(ws, n as int, have_last, last as int),
        {
            let mut best: Option<usize> = None;
            let mut j: usize = 0;
            while j < n
                invariant
                    n == ws.len(),
                    ws == self.windows_view(),
                    j <= n,
                    have_last ==> last < n,
                    best matches Some(b) ==> b < j && after_last(ws, b as int, have_last, last as int)
                        && forall|i: int|
                        0 <= i < j && after_last(ws, i, have_last, last as int) ==> !drawn_before(
                            ws,
                            i,
                            b as int,
                        ),
                    best is None ==> forall|i: int|
                        0 <= i < j ==> !after_last(ws, i, have_last, last as int),
                decreases n - j,
            {
                proof {
                    assert(ws[j as int] == self.windows@[j as int]@);
                    if have_last {
                        assert(ws[last as int] == self.windows@[last as int]@);
                    }
                    if let Some(b) = best {
                        assert(ws[b as int] == self.windows@[b as int]@);
                    }
                }
                let zj = self.windows[j].z_order;
                let mut after = true;
                if have_last {
                    let zl = self.windows[last].z_order;
                    after = zl < zj || (zl == zj && last < j);
                }
                assert(after == after_last(ws, j as int, have_last, last as int));
                let ghost old_best = best;
                if after {
                    let better = match best {
                        None => true,
                        Some(b) => {
                            let zb = self.windows[b].z_order;
                            zj < zb || (zj == zb && j < b)
                        },
                    };
                    if better {
                        best = Some(j);
                        proof {
                            assert forall|i: int|
                                0 <= i < j + 1 && after_last(ws, i, have_last, last as int) implies !drawn_before(
                                ws,
                                i,
                                j as int,
                            ) by {
                                if let Some(ob) = old_best {
                                    assert(drawn_before(ws, j as int, ob as int));
                                    assert(!drawn_before(ws, i, ob as int) || i == j);
                                }
                            }
                        }
                    }
                }
                j = j + 1;
            }
            let b = match best {
                None => {
                    proof {
                        assert forall|i: int| 0 <= i < n implies order.contains(i) by {
                            if !have_last {
                                assert(after_last(ws, i, have_last, last as int));
                            }
                        }
                    }
                    break;
                },
                Some(b) => b,
            };
            proof {
                lemma_count_after_drops(ws, n as int, have_last, last as int, b as int);
                assert(ws[b as int] == self.windows@[b as int]@);
                let new_order = order.push(b as int);
                assert forall|k1: int, k2: int| 0 <= k1 < k2 < new_order.len() implies drawn_before(
                    ws,
                    #[trigger] new_order[k1],
                    #[trigger] new_order[k2],
                ) by {
                    if k2 == order.len() {
                        assert(order.contains(order[k1]));
                    }
                }
                assert forall|i: int| 0 <= i < n implies (new_order.contains(i) <==> !after_last(
                    ws,
                    i,
                    true,
                    b as int,
                )) by {
                    if new_order.contains(i) {
                        let k = choose|k: int| 0 <= k < new_order.len() && new_order[k] == i;
                        if k < order.len() {
                            assert(order.contains(i));
                        }
                    }
                    if !after_last(ws, i, true, b as int) && i != b {
                        if after_last(ws, i, have_last, last as int) {
                            assert(!drawn_before(ws, i, b as int));
                        }
                        assert(order.contains(i));
                        let k = choose|k: int| 0 <= k < order.len() && order[k] == i;
                        assert(new_order[k] == i);
                    }
                    if i == b {
                        assert(new_order[order.len() as int] == i);
                    }
                }
                assert(new_order.drop_last() =~= order);
            }
            if self.windows[b].visible {
                let cmds = draw_window(&self.windows[b]);
                let ghost before = out@;
                let ghost added = cmds@;
                let mut cmds = cmds;
                out.append(&mut cmds);
                proof {
                    assert(ops_of(out@) =~= ops_of(before) + ops_of(added));
                }
            }
            proof {
                order = order.push(b as int);
            }
            have_last = true;
            last = b;
        }
        assert(is_draw_order(ws, order));
        out
    }

    /// Number of windows.
    pub fn window_count(&self) -> (n: usize)
        ensures
            n == self.windows_view().len(),
    {
        self.windows.len()
    }

    /// All window ids, in list order.
    pub fn window_ids(&self) -> (v: Vec<WindowId>)
        ensures
            v@ == ids_of(self.windows_view()),
    {
        let mut v: Vec<WindowId> = Vec::new();
        let mut i: usize = 0;
        while i < self.windows.len()
            invariant
                i <= self.windows@.len(),
                v@ == ids_of(self.windows_view()).subrange(0, i as int),
            decreases self.windows@.len() - i,
        {
            v.push(self.windows[i].id);
            proof {
                assert(v@ =~= ids_of(self.windows_view()).subrange(0, i + 1));
            }
            i = i + 1;
        }
        proof {
            assert(v@ =~= ids_of(self.windows_view()));
        }
        v
    }
}

/// Position of the first occurrence of `x` in `v`.
fn position_in(v: &Vec<WindowId>, x: WindowId) -> (r: Option<usize>)
    ensures
        r matches Some(i) ==> find_first(v@, x) == Some(i as int) && i < v@.len(),
        r is None ==> find_first(v@, x) is None,
{
    let mut i: usize = 0;
    while i < v.len()
        invariant
            i <= v@.len(),
            find_first(v@.subrange(0, i as int), x) is None,
        decreases v@.len() - i,
    {
        proof {
            lemma_find_first_prefix(v@, i as int, x);
        }
        if v[i] == x {
            return Some(i);
        }
        i = i + 1;
    }
    proof {
        assert(v@.subrange(0, v@.len() as int) =~= v@);
    }
    None
}

/// `find_first` on a prefix extended by one element.
proof fn lemma_find_first_prefix(s: Seq<WindowId>, i: int, x: WindowId)
    requires
        0 <= i < s.len(),
        find_first(s.subrange(0, i), x) is None,
    ensures
        s[i] == x ==> find_first(s, x) == Some(i),
        s[i] != x ==> find_first(s.subrange(0, i + 1), x) is None,
{
    let t = s.subrange(0, i + 1);
    assert(t.drop_last() =~= s.subrange(0, i));
    if s[i] == x {
        lemma_find_first_extend(s, i + 1, x);
    }
}

/// A match found in a prefix is the match in the whole sequence.
proof fn lemma_find_first_extend(s: Seq<WindowId>, k: int, x: WindowId)
    requires
        0 <= k <= s.len(),
        find_first(s.subrange(0, k), x) is Some,
    ensures
        find_first(s, x) == find_first(s.subrange(0, k), x),
    decreases s.len() - k,
{
    if k < s.len() {
        let t = s.subrange(0, k + 1);
        assert(t.drop_last() =~= s.subrange(0, k));
        lemma_find_first_extend(s, k + 1, x);
    } else {
        assert(s.subrange(0, k) =~= s);
    }
}

/// `find_window` on a prefix extended by one window.
proof fn lemma_find_window_prefix(ws: Seq<WindowView>, i: int, id: WindowId)
    requires
        0 <= i < ws.len(),
        find_window(ws.subrange(0, i), id) is None,
    ensures
        ws[i].id == id ==> find_window(ws, id) == Some(i),
        ws[i].id != id ==> find_window(ws.subrange(0, i + 1), id) is None,
{
    assert(ids_of(ws.subrange(0, i)) =~= ids_of(ws).subrange(0, i));
    assert(ids_of(ws.subrange(0, i + 1)) =~= ids_of(ws).subrange(0, i + 1));
    lemma_find_first_prefix(ids_of(ws), i, id);
}

/// What `find_first` returns is a position holding the element, before which
/// it does not occur.
pub(crate) proof fn lemma_find_first_spec(s: Seq<WindowId>, x: WindowId)
    ensures
        find_first(s, x) matches Some(i) ==> 0 <= i < s.len() && s[i] == x && forall|j: int|
            0 <= j < i ==> s[j] != x,
        find_first(s, x) is None ==> forall|j: int| 0 <= j < s.len() ==> s[j] != x,
    decreases s.len(),
{
    if s.len() > 0 {
        let t = s.drop_last();
        lemma_find_first_spec(t, x);
        assert forall|j: int| 0 <= j < t.len() implies t[j] == s[j] by {}
    }
}

/// Focusing keeps the manager's invariant.
proof fn lemma_focus_apply_wf(ws: Seq<WindowView>, id: WindowId, z: u32, next_id: u32)
    requires
        forall|i: int, j: int|
            0 <= i < ws.len() && 0 <= j < ws.len() && i != j ==> #[trigger] ws[i].id
                != #[trigger] ws[j].id,
    ensures
        forall|i: int, j: int|
            0 <= i < ws.len() && 0 <= j < ws.len() && i != j && #[trigger] focus_apply(
                ws,
                id,
                z,
            )[i].focused ==> !#[trigger] focus_apply(ws, id, z)[j].focused,
{
    lemma_find_first_spec(ids_of(ws), id);
}

/// The shown windows of a prefix are at most those of the whole list.
proof fn lemma_shown_prefix_le(ws: Seq<WindowView>, k: int)
    requires
        0 <= k <= ws.len(),
    ensures
        shown_ids(ws.subrange(0, k)).len() <= shown_ids(ws).len(),
        shown_ids(ws).len() <= ws.len(),
    decreases ws.len() - k,
{
    lemma_shown_len(ws);
    if k < ws.len() {
        lemma_shown_prefix_step(ws, k);
        lemma_shown_prefix_le(ws, k + 1);
    } else {
        assert(ws.subrange(0, k) =~= ws);
    }
}

/// There are no more shown windows than windows.
proof fn lemma_shown_len(ws: Seq<WindowView>)
    ensures
        shown_ids(ws).len() <= ws.len(),
    decreases ws.len(),
{
    if ws.len() > 0 {
        lemma_shown_len(ws.drop_last());
    }
}

/// Extending a prefix by window `k` adds its id when it is shown.
proof fn lemma_shown_prefix_step(ws: Seq<WindowView>, k: int)
    requires
        0 <= k < ws.len(),
    ensures
        shown_ids(ws.subrange(0, k + 1)) == if is_shown(ws[k]) {
            shown_ids(ws.subrange(0, k)).push(ws[k].id)
        } else {
            shown_ids(ws.subrange(0, k))
        },
{
    assert(ws.subrange(0, k + 1).drop_last() =~= ws.subrange(0, k));
}

/// With no shown ids, no window is shown.
proof fn lemma_no_shown(ws: Seq<WindowView>)
    requires
        shown_ids(ws).len() == 0,
    ensures
        forall|i: int| 0 <= i < ws.len() ==> !is_shown(#[trigger] ws[i]),
    decreases ws.len(),
{
    if ws.len() > 0 {
        lemma_shown_len(ws.drop_last());
        if !is_shown(ws.last()) {
            lemma_no_shown(ws.drop_last());
            assert forall|i: int| 0 <= i < ws.len() implies !is_shown(#[trigger] ws[i]) by {
                if i < ws.len() - 1 {
                    assert(ws[i] == ws.drop_last()[i]);
                }
            }
        }
    }
}

/// Strip `rank` of `count` lies within the screen height.
proof fn lemma_strip_fits(height: int, count: int, rank: int)
    requires
        0 <= rank < count,
        0 <= height,
    ensures
        rank * (height / count) <= height,
        0 <= rank * (height / count),
        height / count <= height,
{
    assert(rank * (height / count) <= count * (height / count)) by (nonlinear_arith)
        requires
            0 <= rank < count,
            0 <= height,
    ;
    assert(count * (height / count) <= height) by (nonlinear_arith)
        requires
            0 < count,
            0 <= height,
    ;
    assert(0 <= rank * (height / count)) by (nonlinear_arith)
        requires
            0 <= rank,
            0 < count,
            0 <= height,
    ;
    assert(height / count <= height) by (nonlinear_arith)
        requires
            0 < count,
            0 <= height,
    ;
}

/// Tiling changes bounds, content areas and framebuffers only.
proof fn lemma_relayout_keeps_ids(ws: Seq<WindowView>, screen: Rect)
    ensures
        relayout(ws, screen).len() == ws.len(),
        forall|i: int|
            0 <= i < ws.len() ==> {
                &&& (#[trigger] relayout(ws, screen)[i]).id == ws[i].id
                &&& relayout(ws, screen)[i].z_order == ws[i].z_order
                &&& relayout(ws, screen)[i].focused == ws[i].focused
                &&& relayout(ws, screen)[i].visible == ws[i].visible
                &&& relayout(ws, screen)[i].minimized == ws[i].minimized
                &&& relayout(ws, screen)[i].decoration == ws[i].decoration
            },
{
}

/// Two window lists of the same shape: same length, and each window has the
/// same id, visibility and decoration.
pub open spec fn same_shape(a: Seq<WindowView>, b: Seq<WindowView>) -> bool {
    &&& a.len() == b.len()
    &&& forall|i: int|
        0 <= i < a.len() ==> {
            &&& (#[trigger] a[i]).id == b[i].id
            &&& is_shown(a[i]) == is_shown(b[i])
            &&& a[i].decoration == b[i].decoration
        }
}

/// Lists of the same shape have the same shown ids.
proof fn lemma_same_shape_shown(a: Seq<WindowView>, b: Seq<WindowView>)
    requires
        same_shape(a, b),
    ensures
        shown_ids(a) == shown_ids(b),
    decreases a.len(),
{
    if a.len() > 0 {
        assert(same_shape(a.drop_last(), b.drop_last())) by {
            assert forall|i: int| 0 <= i < a.drop_last().len() implies {
                &&& (#[trigger] a.drop_last()[i]).id == b.drop_last()[i].id
                &&& is_shown(a.drop_last()[i]) == is_shown(b.drop_last()[i])
                &&& a.drop_last()[i].decoration == b.drop_last()[i].decoration
            } by {
                assert(a.drop_last()[i] == a[i]);
                assert(b.drop_last()[i] == b[i]);
            }
        }
        lemma_same_shape_shown(a.drop_last(), b.drop_last());
        assert(a.last() == a[a.len() - 1]);
    }
}

/// Lists of the same shape tile alike.
proof fn lemma_same_shape_tiling(a: Seq<WindowView>, b: Seq<WindowView>, screen: Rect)
    requires
        same_shape(a, b),
    ensures
        tiling_fits(a, screen) == tiling_fits(b, screen),
{
    lemma_same_shape_shown(a, b);
    assert forall|i: int| 0 <= i <= a.len() implies shown_ids(#[trigger] a.subrange(0, i))
        == shown_ids(b.subrange(0, i)) by {
        assert(same_shape(a.subrange(0, i), b.subrange(0, i))) by {
            assert forall|k: int| 0 <= k < i implies {
                &&& (#[trigger] a.subrange(0, i)[k]).id == b.subrange(0, i)[k].id
                &&& is_shown(a.subrange(0, i)[k]) == is_shown(b.subrange(0, i)[k])
                &&& a.subrange(0, i)[k].decoration == b.subrange(0, i)[k].decoration
            } by {
                assert(a.subrange(0, i)[k] == a[k]);
                assert(b.subrange(0, i)[k] == b[k]);
            }
        }
        lemma_same_shape_shown(a.subrange(0, i), b.subrange(0, i));
    }
    if tiling_fits(a, screen) {
        assert forall|i: int| 0 <= i < b.len() && is_shown(b[i]) && shown_ids(b).len() > 0 implies {
            let bb = #[trigger] strip(
                screen,
                shown_ids(b).len() as int,
                shown_ids(b.subrange(0, i)).len() as int,
            );
            content_fits(bb, b[i].decoration) && area_fits(bb)
        } by {
            assert(shown_ids(a.subrange(0, i)) == shown_ids(b.subrange(0, i)));
            assert(a[i].decoration == b[i].decoration);
            assert(is_shown(a[i]));
        }
    }
    if tiling_fits(b, screen) {
        assert forall|i: int| 0 <= i < a.len() && is_shown(a[i]) && shown_ids(a).len() > 0 implies {
            let bb = #[trigger] strip(
                screen,
                shown_ids(a).len() as int,
                shown_ids(a.subrange(0, i)).len() as int,
            );
            content_fits(bb, a[i].decoration) && area_fits(bb)
        } by {
            assert(shown_ids(a.subrange(0, i)) == shown_ids(b.subrange(0, i)));
            assert(a[i].decoration == b[i].decoration);
            assert(is_shown(b[i]));
        }
    }
}

/// Moving the focus keeps the shape of the list.
proof fn lemma_focus_opt_shape(ws: Seq<WindowView>, t: Option<WindowId>, z: u32)
    ensures
        same_shape(ws, focus_opt(ws, t, z)),
{
}

/// The window `topmost` picks is one of the list.
pub(crate) proof fn lemma_topmost_in(ws: Seq<WindowView>, x: int, y: int)
    ensures
        topmost(ws, x, y) matches Some(t) ==> exists|k: int| 0 <= k < ws.len() && ws[k].id == t.0,
    decreases ws.len(),
{
    if ws.len() > 0 {
        lemma_topmost_in(ws.drop_last(), x, y);
        if let Some(t) = topmost(ws.drop_last(), x, y) {
            let k = choose|k: int| 0 <= k < ws.drop_last().len() && ws.drop_last()[k].id == t.0;
            assert(ws[k].id == t.0);
        }
        assert(ws[ws.len() - 1] == ws.last());
    }
}

/// Replacing one window by one with the same id, stacking order and focus
/// keeps the manager's invariant facts.
proof fn lemma_update_keeps_wf(ws: Seq<WindowView>, p: int, v: WindowView)
    requires
        0 <= p < ws.len(),
        v.id == ws[p].id,
        v.z_order == ws[p].z_order,
        v.focused == ws[p].focused,
    ensures
        forall|i: int|
            0 <= i < ws.len() ==> {
                &&& (#[trigger] ws.update(p, v)[i]).id == ws[i].id
                &&& ws.update(p, v)[i].z_order == ws[i].z_order
                &&& ws.update(p, v)[i].focused == ws[i].focused
            },
        ids_of(ws.update(p, v)) == ids_of(ws),
{
    assert(ids_of(ws.update(p, v)) =~= ids_of(ws));
}

/// The drag step keeps every id in place.
proof fn lemma_drag_step_ids(ws: Seq<WindowView>, drag: Option<DragState>, x: int, y: int)
    ensures
        ids_of(drag_step(ws, drag, x, y)) == ids_of(ws),
        drag_step(ws, drag, x, y).len() == ws.len(),
        forall|i: int|
            0 <= i < ws.len() ==> (#[trigger] drag_step(ws, drag, x, y)[i]).decoration
                == ws[i].decoration,
{
    if let Some(d) = drag {
        lemma_find_first_spec(ids_of(ws), d.window_id);
    }
    assert(ids_of(drag_step(ws, drag, x, y)) =~= ids_of(ws));
}

/// The value of a `u32` read as an `i32` (what `v as i32` gives).
fn i32_of_u32(v: u32) -> (r: i32)
    ensures
        r == u2i(v),
{
    if v < 0x8000_0000 {
        v as i32
    } else {
        ((v - 0x8000_0000) as i32) + i32::MIN
    }
}

/// The value of an `i32` read as a `u32` (what `v as u32` gives).
fn u32_of_i32(v: i32) -> (r: u32)
    ensures
        r == i2u(v as int),
{
    if v >= 0 {
        v as u32
    } else {
        ((v - i32::MIN) as u32) + 0x8000_0000
    }
}

/// The larger of `v` and `m`, as a `u32` (`m` is positive).
fn max_to_u32(v: i32, m: i32) -> (r: u32)
    requires
        m > 0,
    ensures
        r == imax(v as int, m as int),
{
    if v >= m {
        v as u32
    } else {
        m as u32
    }
}

/// The bounds after dragging `edge` of `sb` by `(dx, dy)`.
fn resize_from(edge: ResizeEdge, sb: Rect, dx: i32, dy: i32) -> (r: Rect)
    requires
        resize_fits(edge, sb, dx as int, dy as int),
    ensures
        r == resized_bounds(edge, sb, dx as int, dy as int),
{
    let w = i32_of_u32(sb.width);
    let h = i32_of_u32(sb.height);
    let bx = i32_of_u32(sb.x);
    let by = i32_of_u32(sb.y);
    let min_w: i32 = 100;
    let min_h: i32 = 80;
    let mut nb = sb;
    match edge {
        ResizeEdge::Right => {
            nb.width = max_to_u32(w + dx, min_w);
        },
        ResizeEdge::Bottom => {
            nb.height = max_to_u32(h + dy, min_h);
        },
        ResizeEdge::Left => {
            let new_width = max_to_u32(w - dx, min_w);
            nb.x = u32_of_i32(bx + dx);
            nb.width = new_width;
        },
        ResizeEdge::Top => {
            let new_height = max_to_u32(h - dy, min_h);
            nb.y = u32_of_i32(by + dy);
            nb.height = new_height;
        },
        ResizeEdge::TopLeft => {
            let new_width = max_to_u32(w - dx, min_w);
            let new_height = max_to_u32(h - dy, min_h);
            nb.x = u32_of_i32(bx + dx);
            nb.y = u32_of_i32(by + dy);
            nb.width = new_width;
            nb.height = new_height;
        },
        ResizeEdge::TopRight => {
            let new_height = max_to_u32(h - dy, min_h);
            nb.y = u32_of_i32(by + dy);
            nb.width = max_to_u32(w + dx, min_w);
            nb.height = new_height;
        },
        ResizeEdge::BottomLeft => {
            let new_width = max_to_u32(w - dx, min_w);
            nb.x = u32_of_i32(bx + dx);
            nb.width = new_width;
            nb.height = max_to_u32(h + dy, min_h);
        },
        ResizeEdge::BottomRight => {
            nb.width = max_to_u32(w + dx, min_w);
            nb.height = max_to_u32(h + dy, min_h);
        },
    }
    nb
}

/// Drawing window `b`, the first one after the last drawn, leaves fewer
/// windows to come.
proof fn lemma_count_after_drops(ws: Seq<WindowView>, k: int, have: bool, last: int, b: int)
    requires
        0 <= b < k <= ws.len(),
        after_last(ws, b, have, last),
        forall|i: int| 0 <= i < k && after_last(ws, i, have, last) ==> !drawn_before(ws, i, b),
    ensures
        count_after(ws, k, true, b) < count_after(ws, k, have, last),
    decreases k,
{
    lemma_count_after_le(ws, k - 1, have, last, b);
    if k - 1 > b {
        lemma_count_after_drops(ws, k - 1, have, last, b);
    }
}

/// Fewer windows come after `b` than after the last drawn, when `b` comes
/// first among those.
proof fn lemma_count_after_le(ws: Seq<WindowView>, k: int, have: bool, last: int, b: int)
    requires
        0 <= b < ws.len(),
        k <= ws.len(),
        after_last(ws, b, have, last),
        forall|i: int| 0 <= i < k && after_last(ws, i, have, last) ==> !drawn_before(ws, i, b),
    ensures
        count_after(ws, k, true, b) <= count_after(ws, k, have, last),
    decreases k,
{
    if k > 0 {
        lemma_count_after_le(ws, k - 1, have, last, b);
    }
}

/// With distinct ids, `find_first` finds each element at its own position.
proof fn lemma_find_first_distinct(s: Seq<WindowId>, k: int)
    requires
        s.no_duplicates(),
        0 <= k < s.len(),
    ensures
        find_first(s, s[k]) == Some(k),
{
    lemma_find_first_spec(s, s[k]);
}

/// Alt+Tab then Alt+Shift+Tab (or the reverse) comes back to the window that
/// had the focus, as long as it is shown and the shown windows stay the same.
pub proof fn lemma_next_then_prev(vis: Seq<WindowId>, c: WindowId)
    requires
        vis.no_duplicates(),
        vis.contains(c),
    ensures
        prev_focus(vis, next_focus(vis, Some(c))) == Some(c),
        next_focus(vis, prev_focus(vis, Some(c))) == Some(c),
{
    let n = vis.len() as int;
    let i = choose|i: int| 0 <= i < n && vis[i] == c;
    lemma_find_first_distinct(vis, i);
    let nx = (i + 1) % n;
    lemma_find_first_distinct(vis, nx);
    let pv = if i == 0 {
        n - 1
    } else {
        i - 1
    };
    lemma_find_first_distinct(vis, pv);
    if i + 1 < n {
        vstd::arithmetic::div_mod::lemma_small_mod((i + 1) as nat, n as nat);
        assert(nx == i + 1);
    } else {
        vstd::arithmetic::div_mod::lemma_mod_self_0(n);
        assert(nx == 0);
    }
    if i == 0 {
        vstd::arithmetic::div_mod::lemma_mod_self_0(n);
        assert((pv + 1) % n == 0);
    } else {
        vstd::arithmetic::div_mod::lemma_small_mod(i as nat, n as nat);
        assert((pv + 1) % n == i);
    }
}

/// In a well-formed manager the shown windows have distinct ids, so focus
/// cycling is well defined.
pub proof fn lemma_shown_ids_distinct(ws: Seq<WindowView>)
    requires
        forall|i: int, j: int|
            0 <= i < ws.len() && 0 <= j < ws.len() && i != j ==> #[trigger] ws[i].id
                != #[trigger] ws[j].id,
    ensures
        shown_ids(ws).no_duplicates(),
        forall|k: int|
            0 <= k < shown_ids(ws).len() ==> ids_of(ws).contains(#[trigger] shown_ids(ws)[k]),
    decreases ws.len(),
{
    if ws.len() > 0 {
        let t = ws.drop_last();
        assert forall|i: int, j: int|
            0 <= i < t.len() && 0 <= j < t.len() && i != j implies #[trigger] t[i].id
                != #[trigger] t[j].id by {
            assert(t[i] == ws[i] && t[j] == ws[j]);
        }
        lemma_shown_ids_distinct(t);
        let st = shown_ids(t);
        let last_id = ws[ws.len() - 1].id;
        assert(ws.last() == ws[ws.len() - 1]);
        assert forall|k: int| 0 <= k < st.len() implies ids_of(ws).contains(#[trigger] st[k])
            && st[k] != last_id by {
            assert(ids_of(t).contains(st[k]));
            let i = choose|i: int| 0 <= i < ids_of(t).len() && ids_of(t)[i] == st[k];
            assert(ids_of(ws)[i] == st[k]);
            assert(ws[i] == t[i]);
        }
        if is_shown(ws.last()) {
            let s2 = st.push(last_id);
            assert(shown_ids(ws) == s2);
            assert forall|k: int| 0 <= k < s2.len() implies ids_of(ws).contains(#[trigger] s2[k]) by {
                if k == st.len() {
                    assert(ids_of(ws)[ws.len() - 1] == last_id);
                } else {
                    assert(s2[k] == st[k]);
                }
            }
            assert forall|a: int, b: int| 0 <= a < s2.len() && 0 <= b < s2.len() && a != b implies s2[a]
                != s2[b] by {
                if a < st.len() && b < st.len() {
                    assert(s2[a] == st[a] && s2[b] == st[b]);
                } else if a < st.len() {
                    assert(s2[a] == st[a]);
                } else if b < st.len() {
                    assert(s2[b] == st[b]);
                }
            }
        } else {
            assert(shown_ids(ws) == st);
        }
    }
}

/// Moving the focus changes neither which windows are shown nor their order.
pub proof fn lemma_focus_keeps_shown(ws: Seq<WindowView>, id: WindowId, z: u32)
    ensures
        shown_ids(focus_apply(ws, id, z)) == shown_ids(ws),
{
    lemma_focus_opt_shape(ws, Some(id), z);
    lemma_same_shape_shown(ws, focus_apply(ws, id, z));
}

/// Giving the focus to an existing window puts it alone on top: it is the
/// only focused window and its stacking order is above every other's.
pub proof fn lemma_focus_on_top(ws: Seq<WindowView>, id: WindowId, z: u32)
    requires
        find_window(ws, id) is Some,
        forall|i: int| 0 <= i < ws.len() ==> #[trigger] ws[i].z_order < z,
    ensures
        ({
            let f = focus_apply(ws, id, z);
            let p = find_window(ws, id)->Some_0;
            &&& f[p].id == id
            &&& f[p].focused
            &&& forall|i: int| 0 <= i < f.len() && i != p ==> !(#[trigger] f[i]).focused && f[i].z_order < f[p].z_order
            &&& forall|i: int| 0 <= i < f.len() && i != p ==> (#[trigger] f[i]) == WindowView { focused: false, ..ws[i] }
            &&& f[p] == WindowView { focused: true, z_order: z, ..ws[p] }
            &&& ids_of(f) == ids_of(ws)
        }),
{
    lemma_find_first_spec(ids_of(ws), id);
    assert(ids_of(focus_apply(ws, id, z)) =~= ids_of(ws));
}

/// Opening a window and closing it again leaves the windows' ids as they
/// were, in order: `create_window` appends the new window (with an id no
/// window has) and gives it the focus; `destroy_window` then removes it,
/// passes the focus on, and tiles again in the same layout.
pub proof fn lemma_open_then_close(
    ws: Seq<WindowView>,
    w: WindowView,
    mode: LayoutMode,
    screen: Rect,
    z: u32,
    z2: u32,
)
    requires
        forall|i: int| 0 <= i < ws.len() ==> (#[trigger] ws[i]).id != w.id,
    ensures
        ({
            let c = focus_apply(relayout_if_tiling(ws.push(w), mode, screen), w.id, z);
            let ws1 = c.remove(ws.len() as int);
            let t = next_focus(shown_ids(ws1), Some(w.id));
            &&& find_window(c, w.id) == Some(ws.len() as int)
            &&& ids_of(relayout_if_tiling(focus_opt(ws1, t, z2), mode, screen)) == ids_of(ws)
        }),
{
    let p = ws.push(w);
    let r = relayout_if_tiling(p, mode, screen);
    lemma_relayout_keeps_ids(p, screen);
    assert(ids_of(r) =~= ids_of(p));
    lemma_find_first_spec(ids_of(r), w.id);
    assert(ids_of(p)[ws.len() as int] == w.id);
    if let Some(k) = find_first(ids_of(r), w.id) {
        if k < ws.len() {
            assert(ids_of(p)[k] == ws[k].id);
        }
    }
    assert(find_window(r, w.id) == Some(ws.len() as int));
    let c = focus_apply(r, w.id, z);
    assert(ids_of(c) =~= ids_of(r));
    assert(find_window(c, w.id) == Some(ws.len() as int));
    let ws1 = c.remove(ws.len() as int);
    assert(ids_of(ws1) =~= ids_of(ws));
    let t = next_focus(shown_ids(ws1), Some(w.id));
    let f = focus_opt(ws1, t, z2);
    assert(ids_of(f) =~= ids_of(ws1));
    lemma_relayout_keeps_ids(f, screen);
    assert(ids_of(relayout_if_tiling(f, mode, screen)) =~= ids_of(f));
}

/// Ids are never given out twice: `create_window` hands out the manager's
/// next id, and every operation keeps that counter or raises it, so a window
/// created in a later state gets an id above every id handed out before,
/// also after windows are destroyed.
pub proof fn lemma_id_never_reused(given: WindowId, earlier: WindowManager, later: WindowManager)
    requires
        given < earlier.next_id_view(),
        earlier.next_id_view() <= later.next_id_view(),
    ensures
        later.next_id_view() > given,
{
}

/// `destroy_window` keeps the other windows' ids in their order: whether or
/// not the focus moves on, and whether or not the windows are tiled again,
/// the ids are those before with the removed one taken out.
pub proof fn lemma_destroy_keeps_order(
    ws: Seq<WindowView>,
    i: int,
    refocus: bool,
    t: Option<WindowId>,
    z: u32,
    mode: LayoutMode,
    screen: Rect,
)
    requires
        0 <= i < ws.len(),
    ensures
        ({
            let ws1 = ws.remove(i);
            let ws2 = if refocus {
                focus_opt(ws1, t, z)
            } else {
                ws1
            };
            ids_of(relayout_if_tiling(ws2, mode, screen)) == ids_of(ws).remove(i)
        }),
{
    let ws1 = ws.remove(i);
    assert(ids_of(ws1) =~= ids_of(ws).remove(i));
    let ws2 = if refocus {
        focus_opt(ws1, t, z)
    } else {
        ws1
    };
    lemma_focus_opt_shape(ws1, t, z);
    assert(ids_of(ws2) =~= ids_of(ws1));
    lemma_relayout_keeps_ids(ws2, screen);
    assert(ids_of(relayout_if_tiling(ws2, mode, screen)) =~= ids_of(ws2));
}

/// Whether ids rise strictly along the list.
pub open spec fn ids_rising(ids: Seq<WindowId>) -> bool {
    forall|a: int, b: int| 0 <= a < b < ids.len() ==> #[trigger] ids[a] < #[trigger] ids[b]
}

/// `window_ids` lists the windows in the order they were created: creating
/// a window (whose id is above every other) appends its id and keeps the
/// ids rising, and destroying one keeps them rising. Rising ids are distinct.
pub proof fn lemma_creation_order(
    ws: Seq<WindowView>,
    w: WindowView,
    mode: LayoutMode,
    screen: Rect,
    z: u32,
)
    requires
        ids_rising(ids_of(ws)),
        forall|i: int| 0 <= i < ws.len() ==> (#[trigger] ws[i]).id < w.id,
    ensures
        ({
            let c = focus_apply(relayout_if_tiling(ws.push(w), mode, screen), w.id, z);
            &&& ids_of(c) == ids_of(ws).push(w.id)
            &&& ids_rising(ids_of(c))
        }),
        forall|i: int| 0 <= i < ws.len() ==> ids_rising(#[trigger] ids_of(ws).remove(i)),
        ids_of(ws).no_duplicates(),
{
    let p = ws.push(w);
    let r = relayout_if_tiling(p, mode, screen);
    lemma_relayout_keeps_ids(p, screen);
    assert(ids_of(r) =~= ids_of(p));
    let c = focus_apply(r, w.id, z);
    assert(ids_of(c) =~= ids_of(r));
    assert(ids_of(p) =~= ids_of(ws).push(w.id));
    let ids = ids_of(ws);
    assert forall|a: int, b: int| 0 <= a < b < ids.push(w.id).len() implies #[trigger] ids.push(w.id)[a]
        < #[trigger] ids.push(w.id)[b] by {
        if b == ids.len() {
            assert(ids.push(w.id)[a] == ws[a].id);
        } else {
            assert(ids.push(w.id)[a] == ids[a] && ids.push(w.id)[b] == ids[b]);
        }
    }
    assert forall|i: int| 0 <= i < ws.len() implies ids_rising(#[trigger] ids.remove(i)) by {
        let q = ids.remove(i);
        assert forall|a: int, b: int| 0 <= a < b < q.len() implies #[trigger] q[a] < #[trigger] q[b] by {
            let a2 = if a < i { a } else { a + 1 };
            let b2 = if b < i { b } else { b + 1 };
            assert(q[a] == ids[a2] && q[b] == ids[b2]);
        }
    }
    assert forall|a: int, b: int| 0 <= a < ids.len() && 0 <= b < ids.len() && a != b implies ids[a]
        != ids[b] by {
        if a < b {
            assert(ids[a] < ids[b]);
        } else {
            assert(ids[b] < ids[a]);
        }
    }
}

/// Setting the layout twice is setting it once, and a layout other than
/// tiling leaves every window as it was.
pub proof fn lemma_layout_idempotent(ws: Seq<WindowView>, mode: LayoutMode, screen: Rect)
    ensures
        relayout_if_tiling(relayout_if_tiling(ws, mode, screen), mode, screen) == relayout_if_tiling(
            ws,
            mode,
            screen,
        ),
        mode != LayoutMode::Tiling ==> relayout_if_tiling(ws, mode, screen) == ws,
{
    if mode == LayoutMode::Tiling {
        let r = relayout(ws, screen);
        lemma_relayout_keeps_ids(ws, screen);
        assert(same_shape(ws, r));
        lemma_same_shape_shown(ws, r);
        assert forall|i: int| 0 <= i <= ws.len() implies shown_ids(#[trigger] r.subrange(0, i))
            == shown_ids(ws.subrange(0, i)) by {
            assert(same_shape(ws.subrange(0, i), r.subrange(0, i))) by {
                assert forall|k: int| 0 <= k < i implies {
                    &&& (#[trigger] ws.subrange(0, i)[k]).id == r.subrange(0, i)[k].id
                    &&& is_shown(ws.subrange(0, i)[k]) == is_shown(r.subrange(0, i)[k])
                    &&& ws.subrange(0, i)[k].decoration == r.subrange(0, i)[k].decoration
                } by {
                    assert(ws.subrange(0, i)[k] == ws[k]);
                    assert(r.subrange(0, i)[k] == r[k]);
                }
            }
            lemma_same_shape_shown(ws.subrange(0, i), r.subrange(0, i));
        }
        let rr = relayout(r, screen);
        assert forall|i: int| 0 <= i < ws.len() implies #[trigger] rr[i] == r[i] by {
            if is_shown(ws[i]) {
                assert(shown_ids(r.subrange(0, i)) == shown_ids(ws.subrange(0, i)));
                let b = strip(screen, shown_ids(ws).len() as int, shown_ids(ws.subrange(0, i)).len() as int);
                assert(r[i].framebuffer.len() == b.width * b.height);
            }
        }
        assert(rr =~= r);
    }
}

/// A click lands on the highest window under the point: `topmost` picks a
/// visible window containing the point whose stacking order is at least
/// every other such window's, and finds none only when no visible window
/// contains the point.
pub proof fn lemma_topmost_is_highest(ws: Seq<WindowView>, x: int, y: int)
    ensures
        topmost(ws, x, y) matches Some(t) ==> exists|k: int|
            0 <= k < ws.len() && (#[trigger] ws[k]).id == t.0 && ws[k].visible && rect_contains(
                ws[k].bounds,
                x,
                y,
            ) && ws[k].z_order == t.1,
        topmost(ws, x, y) matches Some(t) ==> forall|j: int|
            0 <= j < ws.len() && (#[trigger] ws[j]).visible && rect_contains(ws[j].bounds, x, y)
                ==> ws[j].z_order <= t.1,
        topmost(ws, x, y) is None ==> forall|j: int|
            0 <= j < ws.len() ==> !((#[trigger] ws[j]).visible && rect_contains(ws[j].bounds, x, y)),
    decreases ws.len(),
{
    if ws.len() > 0 {
        let t = ws.drop_last();
        lemma_topmost_is_highest(t, x, y);
        assert forall|j: int| 0 <= j < t.len() implies #[trigger] t[j] == ws[j] by {}
        if let Some(r) = topmost(ws, x, y) {
            if topmost(t, x, y) == Some(r) {
                let k = choose|k: int|
                    0 <= k < t.len() && (#[trigger] t[k]).id == r.0 && t[k].visible && rect_contains(
                        t[k].bounds,
                        x,
                        y,
                    ) && t[k].z_order == r.1;
                assert(ws[k] == t[k]);
            } else {
                assert(ws[ws.len() - 1] == ws.last());
            }
            assert forall|j: int|
                0 <= j < ws.len() && (#[trigger] ws[j]).visible && rect_contains(ws[j].bounds, x, y)
                    implies ws[j].z_order <= r.1 by {
                if j < t.len() {
                    assert(t[j].visible && rect_contains(t[j].bounds, x, y));
                } else {
                    assert(ws[j] == ws.last());
                }
            }
        } else {
            assert forall|j: int| 0 <= j < ws.len() implies !((#[trigger] ws[j]).visible && rect_contains(
                ws[j].bounds,
                x,
                y,
            )) by {
                if j < t.len() {
                    assert(t[j] == ws[j]);
                } else {
                    assert(ws[j] == ws.last());
                }
            }
        }
    }
}

/// The window alone on top of the stacking order is drawn last, over all
/// others, in every draw order.
pub proof fn lemma_top_window_drawn_last(ws: Seq<WindowView>, order: Seq<int>, p: int)
    requires
        is_draw_order(ws, order),
        0 <= p < ws.len(),
        forall|i: int| 0 <= i < ws.len() && i != p ==> (#[trigger] ws[i]).z_order < ws[p].z_order,
    ensures
        order.len() > 0,
        order.last() == p,
{
    assert(order.contains(p));
    let k = choose|k: int| 0 <= k < order.len() && order[k] == p;
    let n = order.len() as int;
    if k < n - 1 {
        let q = order[n - 1];
        assert(drawn_before(ws, order[k], order[n - 1]));
        if q != p {
            assert(ws[q].z_order < ws[p].z_order);
        }
    }
}

/// `create_window` puts the new window last in the list, alone in focus and
/// above every other window; outside tiling it keeps the bounds it was
/// created with.
pub proof fn lemma_create_puts_window_on_top(
    ws: Seq<WindowView>,
    w: WindowView,
    mode: LayoutMode,
    screen: Rect,
    z: u32,
)
    requires
        forall|i: int| 0 <= i < ws.len() ==> (#[trigger] ws[i]).id != w.id,
        forall|i: int| 0 <= i < ws.len() ==> (#[trigger] ws[i]).z_order < z,
        w.z_order < z,
    ensures
        ({
            let c = focus_apply(relayout_if_tiling(ws.push(w), mode, screen), w.id, z);
            let n = ws.len() as int;
            &&& c.len() == n + 1
            &&& c[n].id == w.id
            &&& c[n].focused
            &&& c[n].z_order == z
            &&& forall|i: int| 0 <= i < n ==> !(#[trigger] c[i]).focused && c[i].z_order < z
            &&& mode != LayoutMode::Tiling ==> c[n].bounds == w.bounds
        }),
{
    let p = ws.push(w);
    let r = relayout_if_tiling(p, mode, screen);
    lemma_relayout_keeps_ids(p, screen);
    assert forall|i: int| 0 <= i < r.len() implies (#[trigger] r[i]).z_order < z && r[i].id == p[i].id by {
        assert(p[i].z_order < z);
    }
    lemma_open_then_close(ws, w, mode, screen, z, z);
    lemma_focus_on_top(r, w.id, z);
}

/// When the focused window is destroyed, the focus passes to the first
/// shown window left, in list order, or to none when none is shown.
pub proof fn lemma_destroy_refocus(ws1: Seq<WindowView>, id: WindowId)
    requires
        forall|i: int, j: int|
            0 <= i < ws1.len() && 0 <= j < ws1.len() && i != j ==> #[trigger] ws1[i].id != #[trigger] ws1[j].id,
        forall|i: int| 0 <= i < ws1.len() ==> (#[trigger] ws1[i]).id != id,
    ensures
        next_focus(shown_ids(ws1), Some(id)) == if shown_ids(ws1).len() == 0 {
            None
        } else {
            Some(shown_ids(ws1)[0])
        },
{
    lemma_shown_ids_distinct(ws1);
    let vis = shown_ids(ws1);
    lemma_find_first_spec(vis, id);
    if let Some(k) = find_first(vis, id) {
        assert(ids_of(ws1).contains(vis[k]));
        let j = choose|j: int| 0 <= j < ids_of(ws1).len() && ids_of(ws1)[j] == vis[k];
        assert(ws1[j].id == id);
    }
}

/// After tiling, the shown windows are stacked top to bottom in list order
/// without overlapping, each as wide as the screen.
pub proof fn lemma_relayout_strips(ws: Seq<WindowView>, screen: Rect, i: int, j: int)
    requires
        0 <= i < j < ws.len(),
        is_shown(ws[i]),
        is_shown(ws[j]),
        tiling_fits(ws, screen),
    ensures
        relayout(ws, screen)[i].bounds.y + relayout(ws, screen)[i].bounds.height
            <= relayout(ws, screen)[j].bounds.y,
        relayout(ws, screen)[j].bounds.y + relayout(ws, screen)[j].bounds.height <= screen.height,
        relayout(ws, screen)[i].bounds.width == screen.width,
        relayout(ws, screen)[i].bounds.x == 0,
{
    let count = shown_ids(ws).len() as int;
    let ri = shown_ids(ws.subrange(0, i)).len() as int;
    let rj = shown_ids(ws.subrange(0, j)).len() as int;
    lemma_shown_prefix_step(ws, i);
    lemma_shown_rank_grows(ws, i + 1, j);
    lemma_shown_prefix_step(ws, j);
    lemma_shown_prefix_le(ws, j + 1);
    assert(ri + 1 <= rj);
    assert(rj < count);
    let h = (screen.height as int) / count;
    lemma_strip_fits(screen.height as int, count, ri);
    lemma_strip_fits(screen.height as int, count, rj);
    assert((ri + 1) * h <= rj * h) by (nonlinear_arith)
        requires
            ri + 1 <= rj,
            0 <= h,
    ;
    assert((rj + 1) * h <= count * h) by (nonlinear_arith)
        requires
            rj + 1 <= count,
            0 <= h,
    ;
    assert(count * h <= screen.height) by (nonlinear_arith)
        requires
            h == (screen.height as int) / count,
            count > 0,
            0 <= screen.height,
    ;
    assert(ri * h + h == (ri + 1) * h) by (nonlinear_arith);
    assert(rj * h + h == (rj + 1) * h) by (nonlinear_arith);
    assert(relayout(ws, screen)[i].bounds == strip(screen, count, ri));
    assert(relayout(ws, screen)[j].bounds == strip(screen, count, rj));
}

/// The number of shown windows before position `k` never decreases with `k`.
proof fn lemma_shown_rank_grows(ws: Seq<WindowView>, a: int, b: int)
    requires
        0 <= a <= b <= ws.len(),
    ensures
        shown_ids(ws.subrange(0, a)).len() <= shown_ids(ws.subrange(0, b)).len(),
    decreases b - a,
{
    if a < b {
        lemma_shown_prefix_step(ws, b - 1);
        lemma_shown_rank_grows(ws, a, b - 1);
    }
}


/// Whether a shown window with decoration `d` fits strip `rank` of `count`.
pub open spec fn strip_fits(screen: Rect, count: int, rank: int, d: WindowDecoration) -> bool {
    content_fits(strip(screen, count, rank), d) && area_fits(strip(screen, count, rank))
}

/// Whether a window with decoration `d` fits strip `rank` of `count` on `screen`.
fn strip_fits_exec(screen: Rect, count: u64, rank: u64, d: WindowDecoration) -> (r: bool)
    requires
        rank < count,
    ensures
        r == strip_fits(screen, count as int, rank as int, d),
{
    proof {
        lemma_strip_fits(screen.height as int, count as int, rank as int);
    }
    let h: u64 = screen.height as u64 / count;
    let y: u64 = rank * h;
    let th: u64 = d.title_bar_height as u64;
    let bw: u64 = d.border_width as u64;
    let max: u64 = 0xffff_ffff;
    let sw: u64 = screen.width as u64;
    assert(sw * h <= 0xffff_ffff * 0xffff_ffff) by (nonlinear_arith)
        requires
            sw <= 0xffff_ffff,
            h <= 0xffff_ffff,
    ;
    y + th + bw <= max && bw * 2 <= max && th + bw * 2 <= max && sw * h <= max
}

/// Whether the decorations of window `w` can be drawn within `u32`.
fn draw_fits_exec(w: &Window) -> (r: bool)
    ensures
        r == draw_fits(w@),
{
    let b = w.bounds;
    let d = w.decoration;
    if !d.show_title_bar {
        return true;
    }
    let max: i64 = 0xffff_ffff;
    let bx = b.x as i64;
    let by = b.y as i64;
    let right = bx + b.width as i64;
    let size = d.title_bar_height as i64 - 8;
    let cx = right - size - 4;
    let mx = cx - size - 4;
    let xx = mx - size - 4;
    let buttons = d.title_bar_height >= 8 && right <= max && right >= size && right - size >= 4
        && cx >= 0 && by + 4 <= max;
    let close_ok = !d.show_close_button || (buttons && cx + size / 2 >= 4 && by + 4 + size / 2
        >= 8 && cx + size / 2 <= max && by + 4 + size / 2 <= max);
    let min_ok = !d.show_minimize_button || (buttons && mx >= 0 && by + 4 + size <= max && by + 4
        + size >= 4 && mx + 4 <= max && size >= 8);
    let max_ok = !d.show_maximize_button || (buttons && mx >= 0 && xx >= 0 && xx + 4 <= max && by
        + 8 <= max && size >= 8);
    bx + 10 <= max && by + 8 <= max && close_ok && min_ok && max_ok
}

/// Whether the click tests on window `w` stay within `u32`.
fn click_fits_exec(w: &Window) -> (r: bool)
    ensures
        r == click_fits(w@),
{
    let b = w.bounds;
    let d = w.decoration;
    let max: i64 = 0xffff_ffff;
    let right = b.x as i64 + b.width as i64;
    let size = d.title_bar_height as i64 - 8;
    let cx = right - size - 4;
    let mx = cx - size - 4;
    let xx = mx - size - 4;
    let buttons = d.title_bar_height >= 8 && right <= max && right >= size && right - size >= 4
        && cx >= 0 && b.y as i64 + 4 <= max;
    let shown = (!d.show_close_button || buttons) && (!d.show_minimize_button || (buttons && mx
        >= 0)) && (!d.show_maximize_button || (buttons && mx >= 0 && xx >= 0));
    let t: i64 = if d.border_width >= 4 {
        d.border_width as i64
    } else {
        4
    };
    let edges = right + t <= max && b.y as i64 + b.height as i64 + t <= max;
    shown && (!w.resizable || edges)
}

impl WindowManager {
    /// Whether a window can still be raised: a stacking order is left for
    /// `focus_next`, `focus_prev`, `focus_window`, `handle_click` and
    /// `destroy_window`.
    pub fn has_stacking_room(&self) -> (r: bool)
        ensures
            r == (self.next_z_view() < u32::MAX),
    {
        self.next_z_order < u32::MAX
    }

    /// Whether `create_window(spec)` stays within its limits: ids and
    /// stacking orders left, the new window's bounds and content area within
    /// `u32`, and, when tiling, every shown window fitting its new strip.
    pub fn can_create_window(&self, spec: &WindowSpec) -> (r: bool)
        requires
            self.wf(),
        ensures
            r == {
                &&& self.next_id_view() < u32::MAX
                &&& self.next_z_view() + 2 <= u32::MAX
                &&& content_fits(
                    layout_bounds(self.layout_view(), spec.bounds, self.screen_view()),
                    spec.decoration,
                )
                &&& area_fits(layout_bounds(self.layout_view(), spec.bounds, self.screen_view()))
                &&& self.layout_view() == LayoutMode::Tiling ==> tiling_fits(
                    self.windows_view().push(
                        fresh_window(
                            self.next_id_view(),
                            *spec,
                            self.screen_view(),
                            self.next_z_view(),
                        ),
                    ),
                    self.screen_view(),
                )
            },
    {
        if self.next_window_id == u32::MAX || self.next_z_order > u32::MAX - 2 {
            return false;
        }
        let b = match self.layout_mode {
            LayoutMode::Tiling => self.screen_rect,
            LayoutMode::Floating => spec.bounds,
            LayoutMode::Fullscreen => self.screen_rect,
        };
        let d = spec.decoration;
        let max: u64 = 0xffff_ffff;
        let wd: u64 = b.width as u64;
        let ht: u64 = b.height as u64;
        assert(wd * ht <= 0xffff_ffff * 0xffff_ffff) by (nonlinear_arith)
            requires
                wd <= 0xffff_ffff,
                ht <= 0xffff_ffff,
        ;
        let th: u64 = d.title_bar_height as u64;
        let bw: u64 = d.border_width as u64;
        let own = b.x as u64 + bw <= max && b.y as u64 + th + bw <= max && bw * 2 <= max && th + bw
            * 2 <= max && wd * ht <= max;
        if !own {
            return false;
        }
        if self.layout_mode != LayoutMode::Tiling {
            return true;
        }
        let ghost ws = self.windows_view();
        let ghost f = fresh_window(self.next_window_id, *spec, self.screen_rect, self.next_z_order);
        let ghost all = ws.push(f);
        let visible = self.shown_window_ids();
        proof {
            lemma_shown_len(ws);
            assert(all.drop_last() =~= ws);
            assert(shown_ids(all) == shown_ids(ws).push(f.id));
        }
        let count: u64 = visible.len() as u64 + 1;
        let n = self.windows.len();
        let mut rank: u64 = 0;
        let mut ok = true;
        let mut i: usize = 0;
        while i < n
            invariant
                n == ws.len(),
                ws == self.windows_view(),
                all == ws.push(f),
                count == shown_ids(all).len(),
                count == shown_ids(ws).len() + 1,
                i <= n,
                rank == shown_ids(ws.subrange(0, i as int)).len(),
                rank <= shown_ids(ws).len(),
                ok == forall|j: int|
                    0 <= j < i && is_shown(ws[j]) ==> #[trigger] strip_fits(
                        self.screen_view(),
                        count as int,
                        shown_ids(ws.subrange(0, j)).len() as int,
                        ws[j].decoration,
                    ),
            decreases n - i,
        {
            proof {
                assert(ws[i as int] == self.windows@[i as int]@);
                lemma_shown_prefix_step(ws, i as int);
                lemma_shown_prefix_le(ws, i as int + 1);
            }
            let ghost ok0 = ok;
            if self.windows[i].visible && !self.windows[i].minimized {
                let fits = strip_fits_exec(self.screen_rect, count, rank, self.windows[i].decoration);
                ok = ok && fits;
                rank = rank + 1;
            }
            proof {
                let sc = self.screen_view();
                if ok {
                    assert forall|j: int| 0 <= j < i + 1 && is_shown(ws[j]) implies #[trigger] strip_fits(
                        sc,
                        count as int,
                        shown_ids(ws.subrange(0, j)).len() as int,
                        ws[j].decoration,
                    ) by {
                        if j < i {
                            assert(ok0);
                        }
                    }
                } else if !ok0 {
                    let j = choose|j: int|
                        0 <= j < i && is_shown(ws[j]) && !#[trigger] strip_fits(
                            sc,
                            count as int,
                            shown_ids(ws.subrange(0, j)).len() as int,
                            ws[j].decoration,
                        );
                    assert(0 <= j < i + 1);
                } else {
                    assert(is_shown(ws[i as int]));
                    assert(!strip_fits(
                        sc,
                        count as int,
                        shown_ids(ws.subrange(0, i as int)).len() as int,
                        ws[i as int].decoration,
                    ));
                }
            }
            i = i + 1;
        }
        proof {
            assert(ws.subrange(0, n as int) =~= ws);
        }
        let last = strip_fits_exec(self.screen_rect, count, rank, d);
        proof {
            assert(all.subrange(0, n as int) =~= ws);
            assert forall|j: int| 0 <= j < n implies #[trigger] all.subrange(0, j) == ws.subrange(
                0,
                j,
            ) by {
                assert(all.subrange(0, j) =~= ws.subrange(0, j));
            }
            let sc = self.screen_view();
            if ok && last {
                assert forall|j: int| 0 <= j < all.len() && is_shown(all[j]) implies {
                    let sb = #[trigger] strip(
                        sc,
                        count as int,
                        shown_ids(all.subrange(0, j)).len() as int,
                    );
                    content_fits(sb, all[j].decoration) && area_fits(sb)
                } by {
                    if j < n {
                        assert(all[j] == ws[j]);
                        assert(all.subrange(0, j) == ws.subrange(0, j));
                        assert(strip_fits(
                            sc,
                            count as int,
                            shown_ids(ws.subrange(0, j)).len() as int,
                            ws[j].decoration,
                        ));
                    } else {
                        assert(j == n);
                        assert(all[j] == f);
                    }
                }
            } else if !ok {
                let j = choose|j: int|
                    0 <= j < n && is_shown(ws[j]) && !#[trigger] strip_fits(
                        sc,
                        count as int,
                        shown_ids(ws.subrange(0, j)).len() as int,
                        ws[j].decoration,
                    );
                assert(all[j] == ws[j]);
                assert(all.subrange(0, j) == ws.subrange(0, j));
                let sb = strip(sc, count as int, shown_ids(all.subrange(0, j)).len() as int);
                assert(!(content_fits(sb, all[j].decoration) && area_fits(sb)));
            } else {
                assert(all[n as int] == f);
                let sb = strip(sc, count as int, shown_ids(all.subrange(0, n as int)).len() as int);
                assert(!(content_fits(sb, all[n as int].decoration) && area_fits(sb)));
            }
        }
        ok && last
    }

    /// Whether `draw` can compute the decorations of every visible window
    /// within `u32`.
    pub fn can_draw(&self) -> (r: bool)
        ensures
            r == forall|i: int|
                0 <= i < self.windows_view().len() && (#[trigger] self.windows_view()[i]).visible
                    ==> draw_fits(self.windows_view()[i]),
    {
        let ghost ws = self.windows_view();
        let mut i: usize = 0;
        while i < self.windows.len()
            invariant
                ws == self.windows_view(),
                i <= ws.len(),
                forall|j: int| 0 <= j < i && (#[trigger] ws[j]).visible ==> draw_fits(ws[j]),
            decreases ws.len() - i,
        {
            proof {
                assert(ws[i as int] == self.windows@[i as int]@);
            }
            if self.windows[i].visible && !draw_fits_exec(&self.windows[i]) {
                return false;
            }
            i = i + 1;
        }
        true
    }

    /// Whether `handle_click(x, y)` can test the window under the point
    /// within `u32`; true when no window is there.
    pub fn can_click(&self, x: u32, y: u32) -> (r: bool)
        requires
            self.wf(),
        ensures
            r == (topmost(self.windows_view(), x as int, y as int) matches Some(t) ==> click_fits(
                self.windows_view()[find_window(self.windows_view(), t.0)->Some_0],
            )),
    {
        let ghost ws = self.windows_view();
        let mut clicked: Option<WindowId> = None;
        let mut max_z: u32 = 0;
        let mut i: usize = 0;
        while i < self.windows.len()
            invariant
                ws == self.windows_view(),
                i <= ws.len(),
                clicked == match topmost(ws.subrange(0, i as int), x as int, y as int) {
                    Some(t) => Some(t.0),
                    None => None::<WindowId>,
                },
                max_z == match topmost(ws.subrange(0, i as int), x as int, y as int) {
                    Some(t) => t.1,
                    None => 0u32,
                },
            decreases ws.len() - i,
        {
            proof {
                assert(ws.subrange(0, i + 1).drop_last() =~= ws.subrange(0, i as int));
                assert(ws[i as int] == self.windows@[i as int]@);
            }
            let w = &self.windows[i];
            if w.visible && w.bounds.contains(x, y) && w.z_order >= max_z {
                clicked = Some(w.id);
                max_z = w.z_order;
            }
            i = i + 1;
        }
        proof {
            assert(ws.subrange(0, ws.len() as int) =~= ws);
        }
        let id = match clicked {
            Some(id) => id,
            None => {
                return true;
            },
        };
        proof {
            lemma_topmost_in(ws, x as int, y as int);
        }
        match self.position_of(id) {
            Some(p) => {
                proof {
                    assert(ws[p as int] == self.windows@[p as int]@);
                }
                click_fits_exec(&self.windows[p])
            },
            None => {
                proof {
                    lemma_find_first_spec(ids_of(ws), id);
                    let k = choose|k: int| 0 <= k < ws.len() && ws[k].id == id;
                    assert(ids_of(ws)[k] == id);
                }
                true
            },
        }
    }
}

} // verus!
