//! The window manager's self-test, one step at a time: open the sample
//! windows, paint them and switch to floating, cycle the focus, and close the
//! terminal with a click on its close button. Each step returns what is to be
//! shown; the caller draws it between steps.
use vstd::prelude::*;
use crate::draw::{DrawCommand, draw_fits, ops_of};
use crate::error::Errno;
use crate::graphics::{Color, Rect, argb_of};
use crate::window::{
    WindowDecoration, WindowId, WindowSpec, WindowView, content_fits, content_rect, area_fits,
    blank_framebuffer, buttons_fit, button_rect, close_x,
};
use crate::window_demo::{on_terminal_line, terminal_fg, terminal_bg, terminal_fits, gradient_pixel};
use crate::window_manager::{
    WindowManager, fresh_window, LayoutMode, WindowAction, DragState, ResizeState, find_window, focus_apply,
    relayout_if_tiling, layout_bounds, tiling_fits, shown_ids, next_focus, focus_opt, z_after_focus,
    topmost, click_action, click_fits, is_draw_order, draw_ops, ids_of, lemma_find_first_spec,
    lemma_topmost_in,
};

verus! {

/// The abstract state of a window manager.
#[verifier::ext_equal]
pub struct WmState {
    pub windows: Seq<WindowView>,
    pub focused: Option<WindowId>,
    pub layout: LayoutMode,
    pub screen: Rect,
    pub next_id: u32,
    pub next_z: u32,
    pub drag: Option<DragState>,
    pub resize: Option<ResizeState>,
}

/// The abstract state of `wm`.
pub open spec fn state_of(wm: WindowManager) -> WmState {
    WmState {
        windows: wm.windows_view(),
        focused: wm.focused_view(),
        layout: wm.layout_view(),
        screen: wm.screen_view(),
        next_id: wm.next_id_view(),
        next_z: wm.next_z_view(),
        drag: wm.drag_view(),
        resize: wm.resize_view(),
    }
}

/// The window with id `id`, if there is one.
pub open spec fn window_of(s: WmState, id: WindowId) -> Option<WindowView> {
    match find_window(s.windows, id) {
        Some(i) => Some(s.windows[i]),
        None => None,
    }
}

/// Whether every visible window can be drawn within `u32`.
pub open spec fn all_draw_fit(ws: Seq<WindowView>) -> bool {
    forall|i: int| 0 <= i < ws.len() && (#[trigger] ws[i]).visible ==> draw_fits(ws[i])
}

/// Whether `cmds` draws the visible windows of `ws` bottom to top.
pub open spec fn is_frame_of(cmds: Seq<DrawCommand>, ws: Seq<WindowView>) -> bool {
    exists|order: Seq<int>| is_draw_order(ws, order) && ops_of(cmds) == draw_ops(ws, order)
}

/// The state after `focus_next`.
pub open spec fn focused_next(s: WmState) -> WmState {
    let t = next_focus(shown_ids(s.windows), s.focused);
    WmState {
        windows: focus_opt(s.windows, t, s.next_z),
        focused: t,
        next_z: z_after_focus(s.windows, t, s.next_z) as u32,
        ..s
    }
}

/// Focus the next shown window and draw the screen again.
///
/// `EINVAL`, with nothing changed, when no stacking order is left for the
/// raise; `EINVAL` after the focus moved when a visible window cannot be drawn
/// within `u32`.
pub fn focus_next_and_draw(wm: &mut WindowManager) -> (r: Result<Vec<DrawCommand>, Errno>)
    requires
        old(wm).wf(),
    ensures
        final(wm).wf(),
        !(state_of(*old(wm)).next_z < u32::MAX) ==> r == Err::<Vec<DrawCommand>, Errno>(
            Errno::EINVAL,
        ) && state_of(*final(wm)) == state_of(*old(wm)),
        state_of(*old(wm)).next_z < u32::MAX ==> {
            &&& state_of(*final(wm)) == focused_next(state_of(*old(wm)))
            &&& r is Ok <==> all_draw_fit(focused_next(state_of(*old(wm))).windows)
            &&& r matches Err(e) ==> e == Errno::EINVAL
            &&& r matches Ok(cmds) ==> is_frame_of(cmds@, state_of(*final(wm)).windows)
        },
{
    if !wm.has_stacking_room() {
        return Err(Errno::EINVAL);
    }
    wm.focus_next();
    proof {
        let s = state_of(*old(wm));
        let t = next_focus(shown_ids(s.windows), s.focused);
        assert(state_of(*wm) =~= focused_next(s));
    }
    if !wm.can_draw() {
        return Err(Errno::EINVAL);
    }
    Ok(wm.draw())
}

/// The decoration of the sample windows: the default one.
pub open spec fn sample_decoration() -> WindowDecoration {
    WindowDecoration {
        title_bar_height: 30,
        border_width: 2,
        show_title_bar: true,
        show_close_button: true,
        show_minimize_button: true,
        show_maximize_button: true,
    }
}

/// Where the sample terminal asks to be: at (50, 50), 400 x 300.
pub open spec fn terminal_rect() -> Rect {
    Rect { x: 50, y: 50, width: 400, height: 300 }
}

/// Where the sample insights window asks to be: at (500, 100), 350 x 250.
pub open spec fn insights_rect() -> Rect {
    Rect { x: 500, y: 100, width: 350, height: 250 }
}

/// Where the sample file window asks to be: at (200, 400), 380 x 200.
pub open spec fn files_rect() -> Rect {
    Rect { x: 200, y: 400, width: 380, height: 200 }
}

/// A sample window just created: resizable, movable and closable, with the
/// default decoration and a blank framebuffer.
pub open spec fn sample_window(id: WindowId, title: Seq<char>, b: Rect, z: u32) -> WindowView {
    WindowView {
        id,
        title,
        bounds: b,
        content_bounds: content_rect(b, sample_decoration()),
        framebuffer: blank_framebuffer((b.width * b.height) as nat),
        visible: true,
        focused: false,
        minimized: false,
        fullscreen: false,
        resizable: true,
        movable: true,
        closable: true,
        decoration: sample_decoration(),
        z_order: z,
    }
}

/// Whether `create_window` can open a sample window titled `title` asking
/// for `requested` (the condition `can_create_window` tests).
pub open spec fn sample_fits(s: WmState, title: Seq<char>, requested: Rect) -> bool {
    let b = layout_bounds(s.layout, requested, s.screen);
    &&& s.next_id < u32::MAX
    &&& s.next_z + 2 <= u32::MAX
    &&& content_fits(b, sample_decoration())
    &&& area_fits(b)
    &&& s.layout == LayoutMode::Tiling ==> tiling_fits(
        s.windows.push(sample_window(s.next_id, title, s.screen, s.next_z)),
        s.screen,
    )
}

/// The state after `create_window` opens a sample window titled `title`
/// asking for `requested`: it gets the next id and the focus.
pub open spec fn with_sample(s: WmState, title: Seq<char>, requested: Rect) -> WmState {
    let id = s.next_id;
    let b = layout_bounds(s.layout, requested, s.screen);
    WmState {
        windows: focus_apply(
            relayout_if_tiling(s.windows.push(sample_window(id, title, b, s.next_z)), s.layout, s.screen),
            id,
            (s.next_z + 1) as u32,
        ),
        focused: Some(id),
        next_id: (s.next_id + 1) as u32,
        next_z: (s.next_z + 2) as u32,
        ..s
    }
}

/// The state with the framebuffer of window `id` replaced by `fb`.
pub open spec fn repainted(s: WmState, id: WindowId, fb: Seq<u32>) -> WmState {
    match find_window(s.windows, id) {
        Some(i) => WmState {
            windows: s.windows.update(i, WindowView { framebuffer: fb, ..s.windows[i] }),
            ..s
        },
        None => s,
    }
}

/// The framebuffer of `w` painted as the sample terminal.
pub open spec fn terminal_pixels(w: WindowView) -> Seq<u32> {
    Seq::new(
        w.framebuffer.len(),
        |k: int|
            if on_terminal_line(w.bounds, w.content_bounds, k) {
                terminal_fg()
            } else {
                terminal_bg()
            },
    )
}

/// The state after the sample terminal is opened.
pub open spec fn terminal_opened(s: WmState) -> WmState {
    with_sample(s, "Terminal"@, terminal_rect())
}

/// Whether the opened terminal can be painted within `u32`.
pub open spec fn terminal_paint_fits(s: WmState) -> bool {
    match window_of(terminal_opened(s), s.next_id) {
        Some(w) => terminal_fits(w.bounds, w.content_bounds),
        None => true,
    }
}

/// The state after the sample terminal is opened and painted.
pub open spec fn terminal_painted(s: WmState) -> WmState {
    let t = terminal_opened(s);
    match window_of(t, s.next_id) {
        Some(w) => repainted(t, s.next_id, terminal_pixels(w)),
        None => t,
    }
}

/// The state after the insights window is opened too.
pub open spec fn samples_opened(s: WmState) -> WmState {
    with_sample(terminal_painted(s), "AI Insights"@, insights_rect())
}

/// The manager's invariant, over its abstract state.
pub open spec fn state_wf(s: WmState) -> bool {
    let ws = s.windows;
    &&& 1 <= s.next_id
    &&& ws.len() <= s.next_id
    &&& forall|i: int, j: int|
        0 <= i < ws.len() && 0 <= j < ws.len() && i != j ==> #[trigger] ws[i].id
            != #[trigger] ws[j].id
    &&& forall|i: int| 0 <= i < ws.len() ==> #[trigger] ws[i].id < s.next_id
    &&& forall|i: int| 0 <= i < ws.len() ==> #[trigger] ws[i].z_order < s.next_z
    &&& forall|i: int, j: int|
        0 <= i < ws.len() && 0 <= j < ws.len() && i != j && #[trigger] ws[i].focused
            ==> !#[trigger] ws[j].focused
}

/// Repainting a window keeps the invariant.
proof fn lemma_repainted_wf(s: WmState, id: WindowId, fb: Seq<u32>)
    requires
        state_wf(s),
    ensures
        state_wf(repainted(s, id, fb)),
{
    let r = repainted(s, id, fb);
    lemma_find_first_spec(ids_of(s.windows), id);
    assert forall|j: int| 0 <= j < r.windows.len() implies {
        &&& #[trigger] r.windows[j].id == s.windows[j].id
        &&& r.windows[j].z_order == s.windows[j].z_order
        &&& r.windows[j].focused == s.windows[j].focused
    } by {}
    assert forall|i: int, j: int|
        0 <= i < r.windows.len() && 0 <= j < r.windows.len() && i != j implies #[trigger] r.windows[i].id
        != #[trigger] r.windows[j].id by {
        assert(s.windows[i].id != s.windows[j].id);
    }
    assert forall|i: int, j: int|
        0 <= i < r.windows.len() && 0 <= j < r.windows.len() && i != j && #[trigger] r.windows[i].focused
        implies !#[trigger] r.windows[j].focused by {
        assert(s.windows[i].focused);
    }
}

/// A window specification for a sample window.
fn sample_spec(title: &str, bounds: Rect) -> (sp: WindowSpec)
    ensures
        sp.title@ == title@,
        sp.bounds == bounds,
        sp.resizable && sp.movable && sp.closable,
        sp.decoration == sample_decoration(),
{
    WindowSpec {
        title: String::from_str(title),
        bounds,
        resizable: true,
        movable: true,
        closable: true,
        decoration: WindowDecoration::default(),
    }
}

/// Open a sample window; `EINVAL`, with nothing changed, when it does not fit.
fn open_sample(wm: &mut WindowManager, title: &str, bounds: Rect) -> (r: Result<WindowId, Errno>)
    requires
        old(wm).wf(),
    ensures
        final(wm).wf(),
        !sample_fits(state_of(*old(wm)), title@, bounds) ==> r == Err::<WindowId, Errno>(
            Errno::EINVAL,
        ) && state_of(*final(wm)) == state_of(*old(wm)),
        sample_fits(state_of(*old(wm)), title@, bounds) ==> r == Ok::<WindowId, Errno>(
            state_of(*old(wm)).next_id,
        ) && state_of(*final(wm)) == with_sample(state_of(*old(wm)), title@, bounds),
{
    let sp = sample_spec(title, bounds);
    proof {
        let s = state_of(*wm);
        assert(fresh_window(s.next_id, sp, s.screen, s.next_z) == sample_window(
            s.next_id,
            title@,
            s.screen,
            s.next_z,
        ));
        let b = layout_bounds(s.layout, bounds, s.screen);
        assert(fresh_window(s.next_id, sp, b, s.next_z) == sample_window(
            s.next_id,
            title@,
            b,
            s.next_z,
        ));
    }
    if !wm.can_create_window(&sp) {
        return Err(Errno::EINVAL);
    }
    let id = wm.create_window(sp);
    proof {
        assert(state_of(*wm) =~= with_sample(state_of(*old(wm)), title@, bounds));
    }
    Ok(id)
}

/// Open the sample terminal and paint it, then open the sample insights
/// window; their ids.
///
/// `EINVAL` when a window does not fit or the terminal cannot be painted
/// within `u32`; the manager then keeps what was done before the failing step.
pub fn open_sample_windows(wm: &mut WindowManager) -> (r: Result<(WindowId, WindowId), Errno>)
    requires
        old(wm).wf(),
    ensures
        final(wm).wf(),
        ({
            let s = state_of(*old(wm));
            let f = state_of(*final(wm));
            if !sample_fits(s, "Terminal"@, terminal_rect()) {
                r == Err::<(WindowId, WindowId), Errno>(Errno::EINVAL) && f == s
            } else if !terminal_paint_fits(s) {
                r == Err::<(WindowId, WindowId), Errno>(Errno::EINVAL) && f == terminal_opened(s)
            } else if !sample_fits(terminal_painted(s), "AI Insights"@, insights_rect()) {
                r == Err::<(WindowId, WindowId), Errno>(Errno::EINVAL) && f == terminal_painted(s)
            } else {
                r == Ok::<(WindowId, WindowId), Errno>((s.next_id, (s.next_id + 1) as u32))
                    && f == samples_opened(s)
            }
        }),
{
    let ghost s0 = state_of(*wm);
    let terminal = match open_sample(wm, "Terminal", Rect::new(50, 50, 400, 300)) {
        Ok(id) => id,
        Err(e) => {
            return Err(e);
        },
    };
    let ghost s1 = state_of(*wm);
    assert(s1 == terminal_opened(s0));
    let fits = match wm.get_window(terminal) {
        Some(w) => w.terminal_sample_fits(),
        None => true,
    };
    if !fits {
        return Err(Errno::EINVAL);
    }
    match wm.get_window_mut(terminal) {
        Some(w) => {
            let ghost w0 = *w;
            w.fill_terminal_sample();
            proof {
                assert(w.framebuffer@ =~= terminal_pixels(w0@));
                assert((*w)@ == WindowView { framebuffer: terminal_pixels(w0@), ..w0@ });
            }
        },
        None => {},
    }
    proof {
        assert(state_of(*wm) =~= terminal_painted(s0));
        lemma_repainted_wf(s1, s0.next_id, terminal_pixels(window_of(s1, s0.next_id)->Some_0));
    }
    let insights = match open_sample(wm, "AI Insights", Rect::new(500, 100, 350, 250)) {
        Ok(id) => id,
        Err(e) => {
            return Err(e);
        },
    };
    Ok((terminal, insights))
}

/// The framebuffer of `w` with row `y` of its bounds painted in the
/// gradient color of `levels[y]`; pixels past the bounds' area keep theirs.
pub open spec fn gradient_pixels(w: WindowView, levels: Seq<u8>) -> Seq<u32> {
    Seq::new(
        w.framebuffer.len(),
        |k: int|
            if k < w.bounds.height * w.bounds.width {
                gradient_pixel(levels[k / (w.bounds.width as int)])
            } else {
                w.framebuffer[k]
            },
    )
}

/// Whether the gradient of window `id` can be painted within `u32`.
pub open spec fn gradient_fits(s: WmState, id: WindowId) -> bool {
    match window_of(s, id) {
        Some(w) => w.bounds.height * w.bounds.width <= 0x1_0000_0000,
        None => true,
    }
}

/// The state after window `id` is painted with the gradient `levels`.
pub open spec fn gradient_painted(s: WmState, id: WindowId, levels: Seq<u8>) -> WmState {
    match window_of(s, id) {
        Some(w) => repainted(s, id, gradient_pixels(w, levels)),
        None => s,
    }
}

/// The background of the sample file window.
pub open spec fn files_bg() -> Color {
    Color { r: 50, g: 50, b: 55, a: 255 }
}

/// The state after the sample file window is opened and cleared.
pub open spec fn files_painted(s: WmState) -> WmState {
    let o = with_sample(s, "Files"@, files_rect());
    match window_of(o, s.next_id) {
        Some(w) => repainted(
            o,
            s.next_id,
            Seq::new(w.framebuffer.len(), |k: int| argb_of(files_bg())),
        ),
        None => o,
    }
}

/// The state after switching to the floating layout (nothing moves).
pub open spec fn floated(s: WmState) -> WmState {
    WmState { layout: LayoutMode::Floating, ..s }
}

/// The row and column of pixel `k` in rows `w` wide.
proof fn lemma_row_col(k: int, w: int, h: int)
    requires
        0 <= k < h * w,
        0 <= w,
        0 <= h,
    ensures
        w > 0,
        0 <= k / w < h,
        0 <= k % w < w,
        (k / w) * w + k % w == k,
{
    if w == 0 {
        assert(h * w == 0) by (nonlinear_arith)
            requires
                w == 0,
        ;
    }
    vstd::arithmetic::div_mod::lemma_fundamental_div_mod(k, w);
    vstd::arithmetic::div_mod::lemma_mod_pos_bound(k, w);
    assert(w * (k / w) == (k / w) * w) by (nonlinear_arith);
    if k / w >= h {
        vstd::arithmetic::mul::lemma_mul_inequality(h, k / w, w);
    }
    if k / w < 0 {
        assert((k / w) * w <= -w) by (nonlinear_arith)
            requires
                k / w < 0,
                w > 0,
        ;
    }
}

/// Paint window `id` with the gradient `levels`; `EINVAL`, with nothing
/// changed, when its offsets would pass `u32`.
fn paint_gradient(wm: &mut WindowManager, id: WindowId, levels: &[u8]) -> (r: Result<(), Errno>)
    requires
        old(wm).wf(),
        window_of(state_of(*old(wm)), id) matches Some(w) ==> levels@.len() == w.bounds.height,
    ensures
        final(wm).wf(),
        !gradient_fits(state_of(*old(wm)), id) ==> r == Err::<(), Errno>(Errno::EINVAL)
            && state_of(*final(wm)) == state_of(*old(wm)),
        gradient_fits(state_of(*old(wm)), id) ==> r == Ok::<(), Errno>(()) && state_of(*final(wm))
            == gradient_painted(state_of(*old(wm)), id, levels@),
{
    let ghost s0 = state_of(*wm);
    let fits = match wm.get_window(id) {
        Some(w) => {
            let h = w.bounds.height as u64;
            let wd = w.bounds.width as u64;
            assert(h * wd <= 0xffff_ffff * 0xffff_ffff) by (nonlinear_arith)
                requires
                    h <= 0xffff_ffff,
                    wd <= 0xffff_ffff,
            ;
            h * wd <= 0x1_0000_0000
        },
        None => true,
    };
    if !fits {
        return Err(Errno::EINVAL);
    }
    match wm.get_window_mut(id) {
        Some(w) => {
            let ghost w0 = *w;
            w.fill_gradient(levels);
            proof {
                let bw = w0.bounds.width as int;
                let bh = w0.bounds.height as int;
                assert forall|k: int| 0 <= k < w.framebuffer@.len() implies #[trigger] w.framebuffer@[k]
                    == gradient_pixels(w0@, levels@)[k] by {
                    if k < bh * bw {
                        lemma_row_col(k, bw, bh);
                        let y = k / bw;
                        let x = k % bw;
                        assert(w.framebuffer@[y * bw + x] == gradient_pixel(levels@[y]));
                    }
                }
                assert(w.framebuffer@ =~= gradient_pixels(w0@, levels@));
                assert((*w)@ == WindowView { framebuffer: gradient_pixels(w0@, levels@), ..w0@ });
            }
        },
        None => {},
    }
    proof {
        assert(state_of(*wm) =~= gradient_painted(s0, id, levels@));
        lemma_repainted_wf(s0, id, gradient_pixels(window_of(s0, id)->Some_0, levels@));
    }
    Ok(())
}

/// Open the sample file window and clear it; `EINVAL`, with nothing
/// changed, when it does not fit.
fn open_files(wm: &mut WindowManager) -> (r: Result<(), Errno>)
    requires
        old(wm).wf(),
    ensures
        final(wm).wf(),
        !sample_fits(state_of(*old(wm)), "Files"@, files_rect()) ==> r == Err::<(), Errno>(
            Errno::EINVAL,
        ) && state_of(*final(wm)) == state_of(*old(wm)),
        sample_fits(state_of(*old(wm)), "Files"@, files_rect()) ==> r == Ok::<(), Errno>(())
            && state_of(*final(wm)) == files_painted(state_of(*old(wm))),
{
    let ghost g = state_of(*wm);
    let files = match open_sample(wm, "Files", Rect::new(200, 400, 380, 200)) {
        Ok(id) => id,
        Err(e) => {
            return Err(e);
        },
    };
    let ghost o = state_of(*wm);
    match wm.get_window_mut(files) {
        Some(w) => {
            let ghost w0 = *w;
            w.clear(Color::from_rgb(50, 50, 55));
            proof {
                assert((*w)@ == WindowView {
                    framebuffer: Seq::new(w0.framebuffer@.len(), |k: int| argb_of(files_bg())),
                    ..w0@
                });
            }
        },
        None => {},
    }
    proof {
        assert(state_of(*wm) =~= files_painted(g));
        lemma_repainted_wf(
            o,
            g.next_id,
            Seq::new(window_of(o, g.next_id)->Some_0.framebuffer.len(), |k: int| argb_of(files_bg())),
        );
    }
    Ok(())
}

/// Paint the insights window with the gradient `levels` (one level per row
/// of its bounds), open and clear the sample file window, switch to the
/// floating layout, and draw the screen.
///
/// `EINVAL` when the gradient's offsets would pass `u32`, the file window
/// does not fit, or a visible window cannot be drawn within `u32`; the
/// manager then keeps what was done before the failing step.
pub fn paint_and_float(wm: &mut WindowManager, insights: WindowId, levels: &[u8]) -> (r: Result<
    Vec<DrawCommand>,
    Errno,
>)
    requires
        old(wm).wf(),
        window_of(state_of(*old(wm)), insights) matches Some(w) ==> levels@.len()
            == w.bounds.height,
    ensures
        final(wm).wf(),
        r matches Err(e) ==> e == Errno::EINVAL,
        ({
            let s = state_of(*old(wm));
            let g = gradient_painted(s, insights, levels@);
            let p = floated(files_painted(g));
            let f = state_of(*final(wm));
            if !gradient_fits(s, insights) {
                r is Err && f == s
            } else if !sample_fits(g, "Files"@, files_rect()) {
                r is Err && f == g
            } else {
                &&& f == p
                &&& r is Ok <==> all_draw_fit(p.windows)
                &&& r matches Ok(cmds) ==> is_frame_of(cmds@, p.windows)
            }
        }),
{
    if let Err(e) = paint_gradient(wm, insights, levels) {
        return Err(e);
    }
    if let Err(e) = open_files(wm) {
        return Err(e);
    }
    let ghost q = state_of(*wm);
    wm.set_layout_mode(LayoutMode::Floating);
    proof {
        assert(state_of(*wm) =~= floated(q));
    }
    if !wm.can_draw() {
        return Err(Errno::EINVAL);
    }
    Ok(wm.draw())
}

/// The close button of `w`.
pub open spec fn close_rect(w: WindowView) -> Rect {
    button_rect(w.bounds, w.decoration, close_x(w.bounds, w.decoration))
}

/// Whether the close button of `w` and its centre can be computed within `u32`.
pub open spec fn close_point_fits(w: WindowView) -> bool {
    &&& buttons_fit(w.bounds, w.decoration, close_x(w.bounds, w.decoration))
    &&& close_rect(w).x + close_rect(w).width / 2 <= u32::MAX
    &&& close_rect(w).y + close_rect(w).height / 2 <= u32::MAX
}

/// The horizontal centre of the close button of `w`.
pub open spec fn close_px(w: WindowView) -> u32 {
    (close_rect(w).x + close_rect(w).width / 2) as u32
}

/// The vertical centre of the close button of `w`.
pub open spec fn close_py(w: WindowView) -> u32 {
    (close_rect(w).y + close_rect(w).height / 2) as u32
}

/// Whether `handle_click(x, y)` stays within its limits.
pub open spec fn click_ok(s: WmState, x: u32, y: u32) -> bool {
    &&& s.next_z < u32::MAX
    &&& topmost(s.windows, x as int, y as int) matches Some(t) ==> click_fits(
        s.windows[find_window(s.windows, t.0)->Some_0],
    )
}

/// What `handle_click(x, y)` returns.
pub open spec fn click_result(s: WmState, x: u32, y: u32) -> Option<WindowAction> {
    match topmost(s.windows, x as int, y as int) {
        Some(t) => Some(
            click_action(s.windows[find_window(s.windows, t.0)->Some_0], x as int, y as int),
        ),
        None => None,
    }
}

/// The state after `handle_click(x, y)`: a button leaves everything as it
/// was; a drag, a resize or a plain click focuses the window, and a drag or
/// a resize is recorded.
pub open spec fn clicked(s: WmState, x: u32, y: u32) -> WmState {
    match topmost(s.windows, x as int, y as int) {
        None => s,
        Some(t) => {
            let w = s.windows[find_window(s.windows, t.0)->Some_0];
            let a = click_action(w, x as int, y as int);
            match a {
                WindowAction::Close(_) | WindowAction::Minimize(_) | WindowAction::Maximize(_) => s,
                _ => WmState {
                    windows: focus_apply(s.windows, w.id, s.next_z),
                    focused: Some(w.id),
                    next_z: (s.next_z + 1) as u32,
                    drag: if a is StartDrag {
                        Some(
                            DragState {
                                window_id: w.id,
                                start_x: x,
                                start_y: y,
                                window_start_x: w.bounds.x,
                                window_start_y: w.bounds.y,
                            },
                        )
                    } else {
                        s.drag
                    },
                    resize: match a {
                        WindowAction::StartResize(_, e) => Some(
                            ResizeState {
                                window_id: w.id,
                                edge: e,
                                start_x: x,
                                start_y: y,
                                start_bounds: w.bounds,
                            },
                        ),
                        _ => s.resize,
                    },
                    ..s
                },
            }
        },
    }
}

/// The state after `destroy_window(id)`: the window is gone, the focus
/// moves on if it had it, and a tiling layout is redone.
pub open spec fn destroyed(s: WmState, id: WindowId) -> WmState {
    match find_window(s.windows, id) {
        None => s,
        Some(i) => {
            let ws1 = s.windows.remove(i);
            let refocus = s.focused == Some(id);
            let t = next_focus(shown_ids(ws1), Some(id));
            let ws2 = if refocus {
                focus_opt(ws1, t, s.next_z)
            } else {
                ws1
            };
            WmState {
                windows: relayout_if_tiling(ws2, s.layout, s.screen),
                focused: if refocus {
                    t
                } else {
                    s.focused
                },
                next_z: if refocus {
                    z_after_focus(ws1, t, s.next_z) as u32
                } else {
                    s.next_z
                },
                ..s
            }
        },
    }
}

/// What clicking the centre of the close button of window `id` leads to:
/// the window closed, if any, and the state afterwards; `None` when the
/// button or the click cannot be computed within `u32`. Nothing happens when
/// there is no such window.
pub open spec fn close_outcome(s: WmState, id: WindowId) -> Option<(Option<WindowId>, WmState)> {
    match window_of(s, id) {
        None => Some((None, s)),
        Some(w) => if !close_point_fits(w) || !click_ok(s, close_px(w), close_py(w)) {
            None
        } else {
            let x = close_px(w);
            let y = close_py(w);
            let c = clicked(s, x, y);
            match click_result(s, x, y) {
                Some(WindowAction::Close(cid)) => Some((Some(cid), destroyed(c, cid))),
                _ => Some((None, c)),
            }
        },
    }
}

/// Click the centre of the close button of window `id`; when the click asks
/// to close a window, close it. Then draw the screen. Returns the window
/// closed, if any, and the drawing.
///
/// The layout must not be tiling (the self-test switched to floating).
/// `EINVAL`, with nothing changed, when the button or the click cannot be
/// computed within `u32`; `EINVAL` after the click when a visible window
/// cannot be drawn within `u32`.
pub fn close_by_button(wm: &mut WindowManager, id: WindowId) -> (r: Result<
    (Option<WindowId>, Vec<DrawCommand>),
    Errno,
>)
    requires
        old(wm).wf(),
        old(wm).layout_view() != LayoutMode::Tiling,
    ensures
        final(wm).wf(),
        r matches Err(e) ==> e == Errno::EINVAL,
        match close_outcome(state_of(*old(wm)), id) {
            None => r is Err && state_of(*final(wm)) == state_of(*old(wm)),
            Some((closed, after)) => {
                &&& state_of(*final(wm)) == after
                &&& r is Ok <==> all_draw_fit(after.windows)
                &&& r matches Ok((k, cmds)) ==> k == closed && is_frame_of(cmds@, after.windows)
            },
        },
{
    let ghost s = state_of(*wm);
    let point = match wm.get_window(id) {
        Some(w) => {
            if !w.close_button_fits() {
                return Err(Errno::EINVAL);
            }
            let cr = w.close_button_rect();
            if cr.x as u64 + (cr.width / 2) as u64 > 0xffff_ffff || cr.y as u64 + (cr.height / 2) as u64
                > 0xffff_ffff {
                return Err(Errno::EINVAL);
            }
            Some((cr.x + cr.width / 2, cr.y + cr.height / 2))
        },
        None => None,
    };
    let mut closed: Option<WindowId> = None;
    if let Some((x, y)) = point {
        if !wm.has_stacking_room() || !wm.can_click(x, y) {
            return Err(Errno::EINVAL);
        }
        let action = wm.handle_click(x, y);
        proof {
            assert(state_of(*wm) =~= clicked(s, x, y));
        }
        if let Some(WindowAction::Close(cid)) = action {
            let ghost c = state_of(*wm);
            proof {
                let t = topmost(s.windows, x as int, y as int)->Some_0;
                let i = find_window(s.windows, t.0)->Some_0;
                lemma_topmost_in(s.windows, x as int, y as int);
                let k = choose|k: int| 0 <= k < s.windows.len() && s.windows[k].id == t.0;
                assert(ids_of(s.windows)[k] == t.0);
                lemma_find_first_spec(ids_of(s.windows), t.0);
                assert(ids_of(s.windows)[i] == t.0);
                assert(s.windows[i].id == t.0);
                assert(cid == t.0);
                assert(c.windows == s.windows);
                assert(find_window(c.windows, cid) == Some(i));
            }
            match wm.destroy_window(cid) {
                Ok(()) => {},
                Err(e) => {
                    return Err(e);
                },
            }
            proof {
                assert(state_of(*wm) =~= destroyed(c, cid));
            }
            closed = Some(cid);
        }
    }
    if !wm.can_draw() {
        return Err(Errno::EINVAL);
    }
    Ok((closed, wm.draw()))
}

} // verus!
