//! Drawing a window: the list of drawing commands for its content and decorations.
use vstd::prelude::*;
use vstd::string::*;
use crate::graphics::{Rect, Color};
use crate::window::{Window, WindowView, WindowId, button_rect, close_x, minimize_x, maximize_x, buttons_fit, title_rect};

verus! {

/// A drawing command for the screen.
pub enum DrawCommand {
    /// Copy the framebuffer of window `window_id` (`dest.width * dest.height`
    /// pixels, row by row) to the screen with its top-left corner at `dest`.
    Blit { window_id: WindowId, dest: Rect },
    /// Fill a rectangle.
    FillRect { rect: Rect, color: Color },
    /// Draw text with its top-left corner at `(x, y)`.
    Text { x: u32, y: u32, text: String, color: Color },
    /// Draw the outline of a rectangle, `thickness` pixels wide.
    Outline { rect: Rect, color: Color, thickness: u32 },
}

/// The abstract value of a drawing command (text by its characters).
pub enum DrawOp {
    Blit { window_id: WindowId, dest: Rect },
    FillRect { rect: Rect, color: Color },
    Text { x: u32, y: u32, text: Seq<char>, color: Color },
    Outline { rect: Rect, color: Color, thickness: u32 },
}

impl View for DrawCommand {
    type V = DrawOp;

    open spec fn view(&self) -> DrawOp {
        match self {
            DrawCommand::Blit { window_id, dest } => DrawOp::Blit {
                window_id: *window_id,
                dest: *dest,
            },
            DrawCommand::FillRect { rect, color } => DrawOp::FillRect { rect: *rect, color: *color },
            DrawCommand::Text { x, y, text, color } => DrawOp::Text {
                x: *x,
                y: *y,
                text: text@,
                color: *color,
            },
            DrawCommand::Outline { rect, color, thickness } => DrawOp::Outline {
                rect: *rect,
                color: *color,
                thickness: *thickness,
            },
        }
    }
}

/// The abstract values of a list of drawing commands.
pub open spec fn ops_of(cs: Seq<DrawCommand>) -> Seq<DrawOp> {
    cs.map_values(|c: DrawCommand| c@)
}

/// Opaque color from red, green, blue.
pub open spec fn rgb(r: u8, g: u8, b: u8) -> Color {
    Color { r, g, b, a: 255 }
}

/// The accent color of focused decorations.
pub open spec fn accent() -> Color {
    Color { r: 0, g: 122, b: 204, a: 255 }
}

/// Opaque white.
pub open spec fn white() -> Color {
    Color { r: 255, g: 255, b: 255, a: 255 }
}

/// Whether every coordinate of a window's decorations stays within `u32`.
pub open spec fn draw_fits(w: WindowView) -> bool {
    let b = w.bounds;
    let d = w.decoration;
    let size = d.title_bar_height - 8;
    d.show_title_bar ==> {
        &&& b.x + 10 <= u32::MAX
        &&& b.y + 8 <= u32::MAX
        &&& d.show_close_button ==> {
            &&& buttons_fit(b, d, close_x(b, d))
            &&& close_x(b, d) + size / 2 >= 4
            &&& b.y + 4 + size / 2 >= 8
            &&& close_x(b, d) + size / 2 <= u32::MAX
            &&& b.y + 4 + size / 2 <= u32::MAX
        }
        &&& d.show_minimize_button ==> {
            &&& buttons_fit(b, d, close_x(b, d))
            &&& minimize_x(b, d) >= 0
            &&& b.y + 4 + size <= u32::MAX
            &&& b.y + 4 + size >= 4
            &&& minimize_x(b, d) + 4 <= u32::MAX
            &&& size >= 8
        }
        &&& d.show_maximize_button ==> {
            &&& buttons_fit(b, d, close_x(b, d))
            &&& minimize_x(b, d) >= 0
            &&& maximize_x(b, d) >= 0
            &&& maximize_x(b, d) + 4 <= u32::MAX
            &&& b.y + 8 <= u32::MAX
            &&& size >= 8
        }
    }
}

/// Commands for the close button: a red square with an "X".
pub open spec fn close_ops(w: WindowView) -> Seq<DrawOp> {
    let c = button_rect(w.bounds, w.decoration, close_x(w.bounds, w.decoration));
    if w.decoration.show_close_button {
        seq![
            DrawOp::FillRect { rect: c, color: rgb(200, 0, 0) },
            DrawOp::Text {
                x: (c.x + c.width / 2 - 4) as u32,
                y: (c.y + c.height / 2 - 8) as u32,
                text: seq!['X'],
                color: white(),
            },
        ]
    } else {
        Seq::empty()
    }
}

/// Commands for the minimize button: a grey square with a line at the bottom.
pub open spec fn min_ops(w: WindowView) -> Seq<DrawOp> {
    let m = button_rect(w.bounds, w.decoration, minimize_x(w.bounds, w.decoration));
    if w.decoration.show_minimize_button {
        seq![
            DrawOp::FillRect { rect: m, color: rgb(100, 100, 100) },
            DrawOp::FillRect {
                rect: Rect {
                    x: (m.x + 4) as u32,
                    y: (m.y + m.height - 4) as u32,
                    width: (m.width - 8) as u32,
                    height: 2,
                },
                color: white(),
            },
        ]
    } else {
        Seq::empty()
    }
}

/// Commands for the maximize button: a grey square with an outlined square.
pub open spec fn max_ops(w: WindowView) -> Seq<DrawOp> {
    let x = button_rect(w.bounds, w.decoration, maximize_x(w.bounds, w.decoration));
    if w.decoration.show_maximize_button {
        seq![
            DrawOp::FillRect { rect: x, color: rgb(100, 100, 100) },
            DrawOp::Outline {
                rect: Rect {
                    x: (x.x + 4) as u32,
                    y: (x.y + 4) as u32,
                    width: (x.width - 8) as u32,
                    height: (x.height - 8) as u32,
                },
                color: white(),
                thickness: 2,
            },
        ]
    } else {
        Seq::empty()
    }
}

/// Commands for the title bar: the bar (accent when focused), the title,
/// then the shown buttons; nothing without a title bar.
pub open spec fn title_ops(w: WindowView) -> Seq<DrawOp> {
    let b = w.bounds;
    let d = w.decoration;
    if d.show_title_bar {
        seq![
            DrawOp::FillRect {
                rect: title_rect(b, d),
                color: if w.focused {
                    accent()
                } else {
                    rgb(80, 80, 80)
                },
            },
            DrawOp::Text { x: (b.x + 10) as u32, y: (b.y + 8) as u32, text: w.title, color: white() },
        ] + close_ops(w) + min_ops(w) + max_ops(w)
    } else {
        Seq::empty()
    }
}

/// Commands for the border (accent when focused); nothing when it has no width.
pub open spec fn border_ops(w: WindowView) -> Seq<DrawOp> {
    if w.decoration.border_width > 0 {
        seq![
            DrawOp::Outline {
                rect: w.bounds,
                color: if w.focused {
                    accent()
                } else {
                    Color { r: 70, g: 70, b: 80, a: 255 }
                },
                thickness: w.decoration.border_width,
            },
        ]
    } else {
        Seq::empty()
    }
}

/// The commands drawing a window: its content, then its title bar, then its border.
pub open spec fn window_ops(w: WindowView) -> Seq<DrawOp> {
    seq![DrawOp::Blit { window_id: w.id, dest: w.bounds }] + title_ops(w) + border_ops(w)
}

/// Append one command to a list.
fn push_cmd(out: &mut Vec<DrawCommand>, c: DrawCommand)
    ensures
        ops_of(final(out)@) == ops_of(old(out)@).push(c@),
{
    let ghost before = out@;
    out.push(c);
    assert(ops_of(out@) =~= ops_of(before).push(c@));
}

/// The command copying a window's content to the screen.
pub fn blit_window_content(window: &Window) -> (c: DrawCommand)
    ensures
        c@ == (DrawOp::Blit { window_id: window.id, dest: window.bounds }),
{
    DrawCommand::Blit { window_id: window.id, dest: window.bounds }
}

/// Append `more` to `out`.
fn append_cmds(out: &mut Vec<DrawCommand>, more: Vec<DrawCommand>)
    ensures
        ops_of(final(out)@) == ops_of(old(out)@) + ops_of(more@),
{
    let ghost before = out@;
    let ghost added = more@;
    let mut more = more;
    out.append(&mut more);
    assert(ops_of(out@) =~= ops_of(before) + ops_of(added));
}

/// The close button's commands.
fn draw_close_button(window: &Window) -> (cmds: Vec<DrawCommand>)
    requires
        draw_fits(window@),
        window.decoration.show_title_bar,
    ensures
        ops_of(cmds@) == close_ops(window@),
{
    let mut out: Vec<DrawCommand> = Vec::new();
    if window.decoration.show_close_button {
        let close_rect = window.close_button_rect();
        push_cmd(&mut out, DrawCommand::FillRect { rect: close_rect, color: Color::from_rgb(200, 0, 0) });
        let x_x = close_rect.x + close_rect.width / 2 - 4;
        let x_y = close_rect.y + close_rect.height / 2 - 8;
        let label = String::from_str("X");
        proof {
            reveal_strlit("X");
        }
        assert(label@ =~= seq!['X']);
        push_cmd(&mut out, DrawCommand::Text { x: x_x, y: x_y, text: label, color: Color::white() });
    }
    assert(ops_of(out@) =~= close_ops(window@));
    out
}

/// The minimize button's commands.
fn draw_minimize_button(window: &Window) -> (cmds: Vec<DrawCommand>)
    requires
        draw_fits(window@),
        window.decoration.show_title_bar,
    ensures
        ops_of(cmds@) == min_ops(window@),
{
    let mut out: Vec<DrawCommand> = Vec::new();
    if window.decoration.show_minimize_button {
        let min_rect = window.minimize_button_rect();
        push_cmd(&mut out, DrawCommand::FillRect { rect: min_rect, color: Color::from_rgb(100, 100, 100) });
        let line_y = min_rect.y + min_rect.height - 4;
        push_cmd(
            &mut out,
            DrawCommand::FillRect {
                rect: Rect::new(min_rect.x + 4, line_y, min_rect.width - 8, 2),
                color: Color::white(),
            },
        );
    }
    assert(ops_of(out@) =~= min_ops(window@));
    out
}

/// The maximize button's commands.
fn draw_maximize_button(window: &Window) -> (cmds: Vec<DrawCommand>)
    requires
        draw_fits(window@),
        window.decoration.show_title_bar,
    ensures
        ops_of(cmds@) == max_ops(window@),
{
    let mut out: Vec<DrawCommand> = Vec::new();
    if window.decoration.show_maximize_button {
        let max_rect = window.maximize_button_rect();
        push_cmd(&mut out, DrawCommand::FillRect { rect: max_rect, color: Color::from_rgb(100, 100, 100) });
        push_cmd(
            &mut out,
            DrawCommand::Outline {
                rect: Rect::new(max_rect.x + 4, max_rect.y + 4, max_rect.width - 8, max_rect.height - 8),
                color: Color::white(),
                thickness: 2,
            },
        );
    }
    assert(ops_of(out@) =~= max_ops(window@));
    out
}

/// The title bar's commands.
fn draw_title_bar(window: &Window) -> (cmds: Vec<DrawCommand>)
    requires
        draw_fits(window@),
    ensures
        ops_of(cmds@) == title_ops(window@),
{
    let mut out: Vec<DrawCommand> = Vec::new();
    if window.decoration.show_title_bar {
        let title_bar_color = if window.focused {
            Color::ui_accent()
        } else {
            Color::from_rgb(80, 80, 80)
        };
        push_cmd(&mut out, DrawCommand::FillRect { rect: window.title_bar_rect(), color: title_bar_color });
        let title_x = window.bounds.x + 10;
        let title_y = window.bounds.y + 8;
        push_cmd(
            &mut out,
            DrawCommand::Text { x: title_x, y: title_y, text: window.title.clone(), color: Color::white() },
        );
        append_cmds(&mut out, draw_close_button(window));
        append_cmds(&mut out, draw_minimize_button(window));
        append_cmds(&mut out, draw_maximize_button(window));
    }
    assert(ops_of(out@) =~= title_ops(window@));
    out
}

/// The commands drawing one window.
pub fn draw_window(window: &Window) -> (cmds: Vec<DrawCommand>)
    requires
        draw_fits(window@),
    ensures
        ops_of(cmds@) == window_ops(window@),
{
    let mut out: Vec<DrawCommand> = Vec::new();
    push_cmd(&mut out, blit_window_content(window));
    append_cmds(&mut out, draw_title_bar(window));
    if window.decoration.border_width > 0 {
        let border_color = if window.focused {
            Color::ui_accent()
        } else {
            Color::ui_border()
        };
        push_cmd(
            &mut out,
            DrawCommand::Outline { rect: window.bounds, color: border_color, thickness: window.decoration.border_width },
        );
    }
    assert(ops_of(out@) =~= window_ops(window@));
    out
}

} // verus!
