use sis_kernel::graphics::{Color, Rect};
use sis_kernel::window::{ResizeEdge, Window, WindowDecoration, WindowSpec};
use sis_kernel::window_manager::{LayoutMode, WindowAction, WindowManager};

fn spec(title: &str, x: u32, y: u32, w: u32, h: u32) -> WindowSpec {
    WindowSpec {
        title: title.to_string(),
        bounds: Rect::new(x, y, w, h),
        resizable: true,
        movable: true,
        closable: true,
        decoration: WindowDecoration::default(),
    }
}

#[test]
fn tiling_splits_screen_into_strips() {
    let mut wm = WindowManager::new(1024, 768);
    let a = wm.create_window(spec("A", 0, 0, 300, 200));
    let b = wm.create_window(spec("B", 0, 0, 300, 200));
    assert_eq!(wm.window_count(), 2);
    assert_eq!(wm.window_ids(), vec![a, b]);
    let wa = wm.get_window(a).unwrap();
    let wb = wm.get_window(b).unwrap();
    assert_eq!(wa.bounds, Rect::new(0, 0, 1024, 384));
    assert_eq!(wb.bounds, Rect::new(0, 384, 1024, 384));
    assert_eq!(wb.framebuffer.len(), 1024 * 384);
}

#[test]
fn close_button_click_closes() {
    let mut wm = WindowManager::new(1024, 768);
    wm.set_layout_mode(LayoutMode::Floating);
    let a = wm.create_window(spec("Terminal", 50, 50, 400, 300));
    let _b = wm.create_window(spec("Files", 500, 400, 300, 200));
    let r = wm.get_window(a).unwrap().close_button_rect();
    let action = wm.handle_click(r.x + r.width / 2, r.y + r.height / 2);
    assert!(matches!(action, Some(WindowAction::Close(id)) if id == a));
    assert!(wm.destroy_window(a).is_ok());
    assert_eq!(wm.window_count(), 1);
    assert!(wm.destroy_window(a).is_err());
}

#[test]
fn focus_cycles_through_windows() {
    let mut wm = WindowManager::new(800, 600);
    wm.set_layout_mode(LayoutMode::Floating);
    let a = wm.create_window(spec("A", 10, 10, 200, 150));
    let b = wm.create_window(spec("B", 300, 10, 200, 150));
    assert!(wm.get_window(b).unwrap().focused);
    wm.focus_next();
    assert!(wm.get_window(a).unwrap().focused);
    wm.focus_prev();
    assert!(wm.get_window(b).unwrap().focused);
    assert!(!wm.get_window(a).unwrap().focused);
}

#[test]
fn title_bar_drag_moves_window() {
    let mut wm = WindowManager::new(1024, 768);
    wm.set_layout_mode(LayoutMode::Floating);
    let a = wm.create_window(spec("A", 100, 100, 300, 200));
    let action = wm.handle_click(150, 110);
    assert!(matches!(action, Some(WindowAction::StartDrag(id)) if id == a));
    wm.handle_drag(180, 140);
    wm.handle_release();
    let w = wm.get_window(a).unwrap();
    assert_eq!((w.bounds.x, w.bounds.y), (130, 130));
}

#[test]
fn window_geometry() {
    let w = Window::new(1, spec("W", 10, 20, 200, 100));
    assert_eq!(w.content_bounds, Rect::new(12, 52, 196, 66));
    assert!(w.is_in_title_bar(20, 25));
    assert!(!w.is_in_title_bar(20, 60));
    assert!(matches!(w.is_on_resize_border(10, 60), Some(ResizeEdge::Left)));
    assert!(w.is_on_resize_border(100, 60).is_none());
    let c = w.close_button_rect();
    assert_eq!(c.width, 22);
    assert_eq!(w.framebuffer.len(), 200 * 100);
    let mut w2 = w;
    w2.clear(Color::from_rgb(1, 2, 3));
    assert!(w2.framebuffer.iter().all(|p| *p == Color::from_rgb(1, 2, 3).to_argb()));
    w2.move_to(5, 6);
    assert_eq!((w2.bounds.x, w2.bounds.y), (5, 6));
    w2.resize(50, 50);
    assert_eq!((w2.bounds.width, w2.bounds.height), (100, 80));
}

#[test]
fn draw_lists_each_visible_window() {
    let mut wm = WindowManager::new(1024, 768);
    wm.set_layout_mode(LayoutMode::Floating);
    wm.create_window(spec("A", 100, 100, 300, 200));
    wm.create_window(spec("B", 200, 200, 300, 200));
    let cmds = wm.draw();
    assert!(!cmds.is_empty());
    wm.toggle_layout_mode();
    assert_eq!(wm.window_count(), 2);
}

#[test]
fn open_then_close_restores_window_ids() {
    let mut wm = WindowManager::new(1024, 768);
    let a = wm.create_window(spec("A", 0, 0, 300, 200));
    let b = wm.create_window(spec("B", 0, 0, 300, 200));
    let before = wm.window_ids();
    let c = wm.create_window(spec("C", 0, 0, 300, 200));
    assert_eq!(wm.window_ids(), vec![a, b, c]);
    wm.destroy_window(c).unwrap();
    assert_eq!(wm.window_ids(), before);
    // The strips are those of two windows again.
    assert_eq!(wm.get_window(b).unwrap().bounds, Rect::new(0, 384, 1024, 384));
}

#[test]
fn ids_are_never_reused_and_stay_in_creation_order() {
    let mut wm = WindowManager::new(1024, 768);
    let a = wm.create_window(spec("A", 0, 0, 300, 200));
    let b = wm.create_window(spec("B", 0, 0, 300, 200));
    let c = wm.create_window(spec("C", 0, 0, 300, 200));
    wm.destroy_window(b).unwrap();
    assert_eq!(wm.window_ids(), vec![a, c]);
    let d = wm.create_window(spec("D", 0, 0, 300, 200));
    assert!(d > c && d != b);
    assert_eq!(wm.window_ids(), vec![a, c, d]);
}

#[test]
fn setting_the_layout_twice_changes_nothing_more() {
    let mut wm = WindowManager::new(1024, 768);
    let a = wm.create_window(spec("A", 10, 20, 300, 200));
    wm.set_layout_mode(LayoutMode::Floating);
    let b = wm.create_window(spec("B", 10, 20, 300, 200));
    wm.set_layout_mode(LayoutMode::Tiling);
    let once = (wm.get_window(a).unwrap().bounds, wm.get_window(b).unwrap().bounds);
    wm.set_layout_mode(LayoutMode::Tiling);
    let twice = (wm.get_window(a).unwrap().bounds, wm.get_window(b).unwrap().bounds);
    assert_eq!(once, twice);
    assert_eq!(once, (Rect::new(0, 0, 1024, 384), Rect::new(0, 384, 1024, 384)));
    wm.set_layout_mode(LayoutMode::Floating);
    assert_eq!(wm.get_window(b).unwrap().bounds, Rect::new(0, 384, 1024, 384));
}

#[test]
fn a_click_lands_on_the_highest_window() {
    let mut wm = WindowManager::new(1024, 768);
    wm.set_layout_mode(LayoutMode::Floating);
    let a = wm.create_window(spec("A", 100, 100, 300, 200));
    let b = wm.create_window(spec("B", 150, 150, 300, 200));
    // B was created last and is on top where the two overlap.
    assert_eq!(wm.handle_click(200, 250), Some(WindowAction::Focus(b)));
    wm.focus_window(a);
    assert_eq!(wm.handle_click(200, 250), Some(WindowAction::Focus(a)));
    assert_eq!(wm.handle_click(900, 700), None);
}

#[test]
fn default_window_buttons_sit_in_a_row() {
    let w = Window::new(1, WindowSpec::default());
    assert_eq!(w.close_button_rect(), Rect::new(474, 104, 22, 22));
    assert_eq!(w.minimize_button_rect(), Rect::new(448, 104, 22, 22));
    assert_eq!(w.maximize_button_rect(), Rect::new(422, 104, 22, 22));
    assert!(matches!(w.is_on_resize_border(100, 100), Some(ResizeEdge::TopLeft)));
    assert!(matches!(w.is_on_resize_border(498, 250), Some(ResizeEdge::Right)));
    assert!(w.is_on_resize_border(300, 250).is_none());
    let mut w = w;
    w.resize(50, 50);
    assert_eq!(w.bounds, Rect::new(100, 100, 100, 80));
    assert_eq!(w.framebuffer.len(), 8000);
    assert_eq!(w.content_bounds, Rect::new(102, 132, 96, 46));
}
