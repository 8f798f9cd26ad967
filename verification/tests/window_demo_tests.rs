use sis_kernel::graphics::{Color, Rect};
use sis_kernel::window::{Window, WindowDecoration, WindowSpec};
use sis_kernel::window_manager::{LayoutMode, WindowManager};

fn spec(title: &str, x: u32, y: u32, w: u32, h: u32) -> WindowSpec {
    WindowSpec {
        title: title.to_string(),
        bounds: Rect::new(x, y, w, h),
        resizable: true,
        movable: true,
        closable: true,
        decoration: WindowDecoration::default(),
    }
}

#[test]
fn terminal_sample_paints_every_other_row() {
    let mut w = Window::new(1, spec("Terminal", 50, 50, 400, 300));
    assert!(w.terminal_sample_fits());
    w.fill_terminal_sample();
    let green = Color::green().to_argb();
    let dark = Color::from_rgb(20, 20, 20).to_argb();
    let cx = w.content_bounds.x - w.bounds.x;
    let cw = w.content_bounds.width;
    // stripe row 0 starts on line 10 at the content's left edge
    let start = (10 * 400 + cx) as usize;
    assert_eq!(w.framebuffer[start], green);
    assert_eq!(w.framebuffer[start + cw as usize - 1], green);
    assert_eq!(w.framebuffer[start + cw as usize], dark);
    assert_eq!(w.framebuffer[start - 1], dark);
    // stripe row 1 (line 30) is skipped, row 2 (line 50) painted
    assert_eq!(w.framebuffer[(30 * 400 + cx) as usize], dark);
    assert_eq!(w.framebuffer[(50 * 400 + cx) as usize], green);
    assert_eq!(w.framebuffer[(170 * 400 + cx) as usize], green);
    assert_eq!(w.framebuffer[(190 * 400 + cx) as usize], dark);
    let painted = w.framebuffer.iter().filter(|p| **p == green).count();
    assert_eq!(painted, 5 * cw as usize);
}

#[test]
fn gradient_fills_rows_with_their_level() {
    let mut w = Window::new(2, spec("AI Insights", 0, 0, 4, 3));
    let before = w.framebuffer.clone();
    w.fill_gradient(&[0, 42, 128]);
    assert_eq!(w.framebuffer.len(), before.len());
    for x in 0..4 {
        assert_eq!(w.framebuffer[x], Color::from_rgb(0, 0, 0).to_argb());
        assert_eq!(w.framebuffer[4 + x], Color::from_rgb(0, 21, 42).to_argb());
        assert_eq!(w.framebuffer[8 + x], Color::from_rgb(0, 64, 128).to_argb());
    }
}

#[test]
fn creation_check_follows_layout() {
    let mut wm = WindowManager::new(1024, 768);
    assert!(wm.can_create_window(&spec("A", 0, 0, 300, 200)));
    wm.set_layout_mode(LayoutMode::Floating);
    // a framebuffer of 2^32 pixels does not fit
    assert!(!wm.can_create_window(&spec("Huge", 0, 0, 65536, 65536)));
    assert!(wm.can_create_window(&spec("Edge", u32::MAX - 2, 0, 10, 10)));
    let mut huge_bar = spec("Bar", 0, u32::MAX - 10, 10, 10);
    huge_bar.decoration.title_bar_height = 30;
    assert!(!wm.can_create_window(&huge_bar));
}

#[test]
fn draw_and_click_checks_on_sample_windows() {
    let mut wm = WindowManager::new(1024, 768);
    wm.set_layout_mode(LayoutMode::Floating);
    let a = wm.create_window(spec("Terminal", 50, 50, 400, 300));
    assert!(wm.can_draw());
    assert!(wm.has_stacking_room());
    let w = wm.get_window(a).unwrap();
    assert!(w.close_button_fits());
    let r = w.close_button_rect();
    assert!(wm.can_click(r.x + r.width / 2, r.y + r.height / 2));
    // nothing under the point: nothing to test
    assert!(wm.can_click(1000, 700));
    // a window at the right edge of the coordinate space cannot be drawn
    wm.create_window(spec("Far", u32::MAX - 5, 10, 5, 100));
    assert!(!wm.can_draw());
}
