use sis_kernel::error::Errno;
use sis_kernel::window_manager::WindowManager;
use sis_kernel::window_selftest::{
    close_by_button, focus_next_and_draw, open_sample_windows, paint_and_float,
};

fn gradient_level(y: u32, height: u32) -> u8 {
    (y as f32 / height as f32 * 128.0) as u8
}

#[test]
fn self_test_steps_on_a_fresh_screen() {
    let mut wm = WindowManager::new(1280, 800);

    let (terminal, insights) = open_sample_windows(&mut wm).unwrap();
    assert_eq!((terminal, insights), (1, 2));
    assert_eq!(wm.window_count(), 2);

    // Tiling: two strips of 400 rows. Moving the terminal into its smaller
    // strip gave it a fresh, blank framebuffer.
    let term = wm.get_window(terminal).unwrap();
    assert_eq!(term.bounds.height, 400);
    assert_eq!(term.framebuffer.len(), 1280 * 400);
    assert!(term.framebuffer.iter().all(|&p| p == 0xFF28_2830));

    let height = wm.get_window(insights).unwrap().bounds.height;
    assert_eq!(height, 400);
    let levels: Vec<u8> = (0..height).map(|y| gradient_level(y, height)).collect();
    let frame = paint_and_float(&mut wm, insights, &levels).unwrap();
    assert!(!frame.is_empty());
    assert_eq!(wm.window_count(), 3);
    let files = wm.get_window(3).unwrap();
    assert!(files.focused);
    assert!(files.framebuffer.iter().all(|&p| p == 0xFF32_3237));

    // Focus moves from the file window to the terminal, then to the insights window.
    focus_next_and_draw(&mut wm).unwrap();
    assert!(wm.get_window(terminal).unwrap().focused);
    focus_next_and_draw(&mut wm).unwrap();
    assert!(wm.get_window(insights).unwrap().focused);
    assert!(!wm.get_window(terminal).unwrap().focused);

    let (closed, frame) = close_by_button(&mut wm, terminal).unwrap();
    assert_eq!(closed, Some(terminal));
    assert!(!frame.is_empty());
    assert_eq!(wm.window_count(), 2);
    assert!(wm.get_window(terminal).is_none());
}

#[test]
fn self_test_refuses_a_screen_too_large_for_a_framebuffer() {
    let mut wm = WindowManager::new(u32::MAX, u32::MAX);
    assert!(matches!(open_sample_windows(&mut wm), Err(Errno::EINVAL)));
    assert_eq!(wm.window_count(), 0);
}

#[test]
fn closing_a_missing_window_only_redraws() {
    let mut wm = WindowManager::new(1280, 800);
    let (_, insights) = open_sample_windows(&mut wm).unwrap();
    let height = wm.get_window(insights).unwrap().bounds.height;
    let levels = vec![0u8; height as usize];
    paint_and_float(&mut wm, insights, &levels).unwrap();
    let (closed, frame) = close_by_button(&mut wm, 42).unwrap();
    assert_eq!(closed, None);
    assert!(!frame.is_empty());
    assert_eq!(wm.window_count(), 3);
}
