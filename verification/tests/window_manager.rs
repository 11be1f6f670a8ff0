use meowos::framebuffer::{FrameBuffer, PixelFormat};
use meowos::window_manager::{Color, Window, WindowManager};

fn focused_ids(wm: &WindowManager) -> Vec<u32> {
    wm.windows.iter().flatten().filter(|w| w.focused).map(|w| w.id).collect()
}

fn ids(wm: &WindowManager) -> Vec<Option<u32>> {
    wm.windows.iter().map(|w| w.map(|w| w.id)).collect()
}

#[test]
fn wm_colors() {
    assert_eq!(Color::rgb(1, 2, 3), Color { r: 1, g: 2, b: 3 });
    assert_eq!(Color::white(), Color { r: 255, g: 255, b: 255 });
    assert_eq!(Color::black(), Color { r: 0, g: 0, b: 0 });
    assert_eq!(Color::gray(), Color { r: 128, g: 128, b: 128 });
    assert_eq!(Color::dark_gray(), Color { r: 64, g: 64, b: 64 });
    assert_eq!(Color::blue(), Color { r: 0, g: 120, b: 215 });
}

#[test]
fn new_window_is_unfocused() {
    let w = Window::new(7, 1, 2, 3, 4, "t", Color::black());
    assert_eq!(w.id, 7);
    assert_eq!((w.rect.x, w.rect.y, w.rect.w, w.rect.h), (1, 2, 3, 4));
    assert_eq!(w.title, "t");
    assert!(!w.focused);
}

#[test]
fn window_hit_tests() {
    let w = Window::new(1, 100, 50, 200, 100, "w", Color::blue());
    assert!(w.contains(100, 50));
    assert!(w.contains(299, 149));
    assert!(!w.contains(300, 100));
    assert!(!w.contains(150, 150));
    // close button: x in [282, 296), y in [54, 68)
    assert!(w.close_button_hit(282, 54));
    assert!(w.close_button_hit(295, 67));
    assert!(!w.close_button_hit(281, 60));
    assert!(!w.close_button_hit(296, 60));
    assert!(!w.close_button_hit(290, 53));
    assert!(!w.close_button_hit(290, 68));
    // title bar: the top 20 lines
    assert!(w.title_bar_hit(100, 69));
    assert!(!w.title_bar_hit(100, 70));
    assert!(!w.title_bar_hit(300, 60));
}

#[test]
fn narrow_window_close_button_starts_left_of_it() {
    // the button starts 18 pixels left of the right edge, here left of the window
    let w = Window::new(1, 20, 0, 10, 30, "w", Color::blue());
    assert!(w.close_button_hit(12, 4));
    assert!(!w.close_button_hit(11, 4));
    let edge = Window::new(1, 0, 0, 10, 30, "w", Color::blue());
    assert!(edge.close_button_hit(0, 4));
}

#[test]
fn add_hands_out_increasing_ids_and_focuses_the_new_window() {
    let mut wm = WindowManager::new();
    assert_eq!(wm.next_id, 1);
    assert!(wm.drag.is_none());
    assert_eq!(wm.add(0, 0, 50, 50, "a", Color::gray()), 1);
    assert_eq!(focused_ids(&wm), vec![1]);
    assert_eq!(wm.add(10, 10, 50, 50, "b", Color::gray()), 2);
    assert_eq!(focused_ids(&wm), vec![2]);
    assert_eq!(wm.next_id, 3);
    assert_eq!(ids(&wm)[..3], [Some(1), Some(2), None]);
}

#[test]
fn add_to_a_full_manager_gives_zero_and_still_counts() {
    let mut wm = WindowManager::new();
    for i in 0..8 {
        assert_eq!(wm.add(0, 0, 20, 20, "w", Color::gray()), i + 1);
    }
    let before = ids(&wm);
    assert_eq!(wm.add(0, 0, 20, 20, "x", Color::gray()), 0);
    assert_eq!(ids(&wm), before);
    assert_eq!(wm.next_id, 10);
    assert_eq!(focused_ids(&wm), vec![8]);
}

#[test]
fn focus_and_close() {
    let mut wm = WindowManager::new();
    wm.add(0, 0, 50, 50, "a", Color::gray());
    wm.add(0, 0, 50, 50, "b", Color::gray());
    wm.add(0, 0, 50, 50, "c", Color::gray());
    wm.focus(1);
    assert_eq!(focused_ids(&wm), vec![1]);
    wm.focus(42);
    assert_eq!(focused_ids(&wm), Vec::<u32>::new());
    wm.close(2);
    assert_eq!(ids(&wm)[..3], [Some(1), None, Some(3)]);
    wm.close(2);
    assert_eq!(ids(&wm)[..3], [Some(1), None, Some(3)]);
    // the freed slot is reused, with a new id
    assert_eq!(wm.add(0, 0, 50, 50, "d", Color::gray()), 4);
    assert_eq!(ids(&wm)[..3], [Some(1), Some(4), Some(3)]);
}

#[test]
fn close_after_add_leaves_the_others_unfocused() {
    let mut wm = WindowManager::new();
    wm.add(0, 0, 50, 50, "a", Color::gray());
    let id = wm.add(0, 0, 50, 50, "b", Color::gray());
    wm.close(id);
    assert_eq!(ids(&wm)[..2], [Some(1), None]);
    assert_eq!(focused_ids(&wm), Vec::<u32>::new());
}

#[test]
fn click_focuses_the_topmost_window_and_starts_a_drag() {
    let mut wm = WindowManager::new();
    wm.add(0, 0, 100, 100, "bottom", Color::gray());
    wm.add(50, 50, 100, 100, "top", Color::gray());
    wm.focus(1);
    wm.handle_click(60, 90);
    assert_eq!(focused_ids(&wm), vec![2]);
    assert_eq!(wm.drag, Some((2, 60, 90, 50, 50)));
    wm.handle_click(10, 10);
    assert_eq!(focused_ids(&wm), vec![1]);
    assert_eq!(wm.drag, Some((1, 10, 10, 0, 0)));
}

#[test]
fn click_outside_every_window_changes_nothing() {
    let mut wm = WindowManager::new();
    wm.add(0, 0, 10, 10, "a", Color::gray());
    wm.handle_click(100, 100);
    assert_eq!(focused_ids(&wm), vec![1]);
    assert_eq!(wm.drag, None);
}

#[test]
fn click_on_close_button_closes_the_window() {
    let mut wm = WindowManager::new();
    wm.add(0, 0, 100, 100, "a", Color::gray());
    wm.add(200, 0, 100, 100, "b", Color::gray());
    wm.handle_click(90, 10);
    assert_eq!(ids(&wm)[..2], [None, Some(2)]);
    assert_eq!(wm.drag, None);
    assert_eq!(focused_ids(&wm), Vec::<u32>::new());
}

#[test]
fn drag_moves_the_window_by_the_pointer_offset() {
    let mut wm = WindowManager::new();
    wm.add(10, 20, 100, 100, "a", Color::gray());
    wm.handle_click(15, 25);
    wm.handle_drag(45, 35);
    let w = wm.windows[0].unwrap();
    assert_eq!((w.rect.x, w.rect.y), (40, 30));
    // dragging is absolute: the same point again moves nothing further
    wm.handle_drag(45, 35);
    let w = wm.windows[0].unwrap();
    assert_eq!((w.rect.x, w.rect.y), (40, 30));
    // left of or above the grab point counts as no movement
    wm.handle_drag(0, 0);
    let w = wm.windows[0].unwrap();
    assert_eq!((w.rect.x, w.rect.y), (10, 20));
    // back to the grab point: back where it was
    wm.handle_drag(15, 25);
    let w = wm.windows[0].unwrap();
    assert_eq!((w.rect.x, w.rect.y), (10, 20));
    assert_eq!((w.rect.w, w.rect.h), (100, 100));
}

#[test]
fn end_drag_stops_moving() {
    let mut wm = WindowManager::new();
    wm.add(10, 20, 100, 100, "a", Color::gray());
    wm.handle_click(15, 25);
    wm.end_drag();
    assert_eq!(wm.drag, None);
    wm.handle_drag(100, 100);
    let w = wm.windows[0].unwrap();
    assert_eq!((w.rect.x, w.rect.y), (10, 20));
}

#[test]
fn drag_of_a_closed_window_does_nothing() {
    let mut wm = WindowManager::new();
    wm.add(10, 20, 100, 100, "a", Color::gray());
    wm.handle_click(15, 25);
    wm.close(1);
    wm.handle_drag(100, 100);
    assert!(wm.windows.iter().all(|w| w.is_none()));
}

fn screen() -> FrameBuffer {
    let mut fb = FrameBuffer::empty();
    fb.init(100, 80, 100, PixelFormat::Rgb, vec![0u8; 100 * 80 * 4]);
    fb
}

#[test]
fn focused_window_picture() {
    let mut fb = screen();
    let mut w = Window::new(1, 10, 10, 60, 50, "w", Color::rgb(1, 2, 3));
    w.focused = true;
    w.draw(&mut fb);
    assert_eq!(fb.read_pixel(30, 40), (1, 2, 3));
    assert_eq!(fb.read_pixel(30, 10), (0, 120, 215));
    assert_eq!(fb.read_pixel(30, 30), (60, 60, 60));
    assert_eq!(fb.read_pixel(10, 40), (80, 80, 80));
    assert_eq!(fb.read_pixel(69, 40), (80, 80, 80));
    assert_eq!(fb.read_pixel(30, 59), (80, 80, 80));
    // close button at (52, 14), 14 x 14: white frame, red inside, white cross
    assert_eq!(fb.read_pixel(52, 14), (255, 255, 255));
    assert_eq!(fb.read_pixel(53, 15), (200, 50, 50));
    assert_eq!(fb.read_pixel(57, 17), (255, 255, 255));
    assert_eq!(fb.read_pixel(63, 18), (255, 255, 255));
    assert_eq!(fb.read_pixel(58, 17), (200, 50, 50));
    assert_eq!(fb.read_pixel(71, 40), (0, 0, 0));
}

#[test]
fn unfocused_window_picture() {
    let mut fb = screen();
    let w = Window::new(1, 10, 10, 60, 50, "w", Color::rgb(1, 2, 3));
    w.draw(&mut fb);
    assert_eq!(fb.read_pixel(30, 40), (64, 64, 64));
    assert_eq!(fb.read_pixel(30, 10), (80, 80, 80));
    assert_eq!(fb.read_pixel(30, 30), (64, 64, 64));
}

#[test]
fn draw_all_draws_later_slots_on_top() {
    let mut fb = screen();
    let mut wm = WindowManager::new();
    wm.add(0, 0, 50, 50, "a", Color::rgb(1, 1, 1));
    wm.add(20, 20, 50, 50, "b", Color::rgb(2, 2, 2));
    wm.draw_all(&mut fb);
    assert_eq!(fb.read_pixel(30, 30), (2, 2, 2));
    assert_eq!(fb.read_pixel(10, 30), (64, 64, 64));
}
