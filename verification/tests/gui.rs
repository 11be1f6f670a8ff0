use meowos::framebuffer::{FrameBuffer, PixelFormat};
use meowos::gui::{Color, Rect, Widget};
use meowos::mouse::{init_mouse, MouseState};

fn screen(width: usize, height: usize) -> FrameBuffer {
    let mut fb = FrameBuffer::empty();
    fb.init(width, height, width, PixelFormat::Rgb, vec![0u8; width * height * 4]);
    fb
}

#[test]
fn gui_colors() {
    assert_eq!(Color::rgb(1, 2, 3), Color { r: 1, g: 2, b: 3 });
    assert_eq!(Color::white(), Color { r: 255, g: 255, b: 255 });
    assert_eq!(Color::gray(), Color { r: 128, g: 128, b: 128 });
    assert_eq!(Color::dark_gray(), Color { r: 64, g: 64, b: 64 });
    assert_eq!(Color::green(), Color { r: 0, g: 180, b: 0 });
}

#[test]
fn widget_contains_is_half_open() {
    let w = Widget::Checkbox { rect: Rect { x: 10, y: 20, w: 5, h: 3 }, label: "x", checked: false };
    assert!(w.contains(10, 20));
    assert!(w.contains(14, 22));
    assert!(!w.contains(15, 22));
    assert!(!w.contains(14, 23));
    assert!(!w.contains(9, 20));
    assert!(!w.contains(10, 19));
}

#[test]
fn widget_contains_near_the_end_of_usize() {
    let w = Widget::ProgressBar { rect: Rect { x: usize::MAX - 1, y: 0, w: 10, h: 1 }, percent: 0 };
    assert!(w.contains(usize::MAX, 0));
    assert!(!w.contains(usize::MAX - 2, 0));
}

#[test]
fn button_has_white_frame_and_gray_body() {
    let mut fb = screen(20, 20);
    let b = Widget::Button { rect: Rect { x: 2, y: 3, w: 6, h: 5 }, label: "Ok", pressed: false };
    b.draw(&mut fb);
    assert_eq!(fb.read_pixel(2, 3), (255, 255, 255));
    assert_eq!(fb.read_pixel(7, 7), (255, 255, 255));
    assert_eq!(fb.read_pixel(4, 3), (255, 255, 255));
    assert_eq!(fb.read_pixel(2, 5), (255, 255, 255));
    assert_eq!(fb.read_pixel(3, 4), (128, 128, 128));
    assert_eq!(fb.read_pixel(6, 6), (128, 128, 128));
    assert_eq!(fb.read_pixel(8, 5), (0, 0, 0));
    assert_eq!(fb.read_pixel(1, 3), (0, 0, 0));
}

#[test]
fn pressed_button_is_dark() {
    let mut fb = screen(20, 20);
    let b = Widget::Button { rect: Rect { x: 0, y: 0, w: 4, h: 4 }, label: "Ok", pressed: true };
    b.draw(&mut fb);
    assert_eq!(fb.read_pixel(1, 1), (64, 64, 64));
    assert_eq!(fb.read_pixel(0, 0), (255, 255, 255));
}

#[test]
fn checkbox_box_colors() {
    let mut fb = screen(20, 20);
    Widget::Checkbox { rect: Rect { x: 1, y: 1, w: 50, h: 12 }, label: "On", checked: true }.draw(&mut fb);
    assert_eq!(fb.read_pixel(5, 5), (0, 180, 0));
    assert_eq!(fb.read_pixel(1, 5), (255, 255, 255));
    assert_eq!(fb.read_pixel(12, 5), (255, 255, 255));
    assert_eq!(fb.read_pixel(5, 12), (255, 255, 255));
    assert_eq!(fb.read_pixel(13, 5), (0, 0, 0));
    let mut fb2 = screen(20, 20);
    Widget::Checkbox { rect: Rect { x: 1, y: 1, w: 50, h: 12 }, label: "Off", checked: false }.draw(&mut fb2);
    assert_eq!(fb2.read_pixel(5, 5), (64, 64, 64));
}

#[test]
fn progress_bar_fill_width() {
    // width 10 at 50 percent: (10 * 50) / 100 = 5 green columns
    let mut fb = screen(20, 10);
    Widget::ProgressBar { rect: Rect { x: 0, y: 0, w: 10, h: 5 }, percent: 50 }.draw(&mut fb);
    assert_eq!(fb.read_pixel(1, 2), (0, 180, 0));
    assert_eq!(fb.read_pixel(4, 2), (0, 180, 0));
    assert_eq!(fb.read_pixel(5, 2), (40, 40, 40));
    assert_eq!(fb.read_pixel(8, 2), (40, 40, 40));
    assert_eq!(fb.read_pixel(0, 2), (255, 255, 255));
    assert_eq!(fb.read_pixel(9, 2), (255, 255, 255));
    assert_eq!(fb.read_pixel(4, 4), (255, 255, 255));
    assert_eq!(fb.read_pixel(10, 2), (0, 0, 0));
}

#[test]
fn progress_bar_at_zero_has_no_green() {
    let mut fb = screen(20, 10);
    Widget::ProgressBar { rect: Rect { x: 0, y: 0, w: 9, h: 5 }, percent: 11 }.draw(&mut fb);
    // (9 * 11) / 100 = 0
    assert_eq!(fb.read_pixel(1, 2), (40, 40, 40));
}

#[test]
fn mouse_starts_at_origin() {
    let m = MouseState::new();
    assert_eq!(m, MouseState { x: 0, y: 0, left_button: false, right_button: false });
    assert_eq!(init_mouse(), Some(m));
}
