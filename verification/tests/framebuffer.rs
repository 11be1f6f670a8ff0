use meowos::framebuffer::{FrameBuffer, PixelFormat};

fn screen(width: usize, height: usize, stride: usize, format: PixelFormat) -> FrameBuffer {
    let mut fb = FrameBuffer::empty();
    fb.init(width, height, stride, format, vec![0u8; stride * height * 4]);
    fb
}

#[test]
fn empty_has_no_pixels() {
    let mut fb = FrameBuffer::empty();
    assert_eq!(fb.width(), 0);
    assert_eq!(fb.height(), 0);
    assert_eq!(fb.stride(), 0);
    assert_eq!(fb.pixel_format(), PixelFormat::Rgb);
    fb.draw_pixel(0, 0, 1, 2, 3);
    assert_eq!(fb.read_pixel(0, 0), (0, 0, 0));
}

#[test]
fn init_takes_the_mode_and_its_memory() {
    let fb = screen(4, 3, 5, PixelFormat::Bgr);
    assert_eq!(fb.width(), 4);
    assert_eq!(fb.height(), 3);
    assert_eq!(fb.stride(), 5);
    assert_eq!(fb.pixel_format(), PixelFormat::Bgr);
    for i in 0..5 * 3 * 4 {
        assert_eq!(fb.byte_at(i), 0);
    }
}

#[test]
fn init_keeps_what_video_memory_shows() {
    let bytes: Vec<u8> = (0..2 * 2 * 4).map(|i| i as u8).collect();
    let mut fb = FrameBuffer::empty();
    fb.init(2, 2, 2, PixelFormat::Rgb, bytes);
    assert_eq!(fb.read_pixel(0, 0), (0, 1, 2));
    assert_eq!(fb.read_pixel(1, 1), (12, 13, 14));
    fb.draw_pixel(1, 0, 200, 201, 202);
    assert_eq!(fb.read_pixel(1, 0), (200, 201, 202));
    assert_eq!(fb.read_pixel(0, 1), (8, 9, 10));
    for i in 12..16 {
        assert_eq!(fb.byte_at(i), i as u8);
    }
}

#[test]
fn rgb_pixel_bytes_and_read_back() {
    let mut fb = screen(4, 3, 5, PixelFormat::Rgb);
    fb.draw_pixel(1, 2, 10, 20, 30);
    let o = (2 * 5 + 1) * 4;
    assert_eq!((fb.byte_at(o), fb.byte_at(o + 1), fb.byte_at(o + 2), fb.byte_at(o + 3)), (10, 20, 30, 0));
    assert_eq!(fb.read_pixel(1, 2), (10, 20, 30));
    assert_eq!(fb.read_pixel(2, 2), (0, 0, 0));
}

#[test]
fn bgr_pixel_bytes_are_reversed() {
    let mut fb = screen(4, 3, 4, PixelFormat::Bgr);
    fb.draw_pixel(3, 0, 10, 20, 30);
    assert_eq!((fb.byte_at(12), fb.byte_at(13), fb.byte_at(14), fb.byte_at(15)), (30, 20, 10, 0));
    assert_eq!(fb.read_pixel(3, 0), (10, 20, 30));
}

#[test]
fn off_screen_pixel_changes_nothing() {
    let mut fb = screen(4, 3, 5, PixelFormat::Rgb);
    fb.draw_pixel(4, 0, 9, 9, 9);
    fb.draw_pixel(0, 3, 9, 9, 9);
    for i in 0..5 * 3 * 4 {
        assert_eq!(fb.byte_at(i), 0);
    }
    assert_eq!(fb.read_pixel(4, 0), (0, 0, 0));
}

#[test]
fn formats_without_bytes_cannot_be_drawn() {
    let mut fb = screen(2, 2, 2, PixelFormat::Bitmask);
    fb.draw_pixel(0, 0, 9, 9, 9);
    fb.clear(1, 1, 1);
    for i in 0..16 {
        assert_eq!(fb.byte_at(i), 0);
    }
    let mut blt = screen(2, 2, 2, PixelFormat::BltOnly);
    blt.draw_rect(0, 0, 2, 2, 5, 5, 5);
    assert_eq!(blt.read_pixel(1, 1), (0, 0, 0));
}

#[test]
fn rect_is_clipped_to_the_screen() {
    let mut fb = screen(4, 3, 5, PixelFormat::Rgb);
    fb.draw_rect(2, 1, 10, 10, 7, 8, 9);
    for y in 0..3 {
        for x in 0..4 {
            let expected = if x >= 2 && y >= 1 { (7, 8, 9) } else { (0, 0, 0) };
            assert_eq!(fb.read_pixel(x, y), expected);
        }
    }
    // the padding pixel beyond the width is not touched
    assert_eq!(fb.byte_at((1 * 5 + 4) * 4), 0);
}

#[test]
fn empty_rect_draws_nothing() {
    let mut fb = screen(3, 3, 3, PixelFormat::Rgb);
    fb.draw_rect(0, 0, 0, 3, 1, 1, 1);
    fb.draw_rect(0, 0, 3, 0, 1, 1, 1);
    for i in 0..36 {
        assert_eq!(fb.byte_at(i), 0);
    }
}

#[test]
fn clear_paints_every_visible_pixel_only() {
    let mut fb = screen(3, 2, 4, PixelFormat::Rgb);
    fb.clear(1, 2, 3);
    for y in 0..2 {
        for x in 0..3 {
            assert_eq!(fb.read_pixel(x, y), (1, 2, 3));
        }
        assert_eq!(fb.byte_at((y * 4 + 3) * 4), 0);
    }
}

#[test]
fn later_drawing_covers_earlier() {
    let mut fb = screen(4, 4, 4, PixelFormat::Rgb);
    fb.draw_rect(0, 0, 4, 4, 1, 1, 1);
    fb.draw_rect(1, 1, 2, 2, 2, 2, 2);
    assert_eq!(fb.read_pixel(0, 0), (1, 1, 1));
    assert_eq!(fb.read_pixel(1, 1), (2, 2, 2));
    assert_eq!(fb.read_pixel(2, 2), (2, 2, 2));
    assert_eq!(fb.read_pixel(3, 3), (1, 1, 1));
}
