use meowos::framebuffer::{FrameBuffer, PixelFormat};
use meowos::screenshot::screenshot_bmp;

#[test]
fn bmp_of_a_two_by_two_screen() {
    let mut fb = FrameBuffer::empty();
    fb.init(2, 2, 3, PixelFormat::Rgb, vec![0u8; 3 * 2 * 4]);
    fb.draw_pixel(0, 0, 1, 2, 3);
    fb.draw_pixel(1, 0, 4, 5, 6);
    fb.draw_pixel(0, 1, 7, 8, 9);
    fb.draw_pixel(1, 1, 10, 11, 12);
    let bmp = screenshot_bmp(&fb);
    // rows of 2 * 3 = 6 bytes padded to 8; 54 + 8 * 2 = 70 bytes
    assert_eq!(bmp.len(), 70);
    assert_eq!(&bmp[0..2], b"BM");
    assert_eq!(&bmp[2..6], &[70, 0, 0, 0]);
    assert_eq!(bmp[10], 54);
    assert_eq!(bmp[14], 40);
    assert_eq!(&bmp[18..20], &[2, 0]);
    assert_eq!(&bmp[22..24], &[2, 0]);
    assert_eq!(bmp[26], 1);
    assert_eq!(bmp[28], 24);
    for i in [6, 7, 8, 9, 11, 12, 13, 15, 16, 17, 20, 21, 24, 25, 27, 29, 53] {
        assert_eq!(bmp[i], 0);
    }
    // bottom row first, each pixel as blue, green, red, then two padding bytes
    assert_eq!(&bmp[54..62], &[9, 8, 7, 12, 11, 10, 0, 0]);
    assert_eq!(&bmp[62..70], &[3, 2, 1, 6, 5, 4, 0, 0]);
}

#[test]
fn bmp_takes_each_pixel_colour_per_format() {
    let mut fb = FrameBuffer::empty();
    fb.init(1, 1, 1, PixelFormat::Bgr, vec![0u8; 1 * 1 * 4]);
    fb.draw_pixel(0, 0, 1, 2, 3);
    let bmp = screenshot_bmp(&fb);
    // the colour (1, 2, 3) stored blue, green, red, then one padding byte
    assert_eq!(bmp.len(), 58);
    assert_eq!(&bmp[54..58], &[3, 2, 1, 0]);
    let mut rgb = FrameBuffer::empty();
    rgb.init(1, 1, 1, PixelFormat::Rgb, vec![0u8; 1 * 1 * 4]);
    rgb.draw_pixel(0, 0, 1, 2, 3);
    assert_eq!(&screenshot_bmp(&rgb)[54..58], &[3, 2, 1, 0]);
    // a format that cannot be read by channel: the pixel's memory bytes 2, 1, 0
    let mut mask = FrameBuffer::empty();
    mask.init(1, 1, 1, PixelFormat::Bitmask, vec![1, 2, 3, 4]);
    assert_eq!(&screenshot_bmp(&mask)[54..58], &[3, 2, 1, 0]);
    let mut blt = FrameBuffer::empty();
    blt.init(1, 1, 1, PixelFormat::BltOnly, vec![9, 8, 7, 6]);
    assert_eq!(&screenshot_bmp(&blt)[54..58], &[7, 8, 9, 0]);
}

#[test]
fn bmp_size_bytes_little_endian() {
    let mut fb = FrameBuffer::empty();
    fb.init(300, 300, 300, PixelFormat::Rgb, vec![0u8; 300 * 300 * 4]);
    let bmp = screenshot_bmp(&fb);
    let size = 54 + 900 * 300;
    assert_eq!(bmp.len(), size);
    assert_eq!(&bmp[2..6], &[(size & 0xFF) as u8, ((size >> 8) & 0xFF) as u8, ((size >> 16) & 0xFF) as u8, 0]);
    assert_eq!(&bmp[18..20], &[44, 1]);
    assert_eq!(&bmp[22..24], &[44, 1]);
}

#[test]
fn bmp_of_empty_screen_is_headers_only() {
    let fb = FrameBuffer::empty();
    let bmp = screenshot_bmp(&fb);
    assert_eq!(bmp.len(), 54);
    assert_eq!(&bmp[2..6], &[54, 0, 0, 0]);
}

#[test]
fn screenshot_file_name_in_ucs2() {
    let name = meowos::screenshot::screenshot_file_name("shot.bmp").unwrap();
    assert_eq!(name.to_string(), "shot.bmp");
    assert!(meowos::screenshot::screenshot_file_name("\u{FFFD}.bmp").is_ok());
    assert_eq!(meowos::screenshot::screenshot_file_name("a\0b").err(), Some("bad filename"));
    assert_eq!(meowos::screenshot::screenshot_file_name("\u{1F600}.bmp").err(), Some("bad filename"));
}
