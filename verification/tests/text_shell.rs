use meowos::framebuffer::{FrameBuffer, PixelFormat};
use meowos::text::{is_white_space, trim};
use meowos::text_shell::{parse_command, uefi_to_ascii, ShellAction, TextCommand, TextShell};

fn shell(width: usize, height: usize) -> TextShell {
    let mut fb = FrameBuffer::empty();
    fb.init(width, height, width, PixelFormat::Rgb, vec![0u8; width * height * 4]);
    TextShell::new(fb)
}

fn chars(s: &str) -> Vec<char> {
    s.chars().collect()
}

#[test]
fn key_codes_to_ascii() {
    assert_eq!(uefi_to_ascii(0x0D), '\r');
    assert_eq!(uefi_to_ascii(0x08), '\u{8}');
    assert_eq!(uefi_to_ascii(0x20), ' ');
    assert_eq!(uefi_to_ascii(0x41), 'A');
    assert_eq!(uefi_to_ascii(0x7E), '~');
    assert_eq!(uefi_to_ascii(0x7F), '\0');
    assert_eq!(uefi_to_ascii(0x0A), '\0');
    assert_eq!(uefi_to_ascii(0x263A), '\0');
}

#[test]
fn new_shell_cursor_is_home() {
    let sh = shell(64, 64);
    assert_eq!(sh.cursor(), (4, 4));
    assert!(sh.fits());
}

#[test]
fn write_char_advances_and_wraps() {
    let mut sh = shell(40, 100);
    sh.write_char('a');
    assert_eq!(sh.cursor(), (12, 4));
    sh.write_char('b');
    assert_eq!(sh.cursor(), (20, 4));
    sh.write_char('c');
    assert_eq!(sh.cursor(), (28, 4));
    sh.write_char('d');
    // 36 + 8 >= 40: wrap
    assert_eq!(sh.cursor(), (4, 14));
    sh.write_char('\n');
    assert_eq!(sh.cursor(), (4, 24));
}

#[test]
fn init_clears_and_homes() {
    let mut sh = shell(30, 30);
    sh.write_char('x');
    sh.init();
    assert_eq!(sh.cursor(), (4, 4));
    assert_eq!(sh.framebuffer().read_pixel(0, 0), (10, 10, 10));
    assert_eq!(sh.framebuffer().read_pixel(29, 29), (10, 10, 10));
}

#[test]
fn newline_at_the_bottom_scrolls_the_screen() {
    let mut fb = FrameBuffer::empty();
    fb.init(20, 30, 20, PixelFormat::Rgb, vec![0u8; 20 * 30 * 4]);
    fb.draw_pixel(3, 15, 1, 2, 3);
    fb.draw_pixel(3, 5, 9, 9, 9);
    let mut sh = TextShell::new(fb);
    sh.newline();
    assert_eq!(sh.cursor(), (4, 14));
    sh.newline();
    // 24 + 10 >= 30: scrolled up by ten, the cursor stays on line 14
    assert_eq!(sh.cursor(), (4, 14));
    assert_eq!(sh.framebuffer().read_pixel(3, 5), (1, 2, 3));
    assert_eq!(sh.framebuffer().read_pixel(3, 15), (0, 0, 0));
    assert_eq!(sh.framebuffer().read_pixel(3, 25), (10, 10, 10));
    assert_eq!(sh.framebuffer().read_pixel(0, 20), (10, 10, 10));
}

#[test]
fn backspace_blanks_the_cell() {
    let mut fb = FrameBuffer::empty();
    fb.init(40, 40, 40, PixelFormat::Rgb, vec![0u8; 40 * 40 * 4]);
    fb.draw_rect(0, 0, 40, 40, 200, 200, 200);
    let mut sh = TextShell::new(fb);
    sh.backspace();
    assert_eq!(sh.cursor(), (4, 4));
    assert_eq!(sh.framebuffer().read_pixel(5, 5), (200, 200, 200));
    sh.write_char('a');
    sh.backspace();
    assert_eq!(sh.cursor(), (4, 4));
    assert_eq!(sh.framebuffer().read_pixel(4, 4), (10, 10, 10));
    assert_eq!(sh.framebuffer().read_pixel(11, 13), (10, 10, 10));
    assert_eq!(sh.framebuffer().read_pixel(12, 4), (200, 200, 200));
    assert_eq!(sh.framebuffer().read_pixel(4, 14), (200, 200, 200));
}

#[test]
fn keys_build_a_line() {
    let mut sh = shell(200, 100);
    let mut line = Vec::new();
    for code in [0x68u16, 0x69, 0x01, 0x08, 0x6F] {
        assert!(!sh.on_key(&mut line, code));
    }
    assert_eq!(line, vec!['h', 'o']);
    assert_eq!(sh.cursor(), (20, 4));
    assert!(sh.on_key(&mut line, 0x0D));
    assert_eq!(line, vec!['h', 'o']);
    assert_eq!(sh.cursor(), (4, 14));
}

#[test]
fn backspace_key_on_an_empty_line_does_nothing() {
    let mut sh = shell(200, 100);
    let mut line = Vec::new();
    assert!(!sh.on_key(&mut line, 0x08));
    assert!(line.is_empty());
    assert_eq!(sh.cursor(), (4, 4));
}

#[test]
fn white_space_and_trim() {
    assert!(is_white_space(' '));
    assert!(is_white_space('\t'));
    assert!(is_white_space('\u{3000}'));
    assert!(!is_white_space('\0'));
    assert!(!is_white_space('a'));
    assert_eq!(trim(&chars("  help \t")), chars("help"));
    assert_eq!(trim(&chars("   ")), Vec::<char>::new());
    assert_eq!(trim(&chars("a b")), chars("a b"));
}

#[test]
fn commands_are_parsed_after_trimming() {
    assert_eq!(parse_command(&chars("help")), TextCommand::Help);
    assert_eq!(parse_command(&chars("  rect ")), TextCommand::Rect);
    assert_eq!(parse_command(&chars("clear")), TextCommand::Clear);
    assert_eq!(parse_command(&chars("cls")), TextCommand::Cls);
    assert_eq!(parse_command(&chars("gui")), TextCommand::Gui);
    assert_eq!(parse_command(&chars("mouse")), TextCommand::Mouse);
    assert_eq!(parse_command(&chars("shot")), TextCommand::Shot);
    assert_eq!(parse_command(&chars("exit")), TextCommand::Exit);
    assert_eq!(parse_command(&chars("  ")), TextCommand::Empty);
    assert_eq!(parse_command(&chars("HELP")), TextCommand::Unknown);
    assert_eq!(parse_command(&chars("he lp")), TextCommand::Unknown);
}

#[test]
fn start_greets_with_three_lines_and_a_blank_one() {
    let mut sh = shell(640, 480);
    sh.start();
    assert_eq!(sh.cursor(), (4, 44));
    sh.prompt();
    assert_eq!(sh.cursor(), (4 + 7 * 8, 44));
}

#[test]
fn help_writes_eight_lines() {
    let mut sh = shell(640, 480);
    assert!(matches!(sh.run_command(&chars("help")), ShellAction::Continue));
    assert_eq!(sh.cursor(), (4, 84));
}

#[test]
fn rect_command_draws_the_generated_rectangle() {
    let mut sh = shell(640, 480);
    assert!(matches!(sh.run_command(&chars("rect")), ShellAction::Continue));
    // first generator value 1103527590: x = 1103527590 % 640 = 550,
    // y = 4310654 % 480 = 254, size 190 x 130 (clipped at the right edge),
    // colour (166, 126, 198)
    let fb = sh.framebuffer();
    assert_eq!(fb.read_pixel(550, 254), (166, 126, 198));
    assert_eq!(fb.read_pixel(639, 383), (166, 126, 198));
    assert_eq!(fb.read_pixel(550, 384), (0, 0, 0));
    assert_eq!(fb.read_pixel(549, 254), (0, 0, 0));
    assert_eq!(sh.cursor(), (4, 14));
}

#[test]
fn successive_rects_differ() {
    let mut sh = shell(640, 480);
    let _ = sh.run_command(&chars("rect"));
    let _ = sh.run_command(&chars("rect"));
    // second generator value 377401575: at (615, 144), 135 x 115, colour (231, 176, 126)
    let fb = sh.framebuffer();
    assert_eq!(fb.read_pixel(615, 144), (231, 176, 126));
    assert_eq!(fb.read_pixel(639, 258), (231, 176, 126));
    assert_eq!(fb.read_pixel(614, 144), (0, 0, 0));
    assert_eq!(fb.read_pixel(550, 300), (166, 126, 198));
    assert_eq!(sh.cursor(), (4, 24));
}

#[test]
fn cls_command_clears_the_screen_and_keeps_the_line() {
    let mut fb = FrameBuffer::empty();
    fb.init(200, 100, 200, PixelFormat::Rgb, vec![0u8; 200 * 100 * 4]);
    fb.draw_rect(0, 0, 200, 100, 1, 2, 3);
    let mut sh = TextShell::new(fb);
    sh.write_line("x");
    assert!(matches!(sh.run_command(&chars(" cls ")), ShellAction::Continue));
    assert_eq!(sh.framebuffer().read_pixel(0, 0), (10, 10, 10));
    assert_eq!(sh.framebuffer().read_pixel(199, 99), (10, 10, 10));
    assert_eq!(sh.cursor(), (4, 24));
}

#[test]
fn gui_command_draws_the_demo_widgets() {
    let mut sh = shell(640, 480);
    let _ = sh.run_command(&chars("gui"));
    let fb = sh.framebuffer();
    assert_eq!(fb.read_pixel(60, 310), (128, 128, 128));
    assert_eq!(fb.read_pixel(50, 300), (255, 255, 255));
    assert_eq!(fb.read_pixel(205, 305), (0, 180, 0));
    assert_eq!(fb.read_pixel(244, 360), (0, 180, 0));
    assert_eq!(fb.read_pixel(245, 360), (40, 40, 40));
    assert_eq!(sh.cursor(), (4, 14));
}

#[test]
fn key_fits_tells_when_a_key_can_be_taken() {
    let sh = shell(200, 100);
    let empty: Vec<char> = Vec::new();
    assert!(sh.key_fits(&empty, 0x61));
    assert!(sh.key_fits(&empty, 0x0D));
    assert!(sh.key_fits(&empty, 0x08));
    // a 14-pixel-high screen: after the first character the top line would
    // have to scroll away while the cursor is still on it
    let tiny = shell(100, 14);
    assert!(!tiny.key_fits(&empty, 0x61));
    assert!(tiny.key_fits(&empty, 0x01));
}

#[test]
fn clear_command_resets_the_screen() {
    let mut sh = shell(64, 64);
    sh.write_char('a');
    assert!(matches!(sh.run_command(&chars("clear")), ShellAction::Continue));
    assert_eq!(sh.cursor(), (4, 4));
    assert_eq!(sh.framebuffer().read_pixel(63, 63), (10, 10, 10));
}

#[test]
fn shot_and_exit_actions() {
    let mut sh = shell(200, 200);
    match sh.run_command(&chars("shot")) {
        ShellAction::SaveScreenshot(bytes) => {
            assert_eq!(bytes.len(), 54 + 600 * 200);
            assert_eq!(bytes[54], 0);
        },
        _ => panic!("shot must hand back the image"),
    }
    assert_eq!(sh.cursor(), (4, 14));
    assert!(matches!(sh.run_command(&chars("exit")), ShellAction::Halt));
    assert_eq!(sh.cursor(), (4, 24));
    assert!(matches!(sh.run_command(&chars("")), ShellAction::Continue));
    assert_eq!(sh.cursor(), (4, 24));
    assert!(matches!(sh.run_command(&chars("bogus")), ShellAction::Continue));
    assert_eq!(sh.cursor(), (4, 34));
    assert!(matches!(sh.run_command(&chars("gui")), ShellAction::Continue));
    assert!(matches!(sh.run_command(&chars("mouse")), ShellAction::Continue));
    assert_eq!(sh.cursor(), (4, 54));
}

#[test]
fn long_line_wraps_at_the_right_edge() {
    let mut sh = shell(64, 64);
    sh.write_line("screenshot done");
    assert_eq!(sh.cursor(), (4, 34));
}

#[test]
fn small_screens_do_not_fit() {
    assert!(!shell(12, 100).fits());
    assert!(!shell(100, 14).fits());
    assert!(shell(13, 15).fits());
}

#[test]
fn shell_stays_on_screen() {
    let mut sh = shell(13, 15);
    assert!(sh.fits());
    sh.start();
    assert!(sh.fits());
    for cmd in ["help", "rect", "rect", "gui", "cls", "mouse", "bogus", "", "shot", "exit", "clear", "help"] {
        sh.prompt();
        assert!(sh.fits());
        let _ = sh.run_command(&chars(cmd));
        assert!(sh.fits());
    }
    let mut line = Vec::new();
    for code in [0x61u16, 0x62, 0x08, 0x08, 0x08, 0x0D] {
        sh.on_key(&mut line, code);
        assert!(sh.fits());
    }
}

#[test]
fn dry_runs_tell_when_the_shell_can_go_on() {
    // twelve pixels wide: every character wraps to a new line, yet nothing
    // runs off the screen
    let mut sh = shell(12, 30);
    assert!(!sh.fits());
    assert!(sh.start_fits());
    sh.start();
    for cmd in ["help", "rect", "cls", "gui", "bogus", "shot", "exit", ""] {
        assert!(sh.prompt_fits());
        sh.prompt();
        assert!(sh.command_fits(&chars(cmd)));
        let _ = sh.run_command(&chars(cmd));
    }
    assert_eq!(sh.cursor(), (4, 14));
    // fourteen pixels high: the first character would scroll its own line away
    let tiny = shell(100, 14);
    assert!(!tiny.start_fits());
    assert!(!tiny.prompt_fits());
    assert!(!tiny.command_fits(&chars("help")));
    assert!(!tiny.command_fits(&chars("bogus")));
    assert!(tiny.command_fits(&chars("")));
    assert!(tiny.command_fits(&chars("clear")));
}
