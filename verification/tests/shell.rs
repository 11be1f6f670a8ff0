use meowos::framebuffer::{FrameBuffer, PixelFormat};
use meowos::shell::{
    parse_console_command, screenshot_reply, ConsoleAction, ConsoleCommand, ConsoleShell, KeyEcho,
    LINE_CAPACITY,
};

fn screen(width: usize, height: usize) -> FrameBuffer {
    let mut fb = FrameBuffer::empty();
    fb.init(width, height, width, PixelFormat::Rgb, vec![0u8; width * height * 4]);
    fb
}

fn type_line(sh: &mut ConsoleShell, text: &str) -> Vec<char> {
    sh.begin_line();
    for c in text.chars() {
        sh.on_key(c as u16);
    }
    assert_eq!(sh.on_key(0x0D), KeyEcho::EndLine);
    sh.line()
}

#[test]
fn banner_and_prompt() {
    assert_eq!(
        ConsoleShell::banner(),
        vec!["MewoOS Kernel v0.2", "100% Rust | no underlying OS", "Type 'help' for commands\r\n"]
    );
    assert_eq!(ConsoleShell::prompt(), "mewos> ");
}

#[test]
fn keys_echo_erase_and_end() {
    let mut sh = ConsoleShell::new();
    sh.begin_line();
    assert_eq!(sh.on_key(0x08), KeyEcho::Nothing);
    assert_eq!(sh.on_key(0x61), KeyEcho::Echo('a'));
    assert_eq!(sh.on_key(0x62), KeyEcho::Echo('b'));
    assert_eq!(sh.on_key(0x08), KeyEcho::Erase);
    assert_eq!(sh.on_key(0x1B), KeyEcho::Nothing);
    assert_eq!(sh.on_key(0xD800), KeyEcho::Nothing);
    assert_eq!(sh.on_key(0x63), KeyEcho::Echo('c'));
    assert_eq!(sh.on_key(0x0D), KeyEcho::EndLine);
    assert_eq!(sh.line(), vec!['a', 'c']);
}

#[test]
fn line_is_complete_at_capacity() {
    let mut sh = ConsoleShell::new();
    sh.begin_line();
    for _ in 0..LINE_CAPACITY {
        assert!(!sh.line_full());
        assert_eq!(sh.on_key(0x78), KeyEcho::Echo('x'));
    }
    assert!(sh.line_full());
    assert_eq!(sh.line().len(), 256);
    sh.begin_line();
    assert!(!sh.line_full());
    assert!(sh.line().is_empty());
}

#[test]
fn console_commands_are_parsed_after_trimming() {
    let c = |s: &str| parse_console_command(&s.chars().collect());
    assert_eq!(c("help"), ConsoleCommand::Help);
    assert_eq!(c(" rect"), ConsoleCommand::Rect);
    assert_eq!(c("clear"), ConsoleCommand::Clear);
    assert_eq!(c("cls "), ConsoleCommand::Cls);
    assert_eq!(c("gui"), ConsoleCommand::Gui);
    assert_eq!(c("mouse"), ConsoleCommand::Mouse);
    assert_eq!(c("shot"), ConsoleCommand::Shot);
    assert_eq!(c("exit"), ConsoleCommand::Exit);
    assert_eq!(c(""), ConsoleCommand::Empty);
    assert_eq!(c("hello"), ConsoleCommand::Unknown);
}

#[test]
fn help_lists_the_commands() {
    let mut sh = ConsoleShell::new();
    let mut fb = screen(10, 10);
    let line = type_line(&mut sh, "help");
    let reply = sh.execute(&line, &mut fb);
    assert_eq!(reply.lines.len(), 9);
    assert_eq!(reply.lines[0], "  commands:");
    assert_eq!(reply.lines[4], "    cls    - clear framebuffer");
    assert_eq!(reply.lines[8], "    exit   - halt");
    assert!(matches!(reply.action, ConsoleAction::Nothing));
}

#[test]
fn rect_counts_and_draws() {
    let mut sh = ConsoleShell::new();
    let mut fb = screen(640, 480);
    let line = type_line(&mut sh, "rect");
    let reply = sh.execute(&line, &mut fb);
    assert_eq!(reply.lines, vec!["  rect done"]);
    // first rectangle: at (73, 137), 87 x 41, colour (1, 0, 0)
    assert_eq!(fb.read_pixel(73, 137), (1, 0, 0));
    assert_eq!(fb.read_pixel(159, 177), (1, 0, 0));
    assert_eq!(fb.read_pixel(160, 177), (0, 0, 0));
    assert_eq!(fb.read_pixel(159, 178), (0, 0, 0));
    assert_eq!(fb.read_pixel(72, 137), (0, 0, 0));
    let reply = sh.execute(&line, &mut fb);
    assert_eq!(reply.lines, vec!["  rect done"]);
    // second: at (146, 274), 134 x 52, colour (2, 0, 0)
    assert_eq!(fb.read_pixel(146, 274), (2, 0, 0));
    assert_eq!(fb.read_pixel(279, 325), (2, 0, 0));
    assert_eq!(fb.read_pixel(279, 326), (0, 0, 0));
    assert_eq!(fb.read_pixel(280, 300), (0, 0, 0));
}

#[test]
fn clear_cls_and_gui() {
    let mut sh = ConsoleShell::new();
    let mut fb = screen(400, 400);
    fb.clear(9, 9, 9);
    let reply = sh.execute(&"clear".chars().collect(), &mut fb);
    assert!(reply.lines.is_empty());
    assert!(matches!(reply.action, ConsoleAction::ResetConsole));
    assert_eq!(fb.read_pixel(0, 0), (9, 9, 9));
    let reply = sh.execute(&"cls".chars().collect(), &mut fb);
    assert_eq!(reply.lines, vec!["  fb cleared"]);
    assert_eq!(fb.read_pixel(399, 399), (0, 0, 0));
    let reply = sh.execute(&"gui".chars().collect(), &mut fb);
    assert_eq!(reply.lines, vec!["  gui demo drawn"]);
    // button body, checkbox box, progress bar: 300 * 65 / 100 = 195 green columns
    assert_eq!(fb.read_pixel(60, 310), (128, 128, 128));
    assert_eq!(fb.read_pixel(205, 305), (0, 180, 0));
    assert_eq!(fb.read_pixel(244, 360), (0, 180, 0));
    assert_eq!(fb.read_pixel(245, 360), (40, 40, 40));
}

#[test]
fn mouse_shot_exit_and_unknown() {
    let mut sh = ConsoleShell::new();
    let mut fb = screen(4, 4);
    let reply = sh.execute(&"mouse".chars().collect(), &mut fb);
    assert_eq!(reply.lines, vec!["  mouse stubbed"]);
    let reply = sh.execute(&"shot".chars().collect(), &mut fb);
    assert!(reply.lines.is_empty());
    match reply.action {
        ConsoleAction::Screenshot(bytes) => assert_eq!(bytes.len(), 54 + 12 * 4),
        _ => panic!("shot must hand back the image"),
    }
    assert_eq!(screenshot_reply(true), "  saved shot.bmp");
    assert_eq!(screenshot_reply(false), "  screenshot failed");
    let reply = sh.execute(&"exit".chars().collect(), &mut fb);
    assert_eq!(reply.lines, vec!["  halting..."]);
    assert!(matches!(reply.action, ConsoleAction::Halt));
    let reply = sh.execute(&"what".chars().collect(), &mut fb);
    assert_eq!(reply.lines, vec!["  unknown command"]);
    let reply = sh.execute(&Vec::new(), &mut fb);
    assert!(reply.lines.is_empty());
    assert!(matches!(reply.action, ConsoleAction::Nothing));
}

#[test]
fn can_execute_checks_the_screen() {
    let sh = ConsoleShell::new();
    let fb = screen(640, 480);
    assert!(sh.can_execute(&"rect".chars().collect(), &fb));
    assert!(sh.can_execute(&"shot".chars().collect(), &fb));
    assert!(sh.can_execute(&"help".chars().collect(), &fb));
    assert!(meowos::screenshot::screenshot_fits(&fb));
}
