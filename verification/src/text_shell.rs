use vstd::prelude::*;
use crate::gui::{demo_picture, draw_demo, lemma_demo_keeps_geometry};
use crate::mouse::init_mouse;
use crate::screenshot::{bmp_fits, is_bmp_of, screenshot_bmp, screenshot_fits};
use crate::text::{is_word, trim, trimmed};
use crate::framebuffer::{
    FrameBuffer, FrameView, Rgb8, is_drawable, lemma_read_after_repaint, lemma_repaint_nothing, lemma_repaint_same,
    lemma_repaint_twice, overlay, rect_paint,
};

verus! {

/// The background colour of the text screen.
pub open spec fn text_background() -> Rgb8 {
    (10, 10, 10)
}

/// What the shell is: its screen; the cursor, the top left corner of the
/// next character cell (cells are 8 pixels wide and 10 high); the state of
/// the random number generator of the rect command; and the text on the
/// screen, as the character written in each cell, keyed by the cell's top
/// left corner.
#[verifier::ext_equal]
pub struct ShellView {
    pub fb: FrameView,
    pub cursor_x: usize,
    pub cursor_y: usize,
    pub rng: u32,
    pub text: Map<(int, int), char>,
}

/// The text after scrolling up by one line of cells: each character moves
/// ten pixels up, those in the top line are gone.
pub open spec fn scrolled_text(t: Map<(int, int), char>) -> Map<(int, int), char> {
    Map::new(
        |k: (int, int)| k.1 >= 0 && t.dom().contains((k.0, k.1 + 10)),
        |k: (int, int)| t[(k.0, k.1 + 10)],
    )
}

/// The shell after scrolling the screen and its text, with the cursor at
/// (`cx`, `cy`).
pub open spec fn scroll_view(v: ShellView, cx: usize, cy: usize) -> ShellView {
    ShellView { fb: scrolled(v.fb), cursor_x: cx, cursor_y: cy, rng: v.rng, text: scrolled_text(v.text) }
}

/// Every line moves up by ten pixels; the bottom ten lines become background.
pub open spec fn scroll_paint(v: FrameView) -> spec_fn(int, int) -> Option<Rgb8> {
    |px: int, py: int|
        if py < v.height - 10 {
            Some(v.read(px, py + 10))
        } else {
            Some(text_background())
        }
}

pub open spec fn scrolled(v: FrameView) -> FrameView {
    v.repaint(scroll_paint(v))
}

/// The shifted pixels among the first `y` lines and the first `x` pixels of line `y`.
spec fn shift_upto(v: FrameView, y: int, x: int) -> spec_fn(int, int) -> Option<Rgb8> {
    |px: int, py: int|
        if py < v.height - 10 && (py < y || (py == y && px < x)) {
            Some(v.read(px, py + 10))
        } else {
            None
        }
}

/// All shifted lines, then the bottom lines from `h - 10` up to `y` and the
/// first `x` pixels of line `y` in background colour.
spec fn blank_upto(v: FrameView, y: int, x: int) -> spec_fn(int, int) -> Option<Rgb8> {
    |px: int, py: int|
        if py < v.height - 10 {
            Some(v.read(px, py + 10))
        } else if py < y || (py == y && px < x) {
            Some(text_background())
        } else {
            None
        }
}

/// A line break: the cursor goes to the start of the next line, and the
/// screen scrolls when that line does not fit.
pub open spec fn newline_ok(v: ShellView) -> bool {
    &&& v.cursor_y + 20 <= usize::MAX
    &&& v.cursor_y + 20 >= v.fb.height ==> v.fb.height >= 10
}

pub open spec fn after_newline(v: ShellView) -> ShellView {
    if v.cursor_y + 20 >= v.fb.height {
        scroll_view(v, 4, v.cursor_y)
    } else {
        ShellView { cursor_x: 4, cursor_y: (v.cursor_y + 10) as usize, ..v }
    }
}

/// Where the cursor goes for character `c` before any scrolling: a line
/// break for '\n', else one cell right, wrapping when the cell after that
/// would not fit.
pub open spec fn char_advance(v: ShellView, c: char) -> (int, int) {
    let (cx1, cy1) = if c == '\n' { (4int, v.cursor_y + 10) } else { (v.cursor_x + 8, v.cursor_y as int) };
    if cx1 + 8 >= v.fb.width {
        (4, cy1 + 10)
    } else {
        (cx1, cy1)
    }
}

pub open spec fn char_ok(v: ShellView, c: char) -> bool {
    let (cx1, cy1) = if c == '\n' { (4int, v.cursor_y + 10) } else { (v.cursor_x + 8, v.cursor_y as int) };
    let (cx2, cy2) = char_advance(v, c);
    &&& cx1 + 8 <= usize::MAX
    &&& cy2 + 10 <= usize::MAX
    &&& cy2 + 10 >= v.fb.height ==> v.fb.height >= 10 && cy2 >= 10
}

/// The shell after writing `c`: any character but '\n' goes into the cell at
/// the cursor, then the cursor advances and the screen scrolls when the
/// cursor's line does not fit. The frame buffer has no glyph renderer, so
/// the character is kept in the text, not drawn.
pub open spec fn after_char(v: ShellView, c: char) -> ShellView {
    let (cx2, cy2) = char_advance(v, c);
    let text = if c == '\n' { v.text } else { v.text.insert((v.cursor_x as int, v.cursor_y as int), c) };
    let u = ShellView { text, ..v };
    if cy2 + 10 >= v.fb.height {
        scroll_view(u, cx2 as usize, (cy2 - 10) as usize)
    } else {
        ShellView { cursor_x: cx2 as usize, cursor_y: cy2 as usize, ..u }
    }
}

/// Every character of `s` can be written in turn.
pub open spec fn chars_ok(v: ShellView, s: Seq<char>) -> bool
    decreases s.len(),
{
    s.len() == 0 || (char_ok(v, s[0]) && chars_ok(after_char(v, s[0]), s.drop_first()))
}

pub open spec fn after_chars(v: ShellView, s: Seq<char>) -> ShellView
    decreases s.len(),
{
    if s.len() == 0 {
        v
    } else {
        after_chars(after_char(v, s[0]), s.drop_first())
    }
}

/// A line: its characters, then a line break.
pub open spec fn line_ok(v: ShellView, s: Seq<char>) -> bool {
    chars_ok(v, s) && newline_ok(after_chars(v, s))
}

pub open spec fn after_line(v: ShellView, s: Seq<char>) -> ShellView {
    after_newline(after_chars(v, s))
}

/// A backspace steps back one cell, if the cursor is not at the start of the
/// line, and blanks that cell.
pub open spec fn backspace_ok(v: ShellView) -> bool {
    v.cursor_x >= 12 ==> v.cursor_y + 10 <= usize::MAX + 1
}

pub open spec fn after_backspace(v: ShellView) -> ShellView {
    if v.cursor_x >= 12 {
        ShellView {
            fb: v.fb.fill(v.cursor_x - 8, v.cursor_y as int, 8, 10, text_background()),
            cursor_x: (v.cursor_x - 8) as usize,
            text: v.text.remove((v.cursor_x - 8, v.cursor_y as int)),
            ..v
        }
    } else {
        v
    }
}

/// The character a key code stands for: carriage return, backspace, the
/// printable ASCII characters, and NUL for everything else.
pub open spec fn key_char(code: u16) -> char {
    if code == 0x0D {
        '\r'
    } else if code == 0x08 {
        '\u{8}'
    } else if 0x20 <= code <= 0x7E {
        code as char
    } else {
        '\0'
    }
}

/// A key of a line being read can be handled without running off the screen.
pub open spec fn key_ok(v: ShellView, line: Seq<char>, code: u16) -> bool {
    let ch = key_char(code);
    if ch == '\r' {
        newline_ok(v)
    } else if ch == '\u{8}' {
        line.len() > 0 ==> backspace_ok(v)
    } else if ' ' <= ch <= '~' {
        char_ok(v, ch)
    } else {
        true
    }
}

/// A key of a line being read: carriage return ends the line (the cursor
/// goes to the next line); backspace removes the last character, if any,
/// and its cell; a printable character is added and written; other keys do
/// nothing. The first component tells whether the line is complete.
pub open spec fn after_key(v: ShellView, line: Seq<char>, code: u16) -> (bool, ShellView, Seq<char>) {
    let ch = key_char(code);
    if ch == '\r' {
        (true, after_newline(v), line)
    } else if ch == '\u{8}' {
        if line.len() > 0 {
            (false, after_backspace(v), line.drop_last())
        } else {
            (false, v, line)
        }
    } else if ' ' <= ch <= '~' {
        (false, after_char(v, ch), line.push(ch))
    } else {
        (false, v, line)
    }
}

/// The character a key code stands for.
pub fn uefi_to_ascii(code: u16) -> (c: char)
    ensures
        c == key_char(code),
{
    match code {
        0x0D => '\r',
        0x08 => '\u{8}',
        0x20 => ' ',
        0x21..=0x7E => (code as u8) as char,
        _ => '\0',
    }
}

/// Lines written one after the other.
pub open spec fn lines_ok(v: ShellView, lines: Seq<Seq<char>>) -> bool
    decreases lines.len(),
{
    lines.len() == 0 || (line_ok(v, lines[0]) && lines_ok(after_line(v, lines[0]), lines.drop_first()))
}

pub open spec fn after_lines(v: ShellView, lines: Seq<Seq<char>>) -> ShellView
    decreases lines.len(),
{
    if lines.len() == 0 {
        v
    } else {
        after_lines(after_line(v, lines[0]), lines.drop_first())
    }
}

pub open spec fn views(lines: Seq<&str>) -> Seq<Seq<char>> {
    lines.map_values(|l: &str| l@)
}

/// The commands of the text shell.
#[derive(Debug, Clone, Copy, PartialEq, Eq, Structural)]
pub enum TextCommand {
    Help,
    Rect,
    Clear,
    Cls,
    Gui,
    Mouse,
    Shot,
    Exit,
    Empty,
    Unknown,
}

/// The command a line names, ignoring white space around it.
pub open spec fn text_command_of(line: Seq<char>) -> TextCommand {
    let t = trimmed(line);
    if t == "help"@ {
        TextCommand::Help
    } else if t == "rect"@ {
        TextCommand::Rect
    } else if t == "clear"@ {
        TextCommand::Clear
    } else if t == "cls"@ {
        TextCommand::Cls
    } else if t == "gui"@ {
        TextCommand::Gui
    } else if t == "mouse"@ {
        TextCommand::Mouse
    } else if t == "shot"@ {
        TextCommand::Shot
    } else if t == "exit"@ {
        TextCommand::Exit
    } else if t.len() == 0 {
        TextCommand::Empty
    } else {
        TextCommand::Unknown
    }
}

/// What the caller has to do after a command.
#[derive(Debug)]
pub enum ShellAction {
    /// Read the next command.
    Continue,
    /// Save these bytes as "shot.bmp", then read the next command.
    SaveScreenshot(Vec<u8>),
    /// Stop for good.
    Halt,
}

pub open spec fn help_lines() -> Seq<Seq<char>> {
    seq![
        "commands:"@,
        "  help   - this message"@,
        "  rect   - draw random rects"@,
        "  clear  - clear screen"@,
        "  gui    - widget demo"@,
        "  mouse  - mouse init"@,
        "  shot   - screenshot"@,
        "  exit   - halt"@,
    ]
}

pub open spec fn max_u32(a: u32, b: u32) -> u32 {
    if a >= b { a } else { b }
}

/// One step of the linear congruential generator of the rect command:
/// x' = (1103515245 x + 12345) mod 2^31.
pub open spec fn next_rng(r: u32) -> u32 {
    ((1103515245 * r + 12345) % 0x8000_0000) as u32
}

/// The rectangle that the generator value `rng` places, sizes and colours.
pub open spec fn random_rect(v: FrameView, rng: u32) -> (int, int, int, int, Rgb8) {
    let r = rng as int;
    (
        r % max_u32(v.width as u32, 300) as int,
        (r / 256) % max_u32(v.height as u32, 200) as int,
        60 + r % 140,
        40 + r % 100,
        ((r % 256) as u8, (r / 256 % 256) as u8, (r / 65536 % 256) as u8),
    )
}

/// The shell after the generator steps and its rectangle is drawn.
pub open spec fn with_rect(v: ShellView) -> ShellView {
    let r = next_rng(v.rng);
    let (x, y, w, h, c) = random_rect(v.fb, r);
    ShellView { fb: v.fb.fill(x, y, w, h, c), rng: r, ..v }
}

/// The whole screen in background colour, with no text and the cursor in
/// the top left cell.
pub open spec fn cleared(v: ShellView) -> ShellView {
    ShellView {
        fb: v.fb.fill(0, 0, v.fb.width as int, v.fb.height as int, text_background()),
        cursor_x: 4,
        cursor_y: 4,
        rng: v.rng,
        text: Map::empty(),
    }
}

/// The whole screen in background colour, with no text; the cursor stays.
pub open spec fn wiped(v: ShellView) -> ShellView {
    ShellView {
        fb: v.fb.fill(0, 0, v.fb.width as int, v.fb.height as int, text_background()),
        text: Map::empty(),
        ..v
    }
}

/// The command can run without running off the screen or out of memory.
pub open spec fn command_ok(v: ShellView, cmd: TextCommand) -> bool {
    match cmd {
        TextCommand::Help => lines_ok(v, help_lines()),
        TextCommand::Rect => {
            let (x, y, w, h, c) = random_rect(v.fb, next_rng(v.rng));
            &&& x + w <= usize::MAX + 1
            &&& y + h <= usize::MAX + 1
            &&& line_ok(with_rect(v), "rect done"@)
        },
        TextCommand::Clear => true,
        TextCommand::Cls => line_ok(wiped(v), "fb cleared"@),
        TextCommand::Gui => line_ok(v, "Widgets Demo:"@),
        TextCommand::Mouse => line_ok(v, "mouse init done"@),
        TextCommand::Shot => bmp_fits(v.fb) && line_ok(v, "screenshot done"@),
        TextCommand::Exit => line_ok(v, "halting..."@),
        TextCommand::Empty => true,
        TextCommand::Unknown => line_ok(v, "unknown command"@),
    }
}

/// The shell after a command: "help" lists the commands; "rect" steps the
/// generator and draws its rectangle; "clear" clears the screen and homes
/// the cursor; "cls" clears the screen; "gui" draws the demo widgets; "mouse",
/// "shot" and "exit" report what they did; an empty line does nothing and
/// anything else is reported as unknown.
pub open spec fn after_command(v: ShellView, cmd: TextCommand) -> ShellView {
    match cmd {
        TextCommand::Help => after_lines(v, help_lines()),
        TextCommand::Rect => after_line(with_rect(v), "rect done"@),
        TextCommand::Clear => cleared(v),
        TextCommand::Cls => after_line(wiped(v), "fb cleared"@),
        TextCommand::Gui => {
            let u = after_line(v, "Widgets Demo:"@);
            ShellView { fb: demo_picture(u.fb), ..u }
        },
        TextCommand::Mouse => after_line(v, "mouse init done"@),
        TextCommand::Shot => after_line(v, "screenshot done"@),
        TextCommand::Exit => after_line(v, "halting..."@),
        TextCommand::Empty => v,
        TextCommand::Unknown => after_line(v, "unknown command"@),
    }
}

/// The greeting: a cleared screen, three lines and an empty line.
pub open spec fn start_ok(v: ShellView) -> bool {
    &&& lines_ok(cleared(v), banner_lines())
    &&& newline_ok(after_lines(cleared(v), banner_lines()))
}

pub open spec fn after_start(v: ShellView) -> ShellView {
    after_newline(after_lines(cleared(v), banner_lines()))
}

pub open spec fn banner_lines() -> Seq<Seq<char>> {
    seq!["MeowOS Kernel v0.3"@, "100% Rust | no underlying OS"@, "Type 'help' for commands"@]
}

/// The command a line names.
pub fn parse_command(line: &Vec<char>) -> (cmd: TextCommand)
    ensures
        cmd == text_command_of(line@),
{
    let t = trim(line);
    if is_word(&t, "help") {
        TextCommand::Help
    } else if is_word(&t, "rect") {
        TextCommand::Rect
    } else if is_word(&t, "clear") {
        TextCommand::Clear
    } else if is_word(&t, "cls") {
        TextCommand::Cls
    } else if is_word(&t, "gui") {
        TextCommand::Gui
    } else if is_word(&t, "mouse") {
        TextCommand::Mouse
    } else if is_word(&t, "shot") {
        TextCommand::Shot
    } else if is_word(&t, "exit") {
        TextCommand::Exit
    } else if t.len() == 0 {
        TextCommand::Empty
    } else {
        TextCommand::Unknown
    }
}

/// The cursor is on the screen with a whole cell to its right and a whole
/// line below it, and the screen is not so large that coordinates near its
/// edge could overflow.
pub open spec fn sane(v: ShellView) -> bool {
    &&& v.fb.wf()
    &&& 4 <= v.cursor_x
    &&& v.cursor_x + 8 < v.fb.width
    &&& v.fb.width + 256 <= usize::MAX
    &&& 4 <= v.cursor_y
    &&& v.cursor_y + 10 < v.fb.height
    &&& v.fb.height + 256 <= usize::MAX
}

/// A text console drawn on a frame buffer.
pub struct TextShell {
    fb: FrameBuffer,
    cursor_x: usize,
    cursor_y: usize,
    rng: u32,
    text: Ghost<Map<(int, int), char>>,
}

impl View for TextShell {
    type V = ShellView;

    closed spec fn view(&self) -> ShellView {
        ShellView {
            fb: self.fb@,
            cursor_x: self.cursor_x,
            cursor_y: self.cursor_y,
            rng: self.rng,
            text: self.text@,
        }
    }
}

impl TextShell {
    /// A shell on `fb` with the cursor in the top left cell, no text, and
    /// the generator at 1.
    pub fn new(fb: FrameBuffer) -> (sh: Self)
        ensures
            sh@ == (ShellView { fb: fb@, cursor_x: 4, cursor_y: 4, rng: 1, text: Map::empty() }),
    {
        Self { fb, cursor_x: 4, cursor_y: 4, rng: 1, text: Ghost(Map::empty()) }
    }

    /// The screen the shell draws on.
    pub fn framebuffer(&self) -> (fb: &FrameBuffer)
        ensures
            fb@ == self@.fb,
    {
        &self.fb
    }

    /// The cursor: the top left corner of the next character cell.
    pub fn cursor(&self) -> (c: (usize, usize))
        ensures
            c == (self@.cursor_x, self@.cursor_y),
    {
        (self.cursor_x, self.cursor_y)
    }

    /// Clears the screen and its text to the background colour and homes the
    /// cursor.
    pub fn init(&mut self)
        ensures
            final(self)@ == cleared(old(self)@),
    {
        self.fb.clear(10, 10, 10);
        self.text = Ghost(Map::empty());
        self.cursor_x = 4;
        self.cursor_y = 4;
    }

    /// Writes one character: '\n' breaks the line, any other character
    /// takes the current cell. The cursor wraps at the right edge and the
    /// screen scrolls at the bottom.
    pub fn write_char(&mut self, c: char)
        requires
            char_ok(old(self)@, c),
        ensures
            final(self)@ == after_char(old(self)@, c),
    {
        if c == '\n' {
            self.cursor_x = 4;
            self.cursor_y = self.cursor_y + 10;
        } else {
            self.text = Ghost(self.text@.insert((self.cursor_x as int, self.cursor_y as int), c));
            self.cursor_x = self.cursor_x + 8;
        }
        if self.cursor_x + 8 >= self.fb.width() {
            self.cursor_x = 4;
            self.cursor_y = self.cursor_y + 10;
        }
        if self.cursor_y + 10 >= self.fb.height() {
            self.scroll_up();
        }
    }

    /// Steps back one cell and blanks it, unless the cursor is at the start
    /// of the line.
    pub fn backspace(&mut self)
        requires
            backspace_ok(old(self)@),
        ensures
            final(self)@ == after_backspace(old(self)@),
    {
        if self.cursor_x >= 4 + 8 {
            self.cursor_x = self.cursor_x - 8;
            self.text = Ghost(self.text@.remove((self.cursor_x as int, self.cursor_y as int)));
            self.fb.draw_rect(self.cursor_x, self.cursor_y, 8, 10, 10, 10, 10);
        }
    }

    /// Moves the cursor to the start of the next line, scrolling if that line
    /// does not fit.
    pub fn newline(&mut self)
        requires
            newline_ok(old(self)@),
        ensures
            final(self)@ == after_newline(old(self)@),
    {
        self.cursor_x = 4;
        self.cursor_y = self.cursor_y + 10;
        if self.cursor_y + 10 >= self.fb.height() {
            self.scroll_up();
        }
    }

    /// Writes the characters of `s` one after the other.
    pub fn write_str(&mut self, s: &str)
        requires
            chars_ok(old(self)@, s@),
        ensures
            final(self)@ == after_chars(old(self)@, s@),
    {
        let n = s.unicode_len();
        let mut i: usize = 0;
        assert(s@.skip(0) =~= s@);
        while i < n
            invariant
                n == s@.len(),
                i <= n,
                chars_ok(self@, s@.skip(i as int)),
                after_chars(old(self)@, s@) == after_chars(self@, s@.skip(i as int)),
            decreases n - i,
        {
            let c = s.get_char(i);
            proof {
                assert(s@.skip(i as int)[0] == c);
                assert(s@.skip(i as int).drop_first() =~= s@.skip(i + 1));
            }
            self.write_char(c);
            i = i + 1;
        }
        proof {
            assert(s@.skip(n as int) =~= Seq::<char>::empty());
        }
    }

    /// Writes `s`, then breaks the line.
    pub fn write_line(&mut self, s: &str)
        requires
            line_ok(old(self)@, s@),
        ensures
            final(self)@ == after_line(old(self)@, s@),
    {
        self.write_str(s);
        self.newline();
    }

    /// Handles one key of a line being read into `line`; returns whether the
    /// line is complete.
    pub fn on_key(&mut self, line: &mut Vec<char>, code: u16) -> (done: bool)
        requires
            key_ok(old(self)@, old(line)@, code),
        ensures
            (done, final(self)@, final(line)@) == after_key(old(self)@, old(line)@, code),
    {
        let ch = uefi_to_ascii(code);
        if ch == '\r' {
            self.newline();
            return true;
        } else if ch == '\u{8}' {
            if line.len() > 0 {
                line.pop();
                self.backspace();
            }
        } else if ch >= ' ' && ch <= '~' {
            line.push(ch);
            self.write_char(ch);
        }
        false
    }

    /// Writes each line in turn.
    fn write_lines(&mut self, lines: &[&str])
        requires
            lines_ok(old(self)@, views(lines@)),
        ensures
            final(self)@ == after_lines(old(self)@, views(lines@)),
    {
        let ghost all = views(lines@);
        let mut i: usize = 0;
        assert(all.skip(0) =~= all);
        while i < lines.len()
            invariant
                all == views(lines@),
                i <= lines@.len(),
                lines_ok(self@, all.skip(i as int)),
                after_lines(old(self)@, all) == after_lines(self@, all.skip(i as int)),
            decreases lines@.len() - i,
        {
            proof {
                assert(all.skip(i as int)[0] == lines@[i as int]@);
                assert(all.skip(i as int).drop_first() =~= all.skip(i + 1));
            }
            self.write_line(lines[i]);
            i = i + 1;
        }
        proof {
            assert(all.skip(i as int) =~= Seq::<Seq<char>>::empty());
        }
    }

    /// Clears the screen and greets.
    pub fn start(&mut self)
        requires
            start_ok(old(self)@),
        ensures
            final(self)@ == after_start(old(self)@),
    {
        self.init();
        let banner = ["MeowOS Kernel v0.3", "100% Rust | no underlying OS", "Type 'help' for commands"];
        assert(views(banner@) =~= banner_lines());
        self.write_lines(&banner);
        self.newline();
    }

    /// Shows the prompt.
    pub fn prompt(&mut self)
        requires
            chars_ok(old(self)@, "mewos> "@),
        ensures
            final(self)@ == after_chars(old(self)@, "mewos> "@),
    {
        self.write_str("mewos> ");
    }

    /// Runs the command that `line` names, and says what the caller has to
    /// do next. "shot" hands back the BMP image of the screen as it was
    /// before the command's own line was written.
    pub fn run_command(&mut self, line: &Vec<char>) -> (action: ShellAction)
        requires
            command_ok(old(self)@, text_command_of(line@)),
        ensures
            final(self)@ == after_command(old(self)@, text_command_of(line@)),
            text_command_of(line@) == TextCommand::Shot <==> action is SaveScreenshot,
            text_command_of(line@) == TextCommand::Exit <==> action is Halt,
            action matches ShellAction::SaveScreenshot(bytes) ==> is_bmp_of(bytes@, old(self)@.fb),
    {
        let cmd = parse_command(line);
        match cmd {
            TextCommand::Help => {
                let help = [
                    "commands:",
                    "  help   - this message",
                    "  rect   - draw random rects",
                    "  clear  - clear screen",
                    "  gui    - widget demo",
                    "  mouse  - mouse init",
                    "  shot   - screenshot",
                    "  exit   - halt",
                ];
                assert(views(help@) =~= help_lines());
                self.write_lines(&help);
                ShellAction::Continue
            },
            TextCommand::Rect => {
                let rng = ((self.rng as u64 * 1103515245 + 12345) % 0x8000_0000) as u32;
                self.rng = rng;
                let rx = (rng % (self.fb.width() as u32).max(300)) as usize;
                let ry = ((rng >> 8) % (self.fb.height() as u32).max(200)) as usize;
                let r_ = (rng & 0xFF) as u8;
                let g_ = ((rng >> 8) & 0xFF) as u8;
                let b_ = ((rng >> 16) & 0xFF) as u8;
                proof {
                    assert(rng >> 8 == rng / 256) by (bit_vector);
                    assert(rng & 0xFF == rng % 256) by (bit_vector);
                    assert((rng >> 8) & 0xFF == rng / 256 % 256) by (bit_vector);
                    assert((rng >> 16) & 0xFF == rng / 65536 % 256) by (bit_vector);
                }
                self.fb.draw_rect(rx, ry, 60 + (rng % 140) as usize, 40 + (rng % 100) as usize, r_, g_, b_);
                self.write_line("rect done");
                ShellAction::Continue
            },
            TextCommand::Clear => {
                self.init();
                ShellAction::Continue
            },
            TextCommand::Cls => {
                self.fb.clear(10, 10, 10);
                self.text = Ghost(Map::empty());
                self.write_line("fb cleared");
                ShellAction::Continue
            },
            TextCommand::Gui => {
                self.write_line("Widgets Demo:");
                draw_demo(&mut self.fb);
                ShellAction::Continue
            },
            TextCommand::Mouse => {
                let _ = init_mouse();
                self.write_line("mouse init done");
                ShellAction::Continue
            },
            TextCommand::Shot => {
                let bytes = screenshot_bmp(&self.fb);
                self.write_line("screenshot done");
                ShellAction::SaveScreenshot(bytes)
            },
            TextCommand::Exit => {
                self.write_line("halting...");
                ShellAction::Halt
            },
            TextCommand::Empty => ShellAction::Continue,
            TextCommand::Unknown => {
                self.write_line("unknown command");
                ShellAction::Continue
            },
        }
    }

    /// Whether `on_key` may be called for this key of this line.
    pub fn key_fits(&self, line: &Vec<char>, code: u16) -> (b: bool)
        ensures
            b == key_ok(self@, line@, code),
    {
        let ch = uefi_to_ascii(code);
        let w = self.fb.width();
        let h = self.fb.height();
        if ch == '\r' {
            self.cursor_y <= usize::MAX - 20 && (self.cursor_y + 20 < h || h >= 10)
        } else if ch == '\u{8}' {
            line.len() == 0 || self.cursor_x < 12 || self.cursor_y <= usize::MAX - 9
        } else if ch >= ' ' && ch <= '~' {
            if self.cursor_x > usize::MAX - 16 {
                return false;
            }
            let cx1 = self.cursor_x + 8;
            let cy2: usize = if cx1 + 8 >= w {
                if self.cursor_y > usize::MAX - 10 {
                    return false;
                }
                self.cursor_y + 10
            } else {
                self.cursor_y
            };
            cy2 <= usize::MAX - 10 && (cy2 + 10 < h || (h >= 10 && cy2 >= 10))
        } else {
            true
        }
    }

    /// Whether `prompt` may be called now.
    pub fn prompt_fits(&self) -> (b: bool)
        ensures
            b == chars_ok(self@, "mewos> "@),
    {
        chars_fit(self.fb.width(), self.fb.height(), self.cursor_x, self.cursor_y, "mewos> ", Ghost(self@)).is_some()
    }

    /// Whether `start` may be called now.
    pub fn start_fits(&self) -> (b: bool)
        ensures
            b == start_ok(self@),
    {
        let w = self.fb.width();
        let h = self.fb.height();
        let banner = ["MeowOS Kernel v0.3", "100% Rust | no underlying OS", "Type 'help' for commands"];
        assert(views(banner@) =~= banner_lines());
        match lines_fit(w, h, 4, 4, &banner, Ghost(cleared(self@))) {
            None => false,
            Some((_, y)) => y <= usize::MAX - 20 && (y + 20 < h || h >= 10),
        }
    }

    /// Whether the rect command may run now.
    fn rect_fits(&self) -> (b: bool)
        ensures
            b == command_ok(self@, TextCommand::Rect),
    {
        let w = self.fb.width();
        let h = self.fb.height();
        let rng = ((self.rng as u64 * 1103515245 + 12345) % 0x8000_0000) as u32;
        assert(rng == next_rng(self@.rng));
        let (rx, ry, rw, rh) = rect_numbers(w, h, rng, Ghost(self@.fb));
        if rx + rw - 1 > usize::MAX as u64 || ry + rh - 1 > usize::MAX as u64 {
            return false;
        }
        line_fit(w, h, self.cursor_x, self.cursor_y, "rect done", Ghost(with_rect(self@))).is_some()
    }

    /// Whether `run_command` may be called now for `line`.
    pub fn command_fits(&self, line: &Vec<char>) -> (b: bool)
        ensures
            b == command_ok(self@, text_command_of(line@)),
    {
        let w = self.fb.width();
        let h = self.fb.height();
        let cx = self.cursor_x;
        let cy = self.cursor_y;
        match parse_command(line) {
            TextCommand::Help => {
                let help = [
                    "commands:",
                    "  help   - this message",
                    "  rect   - draw random rects",
                    "  clear  - clear screen",
                    "  gui    - widget demo",
                    "  mouse  - mouse init",
                    "  shot   - screenshot",
                    "  exit   - halt",
                ];
                assert(views(help@) =~= help_lines());
                lines_fit(w, h, cx, cy, &help, Ghost(self@)).is_some()
            },
            TextCommand::Rect => self.rect_fits(),
            TextCommand::Clear => true,
            TextCommand::Cls => line_fit(w, h, cx, cy, "fb cleared", Ghost(wiped(self@))).is_some(),
            TextCommand::Gui => line_fit(w, h, cx, cy, "Widgets Demo:", Ghost(self@)).is_some(),
            TextCommand::Mouse => line_fit(w, h, cx, cy, "mouse init done", Ghost(self@)).is_some(),
            TextCommand::Shot => screenshot_fits(&self.fb) && line_fit(
                w,
                h,
                cx,
                cy,
                "screenshot done",
                Ghost(self@),
            ).is_some(),
            TextCommand::Exit => line_fit(w, h, cx, cy, "halting...", Ghost(self@)).is_some(),
            TextCommand::Empty => true,
            TextCommand::Unknown => line_fit(w, h, cx, cy, "unknown command", Ghost(self@)).is_some(),
        }
    }

    /// Whether the shell is in the state from which no operation can run off
    /// the screen (see `lemma_sane_command`).
    pub fn fits(&self) -> (b: bool)
        ensures
            b == sane(self@),
    {
        let w = self.fb.width();
        let h = self.fb.height();
        w <= usize::MAX - 256 && h <= usize::MAX - 256 && self.cursor_x >= 4 && w > 8 && self.cursor_x < w
            - 8 && self.cursor_y >= 4 && h > 10 && self.cursor_y < h - 10
    }

    /// Moves the whole screen up by ten pixels and blanks the bottom ten
    /// lines; the cursor moves up with the text.
    fn scroll_up(&mut self)
        requires
            old(self)@.fb.height >= 10,
            old(self)@.cursor_y >= 10,
        ensures
            final(self)@ == scroll_view(old(self)@, old(self)@.cursor_x, (old(self)@.cursor_y - 10) as usize),
    {
        let ghost v = self.fb@;
        let w = self.fb.width();
        let h = self.fb.height();
        proof {
            lemma_repaint_nothing(v, shift_upto(v, 0, 0));
        }
        for y in 0..h - 10
            invariant
                self.fb@ == v.repaint(shift_upto(v, y as int, 0)),
                w == v.width,
                h == v.height,
                v.wf(),
                v == old(self)@.fb,
                self.cursor_x == old(self).cursor_x,
                self.cursor_y == old(self).cursor_y,
                self.rng == old(self).rng,
                self.text == old(self).text,
                h >= 10,
        {
            for x in 0..w
                invariant
                    self.fb@ == v.repaint(shift_upto(v, y as int, x as int)),
                    w == v.width,
                    h == v.height,
                    v.wf(),
                    v == old(self)@.fb,
                    self.cursor_x == old(self).cursor_x,
                    self.cursor_y == old(self).cursor_y,
                    self.rng == old(self).rng,
                    self.text == old(self).text,
                    y < h - 10,
            {
                let ghost done = shift_upto(v, y as int, x as int);
                proof {
                    lemma_read_after_repaint(v, done, x as int, y + 10);
                }
                let (r, g, b) = self.fb.read_pixel(x, y + 10);
                self.fb.draw_pixel(x, y, r, g, b);
                proof {
                    let pt = rect_paint(x as int, y as int, 1, 1, (r, g, b));
                    lemma_repaint_twice(v, done, pt);
                    lemma_repaint_same(v, overlay(done, pt), shift_upto(v, y as int, x + 1));
                }
            }
            proof {
                lemma_repaint_same(v, shift_upto(v, y as int, w as int), shift_upto(v, y + 1, 0));
            }
        }
        proof {
            lemma_repaint_same(v, shift_upto(v, h - 10, 0), blank_upto(v, h - 10, 0));
        }
        for y in h - 10..h
            invariant
                self.fb@ == v.repaint(blank_upto(v, y as int, 0)),
                w == v.width,
                h == v.height,
                v.wf(),
                v == old(self)@.fb,
                self.cursor_x == old(self).cursor_x,
                self.cursor_y == old(self).cursor_y,
                self.rng == old(self).rng,
                self.text == old(self).text,
                h >= 10,
                y >= h - 10,
        {
            for x in 0..w
                invariant
                    self.fb@ == v.repaint(blank_upto(v, y as int, x as int)),
                    w == v.width,
                    h == v.height,
                    v.wf(),
                    v == old(self)@.fb,
                    self.cursor_x == old(self).cursor_x,
                    self.cursor_y == old(self).cursor_y,
                    self.rng == old(self).rng,
                    self.text == old(self).text,
                    h - 10 <= y < h,
            {
                let ghost done = blank_upto(v, y as int, x as int);
                self.fb.draw_pixel(x, y, 10, 10, 10);
                proof {
                    let pt = rect_paint(x as int, y as int, 1, 1, text_background());
                    lemma_repaint_twice(v, done, pt);
                    lemma_repaint_same(v, overlay(done, pt), blank_upto(v, y as int, x + 1));
                }
            }
            proof {
                lemma_repaint_same(v, blank_upto(v, y as int, w as int), blank_upto(v, y + 1, 0));
            }
        }
        proof {
            lemma_repaint_same(v, blank_upto(v, h as int, 0), scroll_paint(v));
        }
        self.cursor_y = self.cursor_y - 10;
        self.text = Ghost(scrolled_text(self.text@));
    }
}


/// The position and size of the rectangle that the generator value `rng`
/// places on a screen of `w` by `h` pixels.
fn rect_numbers(w: usize, h: usize, rng: u32, Ghost(fb): Ghost<FrameView>) -> (r: (u64, u64, u64, u64))
    requires
        fb.width == w,
        fb.height == h,
    ensures
        r.0 == random_rect(fb, rng).0,
        r.1 == random_rect(fb, rng).1,
        r.2 == random_rect(fb, rng).2,
        r.3 == random_rect(fb, rng).3,
        r.0 < 0x1_0000_0000,
        r.1 < 0x1_0000_0000,
        60 <= r.2 < 200,
        40 <= r.3 < 140,
{
    let rx = rng % (w as u32).max(300);
    let ry = (rng >> 8) % (h as u32).max(200);
    proof {
        assert(rng >> 8 == rng / 256) by (bit_vector);
    }
    (rx as u64, ry as u64, 60 + (rng % 140) as u64, 40 + (rng % 100) as u64)
}

/// Where the cursor goes when `c` is written from the cursor of `v`, or
/// `None` where that would run off the screen; the arguments are the screen
/// size and cursor of `v`.
fn char_fit(w: usize, h: usize, cx: usize, cy: usize, c: char, Ghost(v): Ghost<ShellView>) -> (r: Option<(usize, usize)>)
    requires
        v.fb.width == w,
        v.fb.height == h,
        v.cursor_x == cx,
        v.cursor_y == cy,
    ensures
        r is Some <==> char_ok(v, c),
        r matches Some(p) ==> p == (after_char(v, c).cursor_x, after_char(v, c).cursor_y),
        after_char(v, c).fb.width == w,
        after_char(v, c).fb.height == h,
{
    let (cx1, cy1) = if c == '\n' {
        if cy > usize::MAX - 10 {
            return None;
        }
        (4usize, cy + 10)
    } else {
        if cx > usize::MAX - 16 {
            return None;
        }
        (cx + 8, cy)
    };
    let (cx2, cy2) = if cx1 + 8 >= w {
        if cy1 > usize::MAX - 10 {
            return None;
        }
        (4usize, cy1 + 10)
    } else {
        (cx1, cy1)
    };
    if cy2 > usize::MAX - 10 {
        return None;
    }
    if cy2 + 10 >= h {
        if h < 10 || cy2 < 10 {
            return None;
        }
        Some((cx2, cy2 - 10))
    } else {
        Some((cx2, cy2))
    }
}

/// Where the cursor goes when `s` is written from the cursor of `v`, or
/// `None` where that would run off the screen.
fn chars_fit(w: usize, h: usize, cx: usize, cy: usize, s: &str, Ghost(v): Ghost<ShellView>) -> (r: Option<(usize, usize)>)
    requires
        v.fb.width == w,
        v.fb.height == h,
        v.cursor_x == cx,
        v.cursor_y == cy,
    ensures
        r is Some <==> chars_ok(v, s@),
        r matches Some(p) ==> p == (after_chars(v, s@).cursor_x, after_chars(v, s@).cursor_y),
        r is Some ==> after_chars(v, s@).fb.width == w,
        r is Some ==> after_chars(v, s@).fb.height == h,
{
    let n = s.unicode_len();
    let mut i: usize = 0;
    let mut x = cx;
    let mut y = cy;
    let ghost mut cur = v;
    assert(s@.skip(0) =~= s@);
    while i < n
        invariant
            n == s@.len(),
            i <= n,
            cur.fb.width == w,
            cur.fb.height == h,
            cur.cursor_x == x,
            cur.cursor_y == y,
            chars_ok(v, s@) == chars_ok(cur, s@.skip(i as int)),
            after_chars(v, s@) == after_chars(cur, s@.skip(i as int)),
        decreases n - i,
    {
        let c = s.get_char(i);
        proof {
            assert(s@.skip(i as int)[0] == c);
            assert(s@.skip(i as int).drop_first() =~= s@.skip(i + 1));
        }
        match char_fit(w, h, x, y, c, Ghost(cur)) {
            None => return None,
            Some((x2, y2)) => {
                x = x2;
                y = y2;
            },
        }
        proof {
            cur = after_char(cur, c);
        }
        i = i + 1;
    }
    proof {
        assert(s@.skip(n as int) =~= Seq::<char>::empty());
    }
    Some((x, y))
}

/// Where the cursor goes when `s` is written as a line from the cursor of
/// `v`, or `None` where that would run off the screen.
fn line_fit(w: usize, h: usize, cx: usize, cy: usize, s: &str, Ghost(v): Ghost<ShellView>) -> (r: Option<(usize, usize)>)
    requires
        v.fb.width == w,
        v.fb.height == h,
        v.cursor_x == cx,
        v.cursor_y == cy,
    ensures
        r is Some <==> line_ok(v, s@),
        r matches Some(p) ==> p == (after_line(v, s@).cursor_x, after_line(v, s@).cursor_y),
        r is Some ==> after_line(v, s@).fb.width == w,
        r is Some ==> after_line(v, s@).fb.height == h,
{
    let (x, y) = match chars_fit(w, h, cx, cy, s, Ghost(v)) {
        None => return None,
        Some(p) => p,
    };
    if y > usize::MAX - 20 {
        return None;
    }
    if y + 20 >= h {
        if h < 10 {
            return None;
        }
        Some((4, y))
    } else {
        Some((4, y + 10))
    }
}

/// Where the cursor goes when `lines` are written from the cursor of `v`,
/// or `None` where that would run off the screen.
fn lines_fit(w: usize, h: usize, cx: usize, cy: usize, lines: &[&str], Ghost(v): Ghost<ShellView>) -> (r: Option<(usize, usize)>)
    requires
        v.fb.width == w,
        v.fb.height == h,
        v.cursor_x == cx,
        v.cursor_y == cy,
    ensures
        r is Some <==> lines_ok(v, views(lines@)),
        r matches Some(p) ==> p == (after_lines(v, views(lines@)).cursor_x, after_lines(v, views(lines@)).cursor_y),
        r is Some ==> after_lines(v, views(lines@)).fb.width == w,
        r is Some ==> after_lines(v, views(lines@)).fb.height == h,
{
    let ghost all = views(lines@);
    let mut i: usize = 0;
    let mut x = cx;
    let mut y = cy;
    let ghost mut cur = v;
    assert(all.skip(0) =~= all);
    while i < lines.len()
        invariant
            all == views(lines@),
            i <= lines@.len(),
            cur.fb.width == w,
            cur.fb.height == h,
            cur.cursor_x == x,
            cur.cursor_y == y,
            lines_ok(v, all) == lines_ok(cur, all.skip(i as int)),
            after_lines(v, all) == after_lines(cur, all.skip(i as int)),
        decreases lines@.len() - i,
    {
        proof {
            assert(all.skip(i as int)[0] == lines@[i as int]@);
            assert(all.skip(i as int).drop_first() =~= all.skip(i + 1));
        }
        match line_fit(w, h, x, y, lines[i], Ghost(cur)) {
            None => return None,
            Some((x2, y2)) => {
                x = x2;
                y = y2;
            },
        }
        proof {
            cur = after_line(cur, lines@[i as int]@);
        }
        i = i + 1;
    }
    proof {
        assert(all.skip(i as int) =~= Seq::<Seq<char>>::empty());
    }
    Some((x, y))
}

} // verus!

verus! {

/// Scrolling keeps the geometry of the screen.
pub proof fn lemma_scrolled_wf(v: FrameView)
    requires
        v.wf(),
    ensures
        scrolled(v).wf(),
        scrolled(v).width == v.width,
        scrolled(v).height == v.height,
{
    lemma_read_after_repaint(v, scroll_paint(v), 0, 0);
}

/// Scrolling moves the picture up by ten pixels: every pixel above the
/// bottom ten lines shows what the pixel ten lines below it showed, and the
/// bottom ten lines show the background.
pub proof fn lemma_read_after_scroll(v: FrameView, px: int, py: int)
    requires
        v.wf(),
        is_drawable(v.format),
        v.on_screen(px, py),
    ensures
        py < v.height - 10 ==> scrolled(v).read(px, py) == v.read(px, py + 10),
        py >= v.height - 10 ==> scrolled(v).read(px, py) == text_background(),
{
    lemma_read_after_repaint(v, scroll_paint(v), px, py);
}

/// From a sane state every character can be written, and the state stays sane.
pub proof fn lemma_sane_char(v: ShellView, c: char)
    requires
        sane(v),
    ensures
        char_ok(v, c),
        sane(after_char(v, c)),
{
    lemma_scrolled_wf(v.fb);
}

/// From a sane state a line break can be made, and the state stays sane.
pub proof fn lemma_sane_newline(v: ShellView)
    requires
        sane(v),
    ensures
        newline_ok(v),
        sane(after_newline(v)),
{
    lemma_scrolled_wf(v.fb);
}

/// From a sane state a backspace can be made, and the state stays sane.
pub proof fn lemma_sane_backspace(v: ShellView)
    requires
        sane(v),
    ensures
        backspace_ok(v),
        sane(after_backspace(v)),
{
    if v.cursor_x >= 12 {
        lemma_read_after_repaint(v.fb, rect_paint(v.cursor_x - 8, v.cursor_y as int, 8, 10, text_background()), 0, 0);
    }
}

/// From a sane state any string can be written, and the state stays sane.
pub proof fn lemma_sane_chars(v: ShellView, s: Seq<char>)
    requires
        sane(v),
    ensures
        chars_ok(v, s),
        sane(after_chars(v, s)),
    decreases s.len(),
{
    if s.len() > 0 {
        lemma_sane_char(v, s[0]);
        lemma_sane_chars(after_char(v, s[0]), s.drop_first());
    }
}

/// From a sane state any line can be written, and the state stays sane.
pub proof fn lemma_sane_line(v: ShellView, s: Seq<char>)
    requires
        sane(v),
    ensures
        line_ok(v, s),
        sane(after_line(v, s)),
{
    lemma_sane_chars(v, s);
    lemma_sane_newline(after_chars(v, s));
}

/// From a sane state any lines can be written, and the state stays sane.
pub proof fn lemma_sane_lines(v: ShellView, lines: Seq<Seq<char>>)
    requires
        sane(v),
    ensures
        lines_ok(v, lines),
        sane(after_lines(v, lines)),
    decreases lines.len(),
{
    if lines.len() > 0 {
        lemma_sane_chars(v, lines[0]);
        lemma_sane_newline(after_chars(v, lines[0]));
        lemma_sane_lines(after_line(v, lines[0]), lines.drop_first());
    }
}

/// From a sane state every key of a line being read can be handled, and the
/// state stays sane.
pub proof fn lemma_sane_key(v: ShellView, line: Seq<char>, code: u16)
    requires
        sane(v),
    ensures
        key_ok(v, line, code),
        sane(after_key(v, line, code).1),
{
    lemma_sane_newline(v);
    lemma_sane_backspace(v);
    lemma_sane_char(v, key_char(code));
}

/// The screen of a sane shell is large enough for its BMP image to fit in memory.
pub proof fn lemma_sane_bmp_fits(v: ShellView)
    requires
        sane(v),
    ensures
        bmp_fits(v.fb),
{
    let w = v.fb.width as int;
    let h = v.fb.height as int;
    let st = v.fb.stride as int;
    let row = (w * 3 + 3) / 4 * 4;
    assert(row <= w * 3 + 3);
    assert(row * h + 54 <= st * h * 4) by (nonlinear_arith)
        requires
            row <= w * 3 + 3,
            0 <= row,
            13 <= w <= st,
            15 <= h,
    ;
    assert(w * 3 + 3 <= st * h * 4) by (nonlinear_arith)
        requires
            13 <= w <= st,
            15 <= h,
    ;
}

/// From a sane state every command of the text shell can run, and the
/// state stays sane: the cursor never leaves the screen.
pub proof fn lemma_sane_command(v: ShellView, cmd: TextCommand)
    requires
        sane(v),
    ensures
        command_ok(v, cmd),
        sane(after_command(v, cmd)),
{
    match cmd {
        TextCommand::Help => lemma_sane_lines(v, help_lines()),
        TextCommand::Rect => {
            let (x, y, w, h, c) = random_rect(v.fb, next_rng(v.rng));
            let width = v.fb.width;
            let height = v.fb.height;
            assert((width as u32) as usize <= width) by (bit_vector);
            assert((height as u32) as usize <= height) by (bit_vector);
            lemma_read_after_repaint(v.fb, rect_paint(x, y, w, h, c), 0, 0);
            lemma_sane_line(with_rect(v), "rect done"@);
        },
        TextCommand::Clear => {
            lemma_read_after_repaint(
                v.fb,
                rect_paint(0, 0, v.fb.width as int, v.fb.height as int, text_background()),
                0,
                0,
            );
        },
        TextCommand::Cls => {
            lemma_read_after_repaint(
                v.fb,
                rect_paint(0, 0, v.fb.width as int, v.fb.height as int, text_background()),
                0,
                0,
            );
            lemma_sane_line(wiped(v), "fb cleared"@);
        },
        TextCommand::Gui => {
            lemma_sane_line(v, "Widgets Demo:"@);
            lemma_demo_keeps_geometry(after_line(v, "Widgets Demo:"@).fb);
        },
        TextCommand::Empty => {},
        _ => {
            lemma_sane_bmp_fits(v);
            lemma_sane_line(v, "mouse init done"@);
            lemma_sane_line(v, "screenshot done"@);
            lemma_sane_line(v, "halting..."@);
            lemma_sane_line(v, "unknown command"@);
        },
    }
}

/// A freshly made shell on a screen of at least 13 x 15 pixels (and not
/// within 256 of the largest `usize`) is sane, and so is the shell after
/// greeting.
pub proof fn lemma_sane_start(v: ShellView)
    requires
        v.fb.wf(),
        12 < v.fb.width,
        v.fb.width + 256 <= usize::MAX,
        14 < v.fb.height,
        v.fb.height + 256 <= usize::MAX,
    ensures
        start_ok(v),
        sane(after_start(v)),
{
    lemma_read_after_repaint(v.fb, rect_paint(0, 0, v.fb.width as int, v.fb.height as int, text_background()), 0, 0);
    lemma_sane_lines(cleared(v), banner_lines());
    lemma_sane_newline(after_lines(cleared(v), banner_lines()));
}

/// Every printable ASCII key, digits and punctuation included, is typed: it
/// does not end the line, the line grows by exactly that character, and the
/// character is written as `write_char` writes it.
pub proof fn lemma_printable_key_typed(v: ShellView, line: Seq<char>, code: u16)
    requires
        0x20 <= code <= 0x7E,
    ensures
        !after_key(v, line, code).0,
        after_key(v, line, code).2 == line.push(code as char),
        after_key(v, line, code).2.len() == line.len() + 1,
        after_key(v, line, code).1 == after_char(v, code as char),
        key_char(code) == code as char,
{
}

/// The other keys: carriage return ends the line as it is and breaks the
/// line on the screen; backspace takes the last character off a non-empty
/// line and blanks its cell, and does nothing on an empty one; any other key
/// that is not printable ASCII changes nothing.
pub proof fn lemma_control_keys(v: ShellView, line: Seq<char>, code: u16)
    requires
        !(0x20 <= code <= 0x7E),
    ensures
        code == 0x0D ==> after_key(v, line, code) == (true, after_newline(v), line),
        code == 0x08 && line.len() > 0 ==> after_key(v, line, code) == (false, after_backspace(v), line.drop_last()),
        code == 0x08 && line.len() == 0 ==> after_key(v, line, code) == (false, v, line),
        code != 0x0D && code != 0x08 ==> after_key(v, line, code) == (false, v, line),
{
}

} // verus!


