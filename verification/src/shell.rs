use vstd::prelude::*;
use crate::framebuffer::{FrameBuffer, FrameView, Rgb8};
use crate::gui::{demo_picture, draw_demo};
use crate::mouse::init_mouse;
use crate::screenshot::{bmp_fits, is_bmp_of, screenshot_bmp, screenshot_fits};
use crate::text::{is_word, trimmed};

verus! {

/// Capacity of the line buffer, in characters.
pub const LINE_CAPACITY: usize = 256;

/// What the console shows for a key of a line being read.
#[derive(Debug, Clone, Copy, PartialEq, Eq, Structural)]
pub enum KeyEcho {
    /// Nothing is shown.
    Nothing,
    /// The character is shown.
    Echo(char),
    /// The last character shown is erased.
    Erase,
    /// The line is complete; the console moves to the next line.
    EndLine,
}

/// The commands of the console shell.
#[derive(Debug, Clone, Copy, PartialEq, Eq, Structural)]
pub enum ConsoleCommand {
    Help,
    Rect,
    Clear,
    Cls,
    Gui,
    Mouse,
    Shot,
    Exit,
    Empty,
    Unknown,
}

/// What the caller has to do after a command, besides printing its lines.
#[derive(Debug)]
pub enum ConsoleAction {
    Nothing,
    /// Reset and clear the text console.
    ResetConsole,
    /// Save these bytes as "shot.bmp" and print `screenshot_reply` of the outcome.
    Screenshot(Vec<u8>),
    /// Stop for good.
    Halt,
}

/// The lines a command prints, and what the caller has to do next.
#[derive(Debug)]
pub struct ConsoleReply {
    pub lines: Vec<&'static str>,
    pub action: ConsoleAction,
}

/// The state of the console shell: the line being read (as UTF-16 units),
/// how many characters it has, and how many rectangles have been drawn.
#[verifier::ext_equal]
pub struct ConsoleView {
    pub buf: Seq<u16>,
    pub pos: usize,
    pub rect_count: u32,
}

/// A printable ASCII character's code.
pub open spec fn printable(code: u16) -> bool {
    0x20 <= code <= 0x7E
}

/// A key of a line being read (`pos` below the capacity): carriage return
/// ends the line, backspace drops the last character if there is one, a
/// printable character is stored; anything else is ignored.
pub open spec fn after_key(v: ConsoleView, code: u16) -> (KeyEcho, ConsoleView) {
    if code == 0x0D {
        (KeyEcho::EndLine, v)
    } else if code == 0x08 {
        if v.pos > 0 {
            (KeyEcho::Erase, ConsoleView { pos: (v.pos - 1) as usize, ..v })
        } else {
            (KeyEcho::Nothing, v)
        }
    } else if printable(code) {
        (KeyEcho::Echo(code as char), ConsoleView { buf: v.buf.update(v.pos as int, code), pos: (v.pos + 1) as usize, ..v })
    } else {
        (KeyEcho::Nothing, v)
    }
}

/// The characters of the line read so far.
pub open spec fn line_chars(v: ConsoleView) -> Seq<char> {
    Seq::new(v.pos as nat, |j: int| v.buf[j] as char)
}

/// The command a line names, ignoring white space around it.
pub open spec fn console_command_of(line: Seq<char>) -> ConsoleCommand {
    let t = trimmed(line);
    if t == "help"@ {
        ConsoleCommand::Help
    } else if t == "rect"@ {
        ConsoleCommand::Rect
    } else if t == "clear"@ {
        ConsoleCommand::Clear
    } else if t == "cls"@ {
        ConsoleCommand::Cls
    } else if t == "gui"@ {
        ConsoleCommand::Gui
    } else if t == "mouse"@ {
        ConsoleCommand::Mouse
    } else if t == "shot"@ {
        ConsoleCommand::Shot
    } else if t == "exit"@ {
        ConsoleCommand::Exit
    } else if t.len() == 0 {
        ConsoleCommand::Empty
    } else {
        ConsoleCommand::Unknown
    }
}

/// The n-th rectangle of the rect command: its position cycles through the
/// screen (at least 300 x 200) in steps of 73 and 137 pixels, its size and
/// colour are taken from `n` too.
pub open spec fn nth_rect(fb: FrameView, n: u32) -> (int, int, int, int, Rgb8) {
    let wx: int = if (fb.width as u32) >= 300 { (fb.width as u32) as int } else { 300 };
    let hy: int = if (fb.height as u32) >= 200 { (fb.height as u32) as int } else { 200 };
    (
        (n * 73) % wx,
        (n * 137) % hy,
        40 + (n * 47) % 120,
        30 + (n * 91) % 80,
        ((n % 256) as u8, (n / 16 % 256) as u8, (n / 256 % 256) as u8),
    )
}

pub open spec fn help_text() -> Seq<&'static str> {
    seq![
        "  commands:",
        "    help   - this message",
        "    rect   - draw random rects",
        "    clear  - clear text console",
        "    cls    - clear framebuffer",
        "    gui    - show widget demo",
        "    mouse  - mouse status",
        "    shot   - save screenshot",
        "    exit   - halt",
    ]
}

/// The command can run: the rectangle counter does not overflow and the
/// rectangle's coordinates fit; the screenshot fits in memory.
pub open spec fn console_command_ok(v: ConsoleView, fb: FrameView, cmd: ConsoleCommand) -> bool {
    match cmd {
        ConsoleCommand::Rect => {
            let n = if v.rect_count == u32::MAX { 0u32 } else { (v.rect_count + 1) as u32 };
            let (x, y, w, h, c) = nth_rect(fb, n);
            &&& n * 137 <= u32::MAX
            &&& x + w <= usize::MAX + 1
            &&& y + h <= usize::MAX + 1
        },
        ConsoleCommand::Shot => bmp_fits(fb),
        _ => true,
    }
}

/// The screen after a command: "rect" draws the next rectangle, "cls"
/// clears the screen to black, "gui" draws the demo widgets.
pub open spec fn console_picture(v: ConsoleView, fb: FrameView, cmd: ConsoleCommand) -> FrameView {
    match cmd {
        ConsoleCommand::Rect => {
            let n = if v.rect_count == u32::MAX { 0u32 } else { (v.rect_count + 1) as u32 };
            let (x, y, w, h, c) = nth_rect(fb, n);
            fb.fill(x, y, w, h, c)
        },
        ConsoleCommand::Cls => fb.fill(0, 0, fb.width as int, fb.height as int, (0, 0, 0)),
        ConsoleCommand::Gui => demo_picture(fb),
        _ => fb,
    }
}

/// The lines a command prints.
pub open spec fn console_lines(cmd: ConsoleCommand) -> Seq<&'static str> {
    match cmd {
        ConsoleCommand::Help => help_text(),
        ConsoleCommand::Rect => seq!["  rect done"],
        ConsoleCommand::Cls => seq!["  fb cleared"],
        ConsoleCommand::Gui => seq!["  gui demo drawn"],
        ConsoleCommand::Mouse => seq!["  mouse stubbed"],
        ConsoleCommand::Exit => seq!["  halting..."],
        ConsoleCommand::Unknown => seq!["  unknown command"],
        _ => Seq::empty(),
    }
}

pub open spec fn console_wf(v: ConsoleView) -> bool {
    &&& v.buf.len() == LINE_CAPACITY
    &&& v.pos <= LINE_CAPACITY
    &&& forall|i: int| 0 <= i < LINE_CAPACITY ==> #[trigger] v.buf[i] == 0 || printable(v.buf[i])
}

/// A line-reading console shell.
pub struct ConsoleShell {
    buf: Vec<u16>,
    pos: usize,
    rect_count: u32,
}

impl View for ConsoleShell {
    type V = ConsoleView;

    closed spec fn view(&self) -> ConsoleView {
        ConsoleView { buf: self.buf@, pos: self.pos, rect_count: self.rect_count }
    }
}

impl ConsoleShell {
    /// The line buffer holds 256 units, each zero or printable, and the line
    /// length is within it.
    pub open spec fn wf(&self) -> bool {
        console_wf(self@)
    }

    pub fn new() -> (sh: Self)
        ensures
            sh@ == (ConsoleView { buf: Seq::new(256, |i: int| 0u16), pos: 0, rect_count: 0 }),
            sh.wf(),
    {
        let buf = vec![0u16; LINE_CAPACITY];
        assert(buf@ =~= Seq::new(256, |i: int| 0u16));
        Self { buf, pos: 0, rect_count: 0 }
    }

    /// The greeting, line by line.
    pub fn banner() -> (lines: Vec<&'static str>)
        ensures
            lines@ == seq!["MewoOS Kernel v0.2", "100% Rust | no underlying OS", "Type 'help' for commands\r\n"],
    {
        vec!["MewoOS Kernel v0.2", "100% Rust | no underlying OS", "Type 'help' for commands\r\n"]
    }

    /// The prompt shown before each line.
    pub fn prompt() -> (p: &'static str)
        ensures
            p == "mewos> ",
    {
        "mewos> "
    }

    /// Starts reading a new line.
    pub fn begin_line(&mut self)
        requires
            old(self).wf(),
        ensures
            final(self)@ == (ConsoleView { pos: 0, ..old(self)@ }),
            final(self).wf(),
    {
        self.pos = 0;
    }

    /// The line has reached the capacity of the buffer; it is complete.
    pub fn line_full(&self) -> (b: bool)
        ensures
            b == (self@.pos >= LINE_CAPACITY),
    {
        self.pos >= LINE_CAPACITY
    }

    /// Handles one key of the line being read.
    pub fn on_key(&mut self, code: u16) -> (echo: KeyEcho)
        requires
            old(self).wf(),
            old(self)@.pos < LINE_CAPACITY,
        ensures
            (echo, final(self)@) == after_key(old(self)@, code),
            final(self).wf(),
    {
        if code == 0x0D {
            KeyEcho::EndLine
        } else if code == 0x08 {
            if self.pos > 0 {
                self.pos = self.pos - 1;
                KeyEcho::Erase
            } else {
                KeyEcho::Nothing
            }
        } else if code >= 0x20 && code <= 0x7E {
            let ch = (code as u8) as char;
            self.buf[self.pos] = code;
            self.pos = self.pos + 1;
            KeyEcho::Echo(ch)
        } else {
            KeyEcho::Nothing
        }
    }

    /// The characters of the line read so far.
    pub fn line(&self) -> (line: Vec<char>)
        requires
            self.wf(),
        ensures
            line@ == line_chars(self@),
    {
        let mut line: Vec<char> = Vec::new();
        let mut j: usize = 0;
        while j < self.pos
            invariant
                j <= self.pos <= LINE_CAPACITY,
                self.buf@.len() == LINE_CAPACITY,
                forall|i: int| 0 <= i < LINE_CAPACITY ==> #[trigger] self.buf@[i] == 0 || printable(self.buf@[i]),
                line@ == line_chars(self@).take(j as int),
            decreases self.pos - j,
        {
            let code = self.buf[j];
            let ch = (code as u8) as char;
            line.push(ch);
            proof {
                assert(line_chars(self@).take(j + 1) =~= line_chars(self@).take(j as int).push(ch));
            }
            j = j + 1;
        }
        assert(line_chars(self@).take(j as int) =~= line_chars(self@));
        line
    }
}

/// The rectangle counter after a rect command.
pub open spec fn next_count(v: ConsoleView) -> u32 {
    if v.rect_count == u32::MAX {
        0u32
    } else {
        (v.rect_count + 1) as u32
    }
}

impl ConsoleShell {
    /// Whether the command that `line` names can run on `fb`, so that
    /// `execute` may be called.
    pub fn can_execute(&self, line: &Vec<char>, fb: &FrameBuffer) -> (b: bool)
        ensures
            b == console_command_ok(self@, fb@, console_command_of(line@)),
    {
        match parse_console_command(line) {
            ConsoleCommand::Rect => {
                let n = self.rect_count.wrapping_add(1);
                if n.checked_mul(137).is_none() {
                    return false;
                }
                let rx = (n * 73) % (fb.width() as u32).max(300);
                let ry = (n * 137) % (fb.height() as u32).max(200);
                let w = 40 + (n * 47) % 120;
                let h = 30 + (n * 91) % 80;
                (rx as usize).checked_add((w - 1) as usize).is_some() && (ry as usize).checked_add(
                    (h - 1) as usize,
                ).is_some()
            },
            ConsoleCommand::Shot => screenshot_fits(fb),
            _ => true,
        }
    }

    /// Runs the command that `line` names on the screen `fb`, and gives the
    /// lines to print and what to do next.
    pub fn execute(&mut self, line: &Vec<char>, fb: &mut FrameBuffer) -> (reply: ConsoleReply)
        requires
            old(self).wf(),
            console_command_ok(old(self)@, old(fb)@, console_command_of(line@)),
        ensures
            final(self).wf(),
            final(fb)@ == console_picture(old(self)@, old(fb)@, console_command_of(line@)),
            reply.lines@ == console_lines(console_command_of(line@)),
            final(self)@ == (if console_command_of(line@) == ConsoleCommand::Rect {
                ConsoleView { rect_count: next_count(old(self)@), ..old(self)@ }
            } else {
                old(self)@
            }),
            console_command_of(line@) == ConsoleCommand::Clear <==> reply.action is ResetConsole,
            console_command_of(line@) == ConsoleCommand::Shot <==> reply.action is Screenshot,
            console_command_of(line@) == ConsoleCommand::Exit <==> reply.action is Halt,
            reply.action matches ConsoleAction::Screenshot(bytes) ==> is_bmp_of(bytes@, old(fb)@),
    {
        let cmd = parse_console_command(line);
        match cmd {
            ConsoleCommand::Help => {
                let lines = vec![
                    "  commands:",
                    "    help   - this message",
                    "    rect   - draw random rects",
                    "    clear  - clear text console",
                    "    cls    - clear framebuffer",
                    "    gui    - show widget demo",
                    "    mouse  - mouse status",
                    "    shot   - save screenshot",
                    "    exit   - halt",
                ];
                ConsoleReply { lines, action: ConsoleAction::Nothing }
            },
            ConsoleCommand::Rect => {
                self.rect_count = self.rect_count.wrapping_add(1);
                let rc = self.rect_count;
                let rx = (rc * 73) % (fb.width() as u32).max(300);
                let ry = (rc * 137) % (fb.height() as u32).max(200);
                let r_ = (rc & 0xFF) as u8;
                let g_ = ((rc >> 4) & 0xFF) as u8;
                let b_ = ((rc >> 8) & 0xFF) as u8;
                proof {
                    assert(rc & 0xFF == rc % 256) by (bit_vector);
                    assert((rc >> 4) & 0xFF == rc / 16 % 256) by (bit_vector);
                    assert((rc >> 8) & 0xFF == rc / 256 % 256) by (bit_vector);
                }
                fb.draw_rect(
                    rx as usize,
                    ry as usize,
                    40 + ((rc * 47) % 120) as usize,
                    30 + ((rc * 91) % 80) as usize,
                    r_,
                    g_,
                    b_,
                );
                ConsoleReply { lines: vec!["  rect done"], action: ConsoleAction::Nothing }
            },
            ConsoleCommand::Clear => ConsoleReply { lines: Vec::new(), action: ConsoleAction::ResetConsole },
            ConsoleCommand::Cls => {
                fb.clear(0, 0, 0);
                ConsoleReply { lines: vec!["  fb cleared"], action: ConsoleAction::Nothing }
            },
            ConsoleCommand::Gui => {
                draw_demo(fb);
                ConsoleReply { lines: vec!["  gui demo drawn"], action: ConsoleAction::Nothing }
            },
            ConsoleCommand::Mouse => {
                let lines = match init_mouse() {
                    Some(_) => vec!["  mouse stubbed"],
                    None => vec!["  mouse init failed"],
                };
                ConsoleReply { lines, action: ConsoleAction::Nothing }
            },
            ConsoleCommand::Shot => {
                let bytes = screenshot_bmp(fb);
                ConsoleReply { lines: Vec::new(), action: ConsoleAction::Screenshot(bytes) }
            },
            ConsoleCommand::Exit => ConsoleReply { lines: vec!["  halting..."], action: ConsoleAction::Halt },
            ConsoleCommand::Empty => ConsoleReply { lines: Vec::new(), action: ConsoleAction::Nothing },
            ConsoleCommand::Unknown => ConsoleReply {
                lines: vec!["  unknown command"],
                action: ConsoleAction::Nothing,
            },
        }
    }
}

/// The command a line names.
pub fn parse_console_command(line: &Vec<char>) -> (cmd: ConsoleCommand)
    ensures
        cmd == console_command_of(line@),
{
    let t = crate::text::trim(line);
    if is_word(&t, "help") {
        ConsoleCommand::Help
    } else if is_word(&t, "rect") {
        ConsoleCommand::Rect
    } else if is_word(&t, "clear") {
        ConsoleCommand::Clear
    } else if is_word(&t, "cls") {
        ConsoleCommand::Cls
    } else if is_word(&t, "gui") {
        ConsoleCommand::Gui
    } else if is_word(&t, "mouse") {
        ConsoleCommand::Mouse
    } else if is_word(&t, "shot") {
        ConsoleCommand::Shot
    } else if is_word(&t, "exit") {
        ConsoleCommand::Exit
    } else if t.len() == 0 {
        ConsoleCommand::Empty
    } else {
        ConsoleCommand::Unknown
    }
}

/// What to print once the screenshot has been saved, or has failed.
pub fn screenshot_reply(saved: bool) -> (line: &'static str)
    ensures
        line == (if saved { "  saved shot.bmp" } else { "  screenshot failed" }),
{
    if saved {
        "  saved shot.bmp"
    } else {
        "  screenshot failed"
    }
}

/// Every printable ASCII key, digits and punctuation included, is echoed and
/// stored: the line grows by exactly that character, the rest of it stays.
pub proof fn lemma_console_printable_key(v: ConsoleView, code: u16)
    requires
        console_wf(v),
        v.pos < LINE_CAPACITY,
        0x20 <= code <= 0x7E,
    ensures
        after_key(v, code).0 == KeyEcho::Echo(code as char),
        line_chars(after_key(v, code).1) == line_chars(v).push(code as char),
        console_wf(after_key(v, code).1),
        after_key(v, code).1.rect_count == v.rect_count,
{
    assert(line_chars(after_key(v, code).1) =~= line_chars(v).push(code as char));
}

/// The other keys: carriage return ends the line as it is; backspace drops
/// the last character of a non-empty line and does nothing on an empty one;
/// any other key that is not printable ASCII is ignored.
pub proof fn lemma_console_control_keys(v: ConsoleView, code: u16)
    requires
        console_wf(v),
        !(0x20 <= code <= 0x7E),
    ensures
        code == 0x0D ==> after_key(v, code) == (KeyEcho::EndLine, v),
        code == 0x08 && v.pos > 0 ==> after_key(v, code).0 == KeyEcho::Erase && line_chars(after_key(v, code).1)
            == line_chars(v).drop_last(),
        code == 0x08 && v.pos == 0 ==> after_key(v, code) == (KeyEcho::Nothing, v),
        code != 0x0D && code != 0x08 ==> after_key(v, code) == (KeyEcho::Nothing, v),
{
    if code == 0x08 && v.pos > 0 {
        assert(line_chars(after_key(v, code).1) =~= line_chars(v).drop_last());
    }
}

} // verus!
