use vstd::prelude::*;
use crate::framebuffer::{FrameBuffer, FrameView, Rgb8, is_drawable, lemma_read_after_fill};
use crate::gui::on_border;

verus! {

/// A rectangle on the screen: its top left corner and its size.
#[derive(Debug, Clone, Copy, PartialEq, Eq, Structural)]
pub struct Rect {
    pub x: usize,
    pub y: usize,
    pub w: usize,
    pub h: usize,
}

impl Rect {
    /// The point lies in the rectangle (in unbounded arithmetic).
    pub open spec fn holds(self, px: int, py: int) -> bool {
        self.x <= px < self.x + self.w && self.y <= py < self.y + self.h
    }
}

#[derive(Debug, Clone, Copy, PartialEq, Eq, Structural)]
pub struct Color {
    pub r: u8,
    pub g: u8,
    pub b: u8,
}

impl Color {
    pub open spec fn rgb8(self) -> Rgb8 {
        (self.r, self.g, self.b)
    }

    pub fn rgb(r: u8, g: u8, b: u8) -> (c: Self)
        ensures
            c == (Color { r, g, b }),
    {
        Self { r, g, b }
    }

    pub fn white() -> (c: Self)
        ensures
            c == (Color { r: 255, g: 255, b: 255 }),
    {
        Self::rgb(255, 255, 255)
    }

    pub fn black() -> (c: Self)
        ensures
            c == (Color { r: 0, g: 0, b: 0 }),
    {
        Self::rgb(0, 0, 0)
    }

    pub fn gray() -> (c: Self)
        ensures
            c == (Color { r: 128, g: 128, b: 128 }),
    {
        Self::rgb(128, 128, 128)
    }

    pub fn dark_gray() -> (c: Self)
        ensures
            c == (Color { r: 64, g: 64, b: 64 }),
    {
        Self::rgb(64, 64, 64)
    }

    pub fn blue() -> (c: Self)
        ensures
            c == (Color { r: 0, g: 120, b: 215 }),
    {
        Self::rgb(0, 120, 215)
    }
}

/// A window: an identifier, where it is, its title and whether it has the focus.
#[derive(Debug, Clone, Copy)]
pub struct Window {
    pub id: u32,
    pub rect: Rect,
    pub title: &'static str,
    pub focused: bool,
    pub color: Color,
}

/// Left edge of the close button, 18 pixels in from the right edge.
pub open spec fn close_button_x(win: Window) -> int {
    win.rect.x + win.rect.w - 18
}

/// Top edge of the close button, 4 pixels below the top edge.
pub open spec fn close_button_y(win: Window) -> int {
    win.rect.y + 4
}

/// The point lies on the 14 x 14 close button.
pub open spec fn on_close_button(win: Window, x: int, y: int) -> bool {
    close_button_x(win) <= x < close_button_x(win) + 14 && close_button_y(win) <= y
        < close_button_y(win) + 14
}

/// The point lies on the 20 pixel high title bar.
pub open spec fn on_title_bar(win: Window, x: int, y: int) -> bool {
    win.rect.x <= x < win.rect.x + win.rect.w && win.rect.y <= y < win.rect.y + 20
}

impl Window {
    pub fn new(id: u32, x: usize, y: usize, w: usize, h: usize, title: &'static str, color: Color) -> (win:
        Self)
        ensures
            win == (Window { id, rect: Rect { x, y, w, h }, title, focused: false, color }),
    {
        Self { id, rect: Rect { x, y, w, h }, title, focused: false, color }
    }

    /// The point lies in the window.
    pub fn contains(&self, x: usize, y: usize) -> (b: bool)
        ensures
            b == self.rect.holds(x as int, y as int),
    {
        x >= self.rect.x && x - self.rect.x < self.rect.w && y >= self.rect.y && y - self.rect.y
            < self.rect.h
    }

    /// The point lies on the close button in the top right corner.
    pub fn close_button_hit(&self, x: usize, y: usize) -> (b: bool)
        ensures
            b == on_close_button(*self, x as int, y as int),
    {
        let right = self.rect.x as u128 + self.rect.w as u128;
        let top = self.rect.y as u128;
        let px = x as u128;
        let py = y as u128;
        px + 18 >= right && px + 4 < right && py >= top + 4 && py < top + 18
    }

    /// The point lies on the title bar.
    pub fn title_bar_hit(&self, x: usize, y: usize) -> (b: bool)
        ensures
            b == on_title_bar(*self, x as int, y as int),
    {
        x >= self.rect.x && x - self.rect.x < self.rect.w && y >= self.rect.y && y - self.rect.y < 20
    }

    /// Every coordinate that drawing the window computes fits in `usize`.
    pub open spec fn can_draw(self) -> bool {
        &&& 18 <= self.rect.x + self.rect.w <= usize::MAX
        &&& 1 <= self.rect.y + self.rect.h <= usize::MAX
        &&& self.rect.y + 17 <= usize::MAX
        &&& self.focused ==> self.rect.y + 20 <= usize::MAX
    }

    /// The picture after drawing the window on `v`: the body, the frame, the
    /// close button with its cross. Titles are not rendered: this frame buffer
    /// has no glyph renderer.
    pub open spec fn picture(self, v: FrameView) -> FrameView {
        let x = self.rect.x as int;
        let y = self.rect.y as int;
        let w = self.rect.w as int;
        let h = self.rect.h as int;
        let white: Rgb8 = (255, 255, 255);
        let edge: Rgb8 = (80, 80, 80);
        let bg: Rgb8 = if self.focused { self.color.rgb8() } else { (64, 64, 64) };
        let body = v.fill(x, y, w, h, bg);
        let top = if self.focused {
            body.fill(x, y, w, 1, (0, 120, 215)).fill(x, y + 20, w, 1, (60, 60, 60))
        } else {
            body.fill(x, y, w, 1, edge)
        };
        let framed = top.fill(x, y, 1, h, edge).fill(x + w - 1, y, 1, h, edge).fill(x, y + h - 1, w, 1, edge);
        let bx = x + w - 18;
        let by = y + 4;
        let button = framed.fill(bx, by, 14, 14, (200, 50, 50)).fill(bx, by, 14, 1, white).fill(bx, by, 1, 14, white).fill(
            bx + 13,
            by,
            1,
            14,
            white,
        ).fill(bx, by + 13, 14, 1, white);
        let cx = bx + 5;
        let cy = by + 3;
        button.fill(cx, cy, 1, 1, white).fill(cx + 1, cy + 1, 1, 1, white).fill(cx + 2, cy + 2, 1, 1, white).fill(
            cx + 2,
            cy + 3,
            1,
            1,
            white,
        ).fill(cx + 1, cy + 4, 1, 1, white).fill(cx, cy + 5, 1, 1, white).fill(cx + 3, cy + 4, 1, 1, white).fill(
            cx + 4,
            cy + 3,
            1,
            1,
            white,
        ).fill(cx + 5, cy + 2, 1, 1, white).fill(cx + 6, cy + 1, 1, 1, white)
    }

    /// Draws the window.
    pub fn draw(&self, fb: &mut FrameBuffer)
        requires
            self.can_draw(),
        ensures
            final(fb)@ == self.picture(old(fb)@),
    {
        let bg = if self.focused { self.color } else { Color::dark_gray() };
        let bar_h: usize = 20;
        let x = self.rect.x;
        let y = self.rect.y;
        let w = self.rect.w;
        let h = self.rect.h;

        fb.draw_rect(x, y, w, h, bg.r, bg.g, bg.b);

        if self.focused {
            fb.draw_rect(x, y, w, 1, Color::blue().r, Color::blue().g, Color::blue().b);
            fb.draw_rect(x, y + bar_h, w, 1, 60, 60, 60);
        } else {
            fb.draw_rect(x, y, w, 1, 80, 80, 80);
        }

        fb.draw_rect(x, y, 1, h, 80, 80, 80);
        fb.draw_rect(x + w - 1, y, 1, h, 80, 80, 80);
        fb.draw_rect(x, y + h - 1, w, 1, 80, 80, 80);

        let btn_x = x + w - 18;
        let btn_y = y + 4;
        fb.draw_rect(btn_x, btn_y, 14, 14, 200, 50, 50);
        fb.draw_rect(btn_x, btn_y, 14, 1, 255, 255, 255);
        fb.draw_rect(btn_x, btn_y, 1, 14, 255, 255, 255);
        fb.draw_rect(btn_x + 13, btn_y, 1, 14, 255, 255, 255);
        fb.draw_rect(btn_x, btn_y + 13, 14, 1, 255, 255, 255);

        let cx = btn_x + 5;
        let cy = btn_y + 3;
        fb.draw_pixel(cx, cy, 255, 255, 255);
        fb.draw_pixel(cx + 1, cy + 1, 255, 255, 255);
        fb.draw_pixel(cx + 2, cy + 2, 255, 255, 255);
        fb.draw_pixel(cx + 2, cy + 3, 255, 255, 255);
        fb.draw_pixel(cx + 1, cy + 4, 255, 255, 255);
        fb.draw_pixel(cx, cy + 5, 255, 255, 255);
        fb.draw_pixel(cx + 3, cy + 4, 255, 255, 255);
        fb.draw_pixel(cx + 4, cy + 3, 255, 255, 255);
        fb.draw_pixel(cx + 5, cy + 2, 255, 255, 255);
        fb.draw_pixel(cx + 6, cy + 1, 255, 255, 255);
    }
}


/// The number of window slots.
pub const MAX_WINDOWS: usize = 8;

/// The first index whose element satisfies `p` (meaningful when there is one).
pub open spec fn first_index<A>(s: Seq<A>, p: spec_fn(A) -> bool) -> int {
    choose|i: int| 0 <= i < s.len() && p(s[i]) && forall|k: int| 0 <= k < i ==> !p(#[trigger] s[k])
}

/// The last index whose element satisfies `p` (meaningful when there is one).
pub open spec fn last_index<A>(s: Seq<A>, p: spec_fn(A) -> bool) -> int {
    choose|i: int| 0 <= i < s.len() && p(s[i]) && forall|k: int| i < k < s.len() ==> !p(#[trigger] s[k])
}

pub open spec fn some_index<A>(s: Seq<A>, p: spec_fn(A) -> bool) -> bool {
    exists|i: int| 0 <= i < s.len() && #[trigger] p(s[i])
}

pub proof fn lemma_first_index<A>(s: Seq<A>, p: spec_fn(A) -> bool, i: int)
    requires
        0 <= i < s.len(),
        p(s[i]),
        forall|k: int| 0 <= k < i ==> !p(#[trigger] s[k]),
    ensures
        first_index(s, p) == i,
        some_index(s, p),
{
    let j = first_index(s, p);
    assert(0 <= i < s.len() && p(s[i]) && forall|k: int| 0 <= k < i ==> !p(#[trigger] s[k]));
    if j < i {
        assert(!p(s[j]));
    }
    if j > i {
        assert(!p(s[i]));
    }
}

/// When some element satisfies `p`, `first_index` names the first of them.
pub proof fn lemma_first_index_exists<A>(s: Seq<A>, p: spec_fn(A) -> bool)
    requires
        some_index(s, p),
    ensures
        0 <= first_index(s, p) < s.len(),
        p(s[first_index(s, p)]),
        forall|k: int| 0 <= k < first_index(s, p) ==> !p(#[trigger] s[k]),
{
    let i = choose|i: int| 0 <= i < s.len() && #[trigger] p(s[i]);
    lemma_first_below(s, p, i);
}

proof fn lemma_first_below<A>(s: Seq<A>, p: spec_fn(A) -> bool, i: int)
    requires
        0 <= i < s.len(),
        p(s[i]),
    ensures
        0 <= first_index(s, p) < s.len(),
        p(s[first_index(s, p)]),
        forall|k: int| 0 <= k < first_index(s, p) ==> !p(#[trigger] s[k]),
    decreases i,
{
    if exists|k: int| 0 <= k < i && #[trigger] p(s[k]) {
        let k = choose|k: int| 0 <= k < i && #[trigger] p(s[k]);
        lemma_first_below(s, p, k);
    } else {
        lemma_first_index(s, p, i);
    }
}

/// When some element satisfies `p`, `last_index` names the last of them.
pub proof fn lemma_last_index_exists<A>(s: Seq<A>, p: spec_fn(A) -> bool)
    requires
        some_index(s, p),
    ensures
        0 <= last_index(s, p) < s.len(),
        p(s[last_index(s, p)]),
        forall|k: int| last_index(s, p) < k < s.len() ==> !p(#[trigger] s[k]),
{
    let i = choose|i: int| 0 <= i < s.len() && #[trigger] p(s[i]);
    lemma_last_above(s, p, i);
}

proof fn lemma_last_above<A>(s: Seq<A>, p: spec_fn(A) -> bool, i: int)
    requires
        0 <= i < s.len(),
        p(s[i]),
    ensures
        0 <= last_index(s, p) < s.len(),
        p(s[last_index(s, p)]),
        forall|k: int| last_index(s, p) < k < s.len() ==> !p(#[trigger] s[k]),
    decreases s.len() - i,
{
    if exists|k: int| i < k < s.len() && #[trigger] p(s[k]) {
        let k = choose|k: int| i < k < s.len() && #[trigger] p(s[k]);
        lemma_last_above(s, p, k);
    } else {
        lemma_last_index(s, p, i);
    }
}

pub proof fn lemma_last_index<A>(s: Seq<A>, p: spec_fn(A) -> bool, i: int)
    requires
        0 <= i < s.len(),
        p(s[i]),
        forall|k: int| i < k < s.len() ==> !p(#[trigger] s[k]),
    ensures
        last_index(s, p) == i,
        some_index(s, p),
{
    let j = last_index(s, p);
    assert(0 <= i < s.len() && p(s[i]) && forall|k: int| i < k < s.len() ==> !p(#[trigger] s[k]));
    if j < i {
        assert(!p(s[i]));
    }
    if j > i {
        assert(!p(s[j]));
    }
}

/// The slot holds the window with this id.
pub open spec fn holds_id(id: u32) -> spec_fn(Option<Window>) -> bool {
    |slot: Option<Window>| slot matches Some(w) && w.id == id
}

/// The slot is free.
pub open spec fn is_free() -> spec_fn(Option<Window>) -> bool {
    |slot: Option<Window>| slot is None
}

/// The slot holds a window that contains the point.
pub open spec fn hit_by(x: int, y: int) -> spec_fn(Option<Window>) -> bool {
    |slot: Option<Window>| slot matches Some(w) && w.rect.holds(x, y)
}

pub open spec fn with_focus(w: Window, focused: bool) -> Window {
    Window { id: w.id, rect: w.rect, title: w.title, focused, color: w.color }
}

pub open spec fn moved_to(w: Window, x: usize, y: usize) -> Window {
    Window { id: w.id, rect: Rect { x, y, w: w.rect.w, h: w.rect.h }, title: w.title, focused: w.focused, color: w.color }
}

/// Every window is focused exactly when it has this id.
pub open spec fn refocus(s: Seq<Option<Window>>, id: u32) -> Seq<Option<Window>> {
    Seq::new(
        s.len(),
        |j: int|
            match s[j] {
                Some(w) => Some(with_focus(w, w.id == id)),
                None => None,
            },
    )
}

/// The first slot holding the window with this id is emptied, if there is one.
pub open spec fn close_in(s: Seq<Option<Window>>, id: u32) -> Seq<Option<Window>> {
    if some_index(s, holds_id(id)) {
        s.update(first_index(s, holds_id(id)), None)
    } else {
        s
    }
}

/// The window in the first slot holding this id is moved to (`x`, `y`), if there is one.
pub open spec fn move_in(s: Seq<Option<Window>>, id: u32, x: usize, y: usize) -> Seq<Option<Window>> {
    if some_index(s, holds_id(id)) {
        let i = first_index(s, holds_id(id));
        s.update(i, Some(moved_to(s[i]->0, x, y)))
    } else {
        s
    }
}

/// Where a drag that grabbed at (`start_x`, `start_y`) a window then at
/// (`orig_x`, `orig_y`) puts it when the pointer is at (`x`, `y`): moving left
/// or up of the grab point counts as not moving.
pub open spec fn drag_target(grab: (u32, usize, usize, usize, usize), x: usize, y: usize) -> (int, int) {
    let (id, start_x, start_y, orig_x, orig_y) = grab;
    (
        orig_x + if x >= start_x { x - start_x } else { 0 },
        orig_y + if y >= start_y { y - start_y } else { 0 },
    )
}

/// The counter is nonzero, the identifiers of the windows are nonzero, below
/// `next_id` and distinct, and at most one window has the focus.
pub open spec fn slots_wf(s: Seq<Option<Window>>, next_id: u32) -> bool {
    &&& 0 < next_id
    &&& forall|i: int| 0 <= i < s.len() && #[trigger] s[i] is Some ==> 0 < s[i]->0.id < next_id
    &&& forall|i: int, j: int|
        0 <= i < s.len() && 0 <= j < s.len() && i != j && #[trigger] s[i] is Some && #[trigger] s[j] is Some
            ==> s[i]->0.id != s[j]->0.id
    &&& forall|i: int, j: int|
        0 <= i < s.len() && 0 <= j < s.len() && i != j && #[trigger] s[i] is Some && #[trigger] s[j] is Some
            ==> !(s[i]->0.focused && s[j]->0.focused)
}

/// Putting an unfocused window with a fresh identifier in a free slot keeps
/// the slots well formed, with the counter one past the new identifier.
pub proof fn lemma_insert_fresh(s: Seq<Option<Window>>, i: int, win: Window)
    requires
        slots_wf(s, win.id),
        0 <= i < s.len(),
        s[i] is None,
        !win.focused,
        0 < win.id < u32::MAX,
    ensures
        slots_wf(s.update(i, Some(win)), (win.id + 1) as u32),
{
    let t = s.update(i, Some(win));
    assert forall|a: int, b: int|
        0 <= a < t.len() && 0 <= b < t.len() && a != b && #[trigger] t[a] is Some && #[trigger] t[b] is Some
            implies t[a]->0.id != t[b]->0.id && !(t[a]->0.focused && t[b]->0.focused) by {
        if a != i && b != i {
            assert(s[a] is Some && s[b] is Some);
        } else if a == i {
            assert(s[b] is Some);
        } else {
            assert(s[a] is Some);
        }
    }
    assert forall|a: int| 0 <= a < t.len() && #[trigger] t[a] is Some implies 0 < t[a]->0.id < win.id + 1 by {
        if a != i {
            assert(s[a] is Some);
        }
    }
}

/// The picture after drawing the windows of the first `n` slots in order.
pub open spec fn windows_picture(s: Seq<Option<Window>>, v: FrameView, n: int) -> FrameView
    decreases n,
{
    if n <= 0 {
        v
    } else {
        let before = windows_picture(s, v, n - 1);
        match s[n - 1] {
            Some(w) => w.picture(before),
            None => before,
        }
    }
}

/// Up to eight windows, the next identifier to hand out, and the drag in
/// progress: the window's id, where it was grabbed and where it was then.
pub struct WindowManager {
    pub windows: [Option<Window>; 8],
    pub next_id: u32,
    pub drag: Option<(u32, usize, usize, usize, usize)>,
}

impl WindowManager {
    /// The identifiers of the windows are nonzero, below `next_id` and
    /// distinct, and at most one window has the focus.
    pub open spec fn wf(&self) -> bool {
        slots_wf(self.windows@, self.next_id)
    }

    pub fn new() -> (wm: Self)
        ensures
            wm.windows@ == Seq::new(8, |i: int| None::<Window>),
            wm.next_id == 1,
            wm.drag is None,
            wm.wf(),
    {
        let wm = Self { windows: [None, None, None, None, None, None, None, None], next_id: 1, drag: None };
        assert(wm.windows@ =~= Seq::new(8, |i: int| None::<Window>));
        wm
    }

    /// Every window is given the focus exactly when it has this id.
    pub fn focus(&mut self, id: u32)
        ensures
            final(self).windows@ == refocus(old(self).windows@, id),
            final(self).next_id == old(self).next_id,
            final(self).drag == old(self).drag,
            old(self).wf() ==> final(self).wf(),
    {
        let ghost s = self.windows@;
        let mut i: usize = 0;
        while i < MAX_WINDOWS
            invariant
                i <= MAX_WINDOWS,
                s == old(self).windows@,
                self.next_id == old(self).next_id,
                self.drag == old(self).drag,
                self.windows@.len() == 8,
                forall|j: int| 0 <= j < i ==> self.windows@[j] == refocus(s, id)[j],
                forall|j: int| i <= j < 8 ==> self.windows@[j] == s[j],
            decreases MAX_WINDOWS - i,
        {
            if let Some(mut win) = self.windows[i] {
                win.focused = win.id == id;
                self.windows[i] = Some(win);
            }
            i = i + 1;
        }
        assert(self.windows@ =~= refocus(s, id));
    }

    /// Empties the first slot that holds the window with this id.
    pub fn close(&mut self, id: u32)
        ensures
            final(self).windows@ == close_in(old(self).windows@, id),
            final(self).next_id == old(self).next_id,
            final(self).drag == old(self).drag,
            old(self).wf() ==> final(self).wf(),
    {
        let ghost s = self.windows@;
        let mut i: usize = 0;
        while i < MAX_WINDOWS
            invariant
                i <= MAX_WINDOWS,
                s == old(self).windows@,
                self.windows@ == s,
                self.next_id == old(self).next_id,
                self.drag == old(self).drag,
                s.len() == 8,
                forall|k: int| 0 <= k < i ==> !holds_id(id)(#[trigger] s[k]),
            decreases MAX_WINDOWS - i,
        {
            if let Some(win) = self.windows[i] {
                if win.id == id {
                    self.windows[i] = None;
                    proof {
                        lemma_first_index(s, holds_id(id), i as int);
                        assert(self.windows@ =~= close_in(s, id));
                    }
                    return;
                }
            }
            i = i + 1;
        }
        assert(!some_index(s, holds_id(id)));
    }

    /// Draws every window, from the first slot to the last, so that later
    /// slots are drawn on top.
    pub fn draw_all(&self, fb: &mut FrameBuffer)
        requires
            forall|i: int| 0 <= i < 8 && #[trigger] self.windows@[i] is Some ==> self.windows@[i]->0.can_draw(),
        ensures
            final(fb)@ == windows_picture(self.windows@, old(fb)@, 8),
    {
        let mut i: usize = 0;
        while i < MAX_WINDOWS
            invariant
                i <= MAX_WINDOWS,
                self.windows@.len() == 8,
                forall|k: int| 0 <= k < 8 && #[trigger] self.windows@[k] is Some ==> self.windows@[k]->0.can_draw(),
                fb@ == windows_picture(self.windows@, old(fb)@, i as int),
            decreases MAX_WINDOWS - i,
        {
            if let Some(win) = &self.windows[i] {
                win.draw(fb);
            }
            i = i + 1;
        }
    }

    /// Puts a new window, with the next identifier, in the first free slot and
    /// gives it the focus; returns its identifier, or 0 when every slot is
    /// taken. The identifier counter advances either way.
    pub fn add(&mut self, x: usize, y: usize, w: usize, h: usize, title: &'static str, color: Color) -> (id: u32)
        requires
            old(self).next_id < u32::MAX,
        ensures
            final(self).next_id == old(self).next_id + 1,
            final(self).drag == old(self).drag,
            some_index(old(self).windows@, is_free()) ==> {
                &&& id == old(self).next_id
                &&& final(self).windows@ == refocus(
                    old(self).windows@.update(
                        first_index(old(self).windows@, is_free()),
                        Some(Window { id, rect: Rect { x, y, w, h }, title, focused: false, color }),
                    ),
                    id,
                )
            },
            !some_index(old(self).windows@, is_free()) ==> id == 0 && final(self).windows@ == old(self).windows@,
            old(self).wf() ==> final(self).wf(),
    {
        let ghost s = self.windows@;
        let id = self.next_id;
        self.next_id = self.next_id + 1;
        let mut i: usize = 0;
        while i < MAX_WINDOWS
            invariant
                i <= MAX_WINDOWS,
                s == old(self).windows@,
                self.windows@ == s,
                id == old(self).next_id,
                id < u32::MAX,
                self.next_id == old(self).next_id + 1,
                self.drag == old(self).drag,
                s.len() == 8,
                forall|k: int| 0 <= k < i ==> !is_free()(#[trigger] s[k]),
                old(self).wf() ==> slots_wf(s, id),
            decreases MAX_WINDOWS - i,
        {
            if self.windows[i].is_none() {
                let win = Window::new(id, x, y, w, h, title, color);
                self.windows[i] = Some(win);
                proof {
                    if old(self).wf() {
                        lemma_insert_fresh(s, i as int, win);
                    }
                    lemma_first_index(s, is_free(), i as int);
                }
                self.focus(id);
                return id;
            }
            i = i + 1;
        }
        assert(!some_index(s, is_free()));
        0
    }

    /// A click: the topmost window under the point gets the focus; a click on
    /// its close button closes it, any other click on it starts dragging it.
    /// A click on no window changes nothing.
    pub fn handle_click(&mut self, x: usize, y: usize)
        ensures
            final(self).next_id == old(self).next_id,
            ({
                let s = old(self).windows@;
                if some_index(s, hit_by(x as int, y as int)) {
                    let win = s[last_index(s, hit_by(x as int, y as int))]->0;
                    if on_close_button(win, x as int, y as int) {
                        &&& final(self).windows@ == close_in(refocus(s, win.id), win.id)
                        &&& final(self).drag == old(self).drag
                    } else {
                        &&& final(self).windows@ == refocus(s, win.id)
                        &&& final(self).drag == Some((win.id, x, y, win.rect.x, win.rect.y))
                    }
                } else {
                    &&& final(self).windows@ == s
                    &&& final(self).drag == old(self).drag
                }
            }),
            old(self).wf() ==> final(self).wf(),
    {
        let ghost s = self.windows@;
        let mut i: usize = MAX_WINDOWS;
        while i > 0
            invariant
                i <= MAX_WINDOWS,
                s == old(self).windows@,
                self.windows@ == s,
                self.next_id == old(self).next_id,
                self.drag == old(self).drag,
                s.len() == 8,
                forall|k: int| i <= k < 8 ==> !hit_by(x as int, y as int)(#[trigger] s[k]),
            decreases i,
        {
            i = i - 1;
            if let Some(win) = self.windows[i] {
                if win.contains(x, y) {
                    proof {
                        lemma_last_index(s, hit_by(x as int, y as int), i as int);
                    }
                    self.focus(win.id);
                    if win.close_button_hit(x, y) {
                        self.close(win.id);
                        return;
                    }
                    self.drag = Some((win.id, x, y, win.rect.x, win.rect.y));
                    return;
                }
            }
        }
        assert(!some_index(s, hit_by(x as int, y as int)));
    }

    /// Moves the window being dragged so that it keeps its offset from the
    /// pointer (never left of or above where it was grabbed). Without a drag in
    /// progress nothing changes.
    pub fn handle_drag(&mut self, x: usize, y: usize)
        requires
            old(self).drag matches Some(grab) ==> drag_target(grab, x, y).0 <= usize::MAX
                && drag_target(grab, x, y).1 <= usize::MAX,
        ensures
            final(self).next_id == old(self).next_id,
            final(self).drag == old(self).drag,
            old(self).drag is None ==> final(self).windows@ == old(self).windows@,
            old(self).drag matches Some(grab) ==> final(self).windows@ == move_in(
                old(self).windows@,
                grab.0,
                drag_target(grab, x, y).0 as usize,
                drag_target(grab, x, y).1 as usize,
            ),
            old(self).wf() ==> final(self).wf(),
    {
        if let Some((id, start_x, start_y, orig_x, orig_y)) = self.drag {
            let dx = x.saturating_sub(start_x);
            let dy = y.saturating_sub(start_y);
            let new_x = orig_x + dx;
            let new_y = orig_y + dy;
            let ghost s = self.windows@;
            let ghost grab = (id, start_x, start_y, orig_x, orig_y);
            assert(new_x == drag_target(grab, x, y).0);
            assert(new_y == drag_target(grab, x, y).1);
            let mut i: usize = 0;
            while i < MAX_WINDOWS
                invariant
                    i <= MAX_WINDOWS,
                    s == old(self).windows@,
                    self.windows@ == s,
                    self.next_id == old(self).next_id,
                    self.drag == old(self).drag,
                    old(self).drag == Some(grab),
                    grab.0 == id,
                    new_x == drag_target(grab, x, y).0,
                    new_y == drag_target(grab, x, y).1,
                    s.len() == 8,
                    forall|k: int| 0 <= k < i ==> !holds_id(id)(#[trigger] s[k]),
                decreases MAX_WINDOWS - i,
            {
                if let Some(mut win) = self.windows[i] {
                    if win.id == id {
                        win.rect.x = new_x;
                        win.rect.y = new_y;
                        self.windows[i] = Some(win);
                        proof {
                            lemma_first_index(s, holds_id(id), i as int);
                            assert(self.windows@ =~= move_in(s, id, new_x, new_y));
                        }
                        return;
                    }
                }
                i = i + 1;
            }
            assert(!some_index(s, holds_id(id)));
        }
    }

    /// Ends the drag in progress, if any.
    pub fn end_drag(&mut self)
        ensures
            final(self).windows@ == old(self).windows@,
            final(self).next_id == old(self).next_id,
            final(self).drag is None,
            old(self).wf() ==> final(self).wf(),
    {
        self.drag = None;
    }
}

} // verus!

verus! {

/// With distinct identifiers, closing a window leaves no window with its identifier.
pub proof fn lemma_close_removes(s: Seq<Option<Window>>, next_id: u32, id: u32)
    requires
        slots_wf(s, next_id),
    ensures
        !some_index(close_in(s, id), holds_id(id)),
        slots_wf(close_in(s, id), next_id),
{
    if some_index(s, holds_id(id)) {
        lemma_first_index_exists(s, holds_id(id));
        let i = first_index(s, holds_id(id));
        let t = close_in(s, id);
        assert forall|j: int| 0 <= j < t.len() implies !#[trigger] holds_id(id)(t[j]) by {
            if j != i && holds_id(id)(t[j]) {
                assert(s[j] is Some && s[i] is Some);
            }
        }
    }
}

/// After a window is added, it is the one window with the focus.
pub proof fn lemma_added_window_alone_focused(s: Seq<Option<Window>>, next_id: u32, win: Window)
    requires
        slots_wf(s, next_id),
        some_index(s, is_free()),
        win.id == next_id,
    ensures
        ({
            let f = first_index(s, is_free());
            let t = refocus(s.update(f, Some(win)), next_id);
            &&& t[f] == Some(with_focus(win, true))
            &&& forall|j: int| 0 <= j < t.len() && j != f && #[trigger] t[j] is Some ==> !t[j]->0.focused
        }),
{
    lemma_first_index_exists(s, is_free());
    let f = first_index(s, is_free());
    let t = refocus(s.update(f, Some(win)), next_id);
    assert forall|j: int| 0 <= j < t.len() && j != f && #[trigger] t[j] is Some implies !t[j]->0.focused by {
        assert(s[j] is Some);
    }
}

/// Closing a window just added gives back the windows that were there
/// before, none of them focused.
pub proof fn lemma_close_undoes_add(s: Seq<Option<Window>>, next_id: u32, win: Window)
    requires
        slots_wf(s, next_id),
        some_index(s, is_free()),
        win.id == next_id,
    ensures
        close_in(refocus(s.update(first_index(s, is_free()), Some(win)), next_id), next_id) == Seq::new(
            s.len(),
            |j: int|
                match s[j] {
                    Some(w) => Some(with_focus(w, false)),
                    None => None,
                },
        ),
{
    lemma_first_index_exists(s, is_free());
    let f = first_index(s, is_free());
    let t = refocus(s.update(f, Some(win)), next_id);
    assert forall|k: int| 0 <= k < f implies !#[trigger] holds_id(next_id)(t[k]) by {
        if s[k] is Some {
        }
    }
    lemma_first_index(t, holds_id(next_id), f);
    let expected = Seq::new(
        s.len(),
        |j: int|
            match s[j] {
                Some(w) => Some(with_focus(w, false)),
                None => None,
            },
    );
    assert forall|j: int| 0 <= j < s.len() implies #[trigger] close_in(t, next_id)[j] == expected[j] by {
        if j != f && s[j] is Some {
        }
    }
    assert(close_in(t, next_id) =~= expected);
}

/// Dragging is absolute: dragging to the same point twice is dragging there once.
pub proof fn lemma_drag_twice(s: Seq<Option<Window>>, id: u32, x: usize, y: usize)
    ensures
        move_in(move_in(s, id, x, y), id, x, y) == move_in(s, id, x, y),
{
    if some_index(s, holds_id(id)) {
        lemma_first_index_exists(s, holds_id(id));
        let i = first_index(s, holds_id(id));
        let t = move_in(s, id, x, y);
        assert forall|k: int| 0 <= k < i implies !#[trigger] holds_id(id)(t[k]) by {
            assert(!holds_id(id)(s[k]));
        }
        lemma_first_index(t, holds_id(id), i);
        assert(move_in(t, id, x, y) =~= t);
    }
}

/// Bringing the pointer back to where the window was grabbed puts the window
/// back where it was.
pub proof fn lemma_drag_back(s: Seq<Option<Window>>, grab: (u32, usize, usize, usize, usize))
    requires
        some_index(s, holds_id(grab.0)),
        s[first_index(s, holds_id(grab.0))]->0.rect.x == grab.3,
        s[first_index(s, holds_id(grab.0))]->0.rect.y == grab.4,
    ensures
        drag_target(grab, grab.1, grab.2) == (grab.3 as int, grab.4 as int),
        move_in(s, grab.0, grab.3, grab.4) == s,
{
    lemma_first_index_exists(s, holds_id(grab.0));
    assert(move_in(s, grab.0, grab.3, grab.4) =~= s);
}

/// A click on a window's body followed by a drag moves that same window, and
/// only it: the click grabs the topmost window under the point and the drag
/// finds it again by its identifier.
pub proof fn lemma_click_then_drag(s: Seq<Option<Window>>, next_id: u32, x: usize, y: usize, nx: usize, ny: usize)
    requires
        slots_wf(s, next_id),
        some_index(s, hit_by(x as int, y as int)),
    ensures
        ({
            let i = last_index(s, hit_by(x as int, y as int));
            let win = s[i]->0;
            let t = refocus(s, win.id);
            let u = move_in(t, win.id, nx, ny);
            &&& u[i] == Some(moved_to(with_focus(win, true), nx, ny))
            &&& forall|j: int| 0 <= j < s.len() && j != i ==> #[trigger] u[j] == t[j]
        }),
{
    lemma_last_index_exists(s, hit_by(x as int, y as int));
    let i = last_index(s, hit_by(x as int, y as int));
    let win = s[i]->0;
    let t = refocus(s, win.id);
    assert forall|k: int| 0 <= k < i implies !#[trigger] holds_id(win.id)(t[k]) by {
        if s[k] is Some {
        }
    }
    lemma_first_index(t, holds_id(win.id), i);
}

/// The pixels of the cross on the close button, as offsets from the button's
/// top left corner.
pub open spec fn on_close_cross(dx: int, dy: int) -> bool {
    ||| dx == 5 && dy == 3
    ||| dx == 6 && dy == 4
    ||| dx == 7 && dy == 5
    ||| dx == 7 && dy == 6
    ||| dx == 6 && dy == 7
    ||| dx == 5 && dy == 8
    ||| dx == 8 && dy == 7
    ||| dx == 9 && dy == 6
    ||| dx == 10 && dy == 5
    ||| dx == 11 && dy == 4
}

/// Every window, focused or not, gets its close button on top of everything
/// else it draws: a 14 x 14 square 18 pixels in from the right edge and 4
/// below the top, red (200, 50, 50) with a white one-pixel frame and a white
/// cross.
pub proof fn lemma_close_button_drawn(win: Window, v: FrameView, px: int, py: int)
    requires
        v.wf(),
        is_drawable(v.format),
        v.on_screen(px, py),
        on_close_button(win, px, py),
    ensures
        ({
            let bx = close_button_x(win);
            let by = close_button_y(win);
            win.picture(v).read(px, py) == if on_border(bx, by, 14, 14, px, py) || on_close_cross(
                px - bx,
                py - by,
            ) {
                (255u8, 255u8, 255u8)
            } else {
                (200u8, 50u8, 50u8)
            }
        }),
{
    let x = win.rect.x as int;
    let y = win.rect.y as int;
    let w = win.rect.w as int;
    let h = win.rect.h as int;
    let white: Rgb8 = (255, 255, 255);
    let edge: Rgb8 = (80, 80, 80);
    let bg: Rgb8 = if win.focused { win.color.rgb8() } else { (64, 64, 64) };
    let body = v.fill(x, y, w, h, bg);
    lemma_read_after_fill(v, x, y, w, h, bg, px, py);
    let top = if win.focused {
        lemma_read_after_fill(body, x, y, w, 1, (0, 120, 215), px, py);
        lemma_read_after_fill(body.fill(x, y, w, 1, (0, 120, 215)), x, y + 20, w, 1, (60, 60, 60), px, py);
        body.fill(x, y, w, 1, (0, 120, 215)).fill(x, y + 20, w, 1, (60, 60, 60))
    } else {
        lemma_read_after_fill(body, x, y, w, 1, edge, px, py);
        body.fill(x, y, w, 1, edge)
    };
    let f1 = top.fill(x, y, 1, h, edge);
    let f2 = f1.fill(x + w - 1, y, 1, h, edge);
    let framed = f2.fill(x, y + h - 1, w, 1, edge);
    lemma_read_after_fill(top, x, y, 1, h, edge, px, py);
    lemma_read_after_fill(f1, x + w - 1, y, 1, h, edge, px, py);
    lemma_read_after_fill(f2, x, y + h - 1, w, 1, edge, px, py);
    let bx = x + w - 18;
    let by = y + 4;
    let b1 = framed.fill(bx, by, 14, 14, (200, 50, 50));
    let b2 = b1.fill(bx, by, 14, 1, white);
    let b3 = b2.fill(bx, by, 1, 14, white);
    let b4 = b3.fill(bx + 13, by, 1, 14, white);
    let button = b4.fill(bx, by + 13, 14, 1, white);
    lemma_read_after_fill(framed, bx, by, 14, 14, (200, 50, 50), px, py);
    lemma_read_after_fill(b1, bx, by, 14, 1, white, px, py);
    lemma_read_after_fill(b2, bx, by, 1, 14, white, px, py);
    lemma_read_after_fill(b3, bx + 13, by, 1, 14, white, px, py);
    lemma_read_after_fill(b4, bx, by + 13, 14, 1, white, px, py);
    let cx = bx + 5;
    let cy = by + 3;
    let c1 = button.fill(cx, cy, 1, 1, white);
    let c2 = c1.fill(cx + 1, cy + 1, 1, 1, white);
    let c3 = c2.fill(cx + 2, cy + 2, 1, 1, white);
    let c4 = c3.fill(cx + 2, cy + 3, 1, 1, white);
    let c5 = c4.fill(cx + 1, cy + 4, 1, 1, white);
    let c6 = c5.fill(cx, cy + 5, 1, 1, white);
    let c7 = c6.fill(cx + 3, cy + 4, 1, 1, white);
    let c8 = c7.fill(cx + 4, cy + 3, 1, 1, white);
    let c9 = c8.fill(cx + 5, cy + 2, 1, 1, white);
    lemma_read_after_fill(button, cx, cy, 1, 1, white, px, py);
    lemma_read_after_fill(c1, cx + 1, cy + 1, 1, 1, white, px, py);
    lemma_read_after_fill(c2, cx + 2, cy + 2, 1, 1, white, px, py);
    lemma_read_after_fill(c3, cx + 2, cy + 3, 1, 1, white, px, py);
    lemma_read_after_fill(c4, cx + 1, cy + 4, 1, 1, white, px, py);
    lemma_read_after_fill(c5, cx, cy + 5, 1, 1, white, px, py);
    lemma_read_after_fill(c6, cx + 3, cy + 4, 1, 1, white, px, py);
    lemma_read_after_fill(c7, cx + 4, cy + 3, 1, 1, white, px, py);
    lemma_read_after_fill(c8, cx + 5, cy + 2, 1, 1, white, px, py);
    lemma_read_after_fill(c9, cx + 6, cy + 1, 1, 1, white, px, py);
}

/// Away from its close button, a window is drawn as a body with a frame: the
/// left and right columns and the bottom row are grey (80, 80, 80); the top
/// row is the focus blue (0, 120, 215) on the focused window and grey on the
/// others; the focused window has a dark line (60, 60, 60) under its 20
/// pixel title bar; everything else is the window's colour when focused and
/// dark grey (64, 64, 64) when not. Titles are not rendered.
pub proof fn lemma_window_body_drawn(win: Window, v: FrameView, px: int, py: int)
    requires
        v.wf(),
        is_drawable(v.format),
        v.on_screen(px, py),
        win.rect.holds(px, py),
        !on_close_button(win, px, py),
    ensures
        ({
            let x = win.rect.x as int;
            let y = win.rect.y as int;
            let after = win.picture(v).read(px, py);
            &&& px == x || px == x + win.rect.w - 1 || py == y + win.rect.h - 1 ==> after == (80u8, 80u8, 80u8)
            &&& !(px == x || px == x + win.rect.w - 1 || py == y + win.rect.h - 1) && py == y ==> after == (
                if win.focused { (0u8, 120u8, 215u8) } else { (80u8, 80u8, 80u8) })
            &&& !(px == x || px == x + win.rect.w - 1 || py == y + win.rect.h - 1) && py != y && win.focused
                && py == y + 20 ==> after == (60u8, 60u8, 60u8)
            &&& !(px == x || px == x + win.rect.w - 1 || py == y + win.rect.h - 1) && py != y && !(win.focused
                && py == y + 20) ==> after == (if win.focused { win.color.rgb8() } else { (64u8, 64u8, 64u8) })
        }),
{
    let x = win.rect.x as int;
    let y = win.rect.y as int;
    let w = win.rect.w as int;
    let h = win.rect.h as int;
    let white: Rgb8 = (255, 255, 255);
    let edge: Rgb8 = (80, 80, 80);
    let bg: Rgb8 = if win.focused { win.color.rgb8() } else { (64, 64, 64) };
    let body = v.fill(x, y, w, h, bg);
    lemma_read_after_fill(v, x, y, w, h, bg, px, py);
    let top = if win.focused {
        lemma_read_after_fill(body, x, y, w, 1, (0, 120, 215), px, py);
        lemma_read_after_fill(body.fill(x, y, w, 1, (0, 120, 215)), x, y + 20, w, 1, (60, 60, 60), px, py);
        body.fill(x, y, w, 1, (0, 120, 215)).fill(x, y + 20, w, 1, (60, 60, 60))
    } else {
        lemma_read_after_fill(body, x, y, w, 1, edge, px, py);
        body.fill(x, y, w, 1, edge)
    };
    let f1 = top.fill(x, y, 1, h, edge);
    let f2 = f1.fill(x + w - 1, y, 1, h, edge);
    let framed = f2.fill(x, y + h - 1, w, 1, edge);
    lemma_read_after_fill(top, x, y, 1, h, edge, px, py);
    lemma_read_after_fill(f1, x + w - 1, y, 1, h, edge, px, py);
    lemma_read_after_fill(f2, x, y + h - 1, w, 1, edge, px, py);
    let bx = x + w - 18;
    let by = y + 4;
    let b1 = framed.fill(bx, by, 14, 14, (200, 50, 50));
    let b2 = b1.fill(bx, by, 14, 1, white);
    let b3 = b2.fill(bx, by, 1, 14, white);
    let b4 = b3.fill(bx + 13, by, 1, 14, white);
    let button = b4.fill(bx, by + 13, 14, 1, white);
    lemma_read_after_fill(framed, bx, by, 14, 14, (200, 50, 50), px, py);
    lemma_read_after_fill(b1, bx, by, 14, 1, white, px, py);
    lemma_read_after_fill(b2, bx, by, 1, 14, white, px, py);
    lemma_read_after_fill(b3, bx + 13, by, 1, 14, white, px, py);
    lemma_read_after_fill(b4, bx, by + 13, 14, 1, white, px, py);
    let cx = bx + 5;
    let cy = by + 3;
    let c1 = button.fill(cx, cy, 1, 1, white);
    let c2 = c1.fill(cx + 1, cy + 1, 1, 1, white);
    let c3 = c2.fill(cx + 2, cy + 2, 1, 1, white);
    let c4 = c3.fill(cx + 2, cy + 3, 1, 1, white);
    let c5 = c4.fill(cx + 1, cy + 4, 1, 1, white);
    let c6 = c5.fill(cx, cy + 5, 1, 1, white);
    let c7 = c6.fill(cx + 3, cy + 4, 1, 1, white);
    let c8 = c7.fill(cx + 4, cy + 3, 1, 1, white);
    let c9 = c8.fill(cx + 5, cy + 2, 1, 1, white);
    lemma_read_after_fill(button, cx, cy, 1, 1, white, px, py);
    lemma_read_after_fill(c1, cx + 1, cy + 1, 1, 1, white, px, py);
    lemma_read_after_fill(c2, cx + 2, cy + 2, 1, 1, white, px, py);
    lemma_read_after_fill(c3, cx + 2, cy + 3, 1, 1, white, px, py);
    lemma_read_after_fill(c4, cx + 1, cy + 4, 1, 1, white, px, py);
    lemma_read_after_fill(c5, cx, cy + 5, 1, 1, white, px, py);
    lemma_read_after_fill(c6, cx + 3, cy + 4, 1, 1, white, px, py);
    lemma_read_after_fill(c7, cx + 4, cy + 3, 1, 1, white, px, py);
    lemma_read_after_fill(c8, cx + 5, cy + 2, 1, 1, white, px, py);
    lemma_read_after_fill(c9, cx + 6, cy + 1, 1, 1, white, px, py);
}

} // verus!
