use vstd::prelude::*;
use crate::framebuffer::{FrameBuffer, FrameView, Rgb8, is_drawable, lemma_read_after_fill, lemma_read_after_repaint, lemma_repaint_nothing, lemma_repaint_same, lemma_repaint_twice, overlay, rect_paint};

verus! {

/// A rectangle on the screen: its top left corner and its size.
#[derive(Debug, Clone, Copy, PartialEq, Eq, Structural)]
pub struct Rect {
    pub x: usize,
    pub y: usize,
    pub w: usize,
    pub h: usize,
}

impl Rect {
    /// The point lies in the rectangle (in unbounded arithmetic).
    pub open spec fn holds(self, px: int, py: int) -> bool {
        self.x <= px < self.x + self.w && self.y <= py < self.y + self.h
    }
}

#[derive(Debug, Clone, Copy, PartialEq, Eq, Structural)]
pub struct Color {
    pub r: u8,
    pub g: u8,
    pub b: u8,
}

impl Color {
    pub open spec fn rgb8(self) -> Rgb8 {
        (self.r, self.g, self.b)
    }

    pub fn rgb(r: u8, g: u8, b: u8) -> (c: Self)
        ensures
            c == (Color { r, g, b }),
    {
        Self { r, g, b }
    }

    pub fn white() -> (c: Self)
        ensures
            c == (Color { r: 255, g: 255, b: 255 }),
    {
        Self::rgb(255, 255, 255)
    }

    pub fn gray() -> (c: Self)
        ensures
            c == (Color { r: 128, g: 128, b: 128 }),
    {
        Self::rgb(128, 128, 128)
    }

    pub fn dark_gray() -> (c: Self)
        ensures
            c == (Color { r: 64, g: 64, b: 64 }),
    {
        Self::rgb(64, 64, 64)
    }

    pub fn green() -> (c: Self)
        ensures
            c == (Color { r: 0, g: 180, b: 0 }),
    {
        Self::rgb(0, 180, 0)
    }
}

/// A control drawn on the frame buffer.
#[derive(Debug, Clone, Copy)]
pub enum Widget {
    Button { rect: Rect, label: &'static str, pressed: bool },
    Checkbox { rect: Rect, label: &'static str, checked: bool },
    ProgressBar { rect: Rect, percent: u8 },
}

/// The pixels on the one-pixel frame of the rectangle at (`x`, `y`) of size `w` x `h`.
pub open spec fn on_border(x: int, y: int, w: int, h: int, px: int, py: int) -> bool {
    &&& x <= px < x + w
    &&& y <= py < y + h
    &&& (px == x || py == y || px == x + w - 1 || py == y + h - 1)
}

/// `color` on the frame of the rectangle, nothing elsewhere.
pub open spec fn border_paint(x: int, y: int, w: int, h: int, color: Rgb8) -> spec_fn(int, int) -> Option<Rgb8> {
    |px: int, py: int| if on_border(x, y, w, h, px, py) { Some(color) } else { None }
}

/// The frame pixels among the first `dy` rows and the first `dx` pixels of row `dy`.
pub open spec fn border_upto(x: int, y: int, w: int, h: int, dy: int, dx: int, color: Rgb8) -> spec_fn(
    int,
    int,
) -> Option<Rgb8> {
    |px: int, py: int|
        if ((y <= py < y + dy) || (py == y + dy && px < x + dx)) && on_border(x, y, w, h, px, py) {
            Some(color)
        } else {
            None
        }
}

/// The green part of a progress bar of width `w` at `percent`: the width is
/// taken modulo 2^32, as the bar computes it in 32 bits.
pub open spec fn progress_fill(w: usize, percent: u8) -> int {
    ((w as u32) as int * percent as int) / 100
}

impl Widget {
    pub open spec fn area(self) -> Rect {
        match self {
            Widget::Button { rect, .. } => rect,
            Widget::Checkbox { rect, .. } => rect,
            Widget::ProgressBar { rect, .. } => rect,
        }
    }

    /// The point lies on the widget's rectangle.
    pub fn contains(&self, mx: usize, my: usize) -> (b: bool)
        ensures
            b == self.area().holds(mx as int, my as int),
    {
        let rect = match self {
            Widget::Button { rect, .. } => rect,
            Widget::Checkbox { rect, .. } => rect,
            Widget::ProgressBar { rect, .. } => rect,
        };
        mx >= rect.x && mx - rect.x < rect.w && my >= rect.y && my - rect.y < rect.h
    }

    /// The widget's geometry keeps every coordinate it draws at within `usize`.
    pub open spec fn can_draw(self) -> bool {
        match self {
            Widget::Button { rect, .. } => rect.w == 0 || rect.h == 0 || (rect.x + rect.w <= usize::MAX
                + 1 && rect.y + rect.h <= usize::MAX + 1),
            Widget::Checkbox { rect, .. } => rect.x + 12 <= usize::MAX + 1 && rect.y + 12 <= usize::MAX + 1,
            Widget::ProgressBar { rect, percent } => {
                &&& (rect.w as u32) * (percent as u32) <= u32::MAX
                &&& 1 <= rect.x + rect.w <= usize::MAX
                &&& 1 <= rect.y + rect.h <= usize::MAX
                &&& (progress_fill(rect.w, percent) == 0 || rect.h == 0 || rect.x + progress_fill(
                    rect.w,
                    percent,
                ) <= usize::MAX + 1)
            },
        }
    }

    /// The picture after drawing the widget on `v`. Labels are not rendered:
    /// this frame buffer has no glyph renderer.
    pub open spec fn picture(self, v: FrameView) -> FrameView {
        let white: Rgb8 = (255, 255, 255);
        match self {
            Widget::Button { rect, pressed, .. } => {
                let bg: Rgb8 = if pressed { (64, 64, 64) } else { (128, 128, 128) };
                v.fill(rect.x as int, rect.y as int, rect.w as int, rect.h as int, bg).repaint(
                    border_paint(rect.x as int, rect.y as int, rect.w as int, rect.h as int, white),
                )
            },
            Widget::Checkbox { rect, checked, .. } => {
                let x = rect.x as int;
                let y = rect.y as int;
                let box_color: Rgb8 = if checked { (0, 180, 0) } else { (64, 64, 64) };
                v.fill(x, y, 12, 12, box_color).fill(x, y, 12, 1, white).fill(x, y, 1, 12, white).fill(
                    x + 11,
                    y,
                    1,
                    12,
                    white,
                ).fill(x, y + 11, 12, 1, white)
            },
            Widget::ProgressBar { rect, percent } => {
                let x = rect.x as int;
                let y = rect.y as int;
                let w = rect.w as int;
                let h = rect.h as int;
                let fill = progress_fill(rect.w, percent);
                let back = v.fill(x, y, w, h, (40, 40, 40));
                let filled = if fill > 0 { back.fill(x, y, fill, h, (0, 180, 0)) } else { back };
                filled.fill(x, y, w, 1, white).fill(x, y, 1, h, white).fill(x + w - 1, y, 1, h, white).fill(
                    x,
                    y + h - 1,
                    w,
                    1,
                    white,
                )
            },
        }
    }

    /// Draws the widget.
    pub fn draw(&self, fb: &mut FrameBuffer)
        requires
            self.can_draw(),
        ensures
            final(fb)@ == self.picture(old(fb)@),
    {
        match self {
            Widget::Button { rect, label: _, pressed } => {
                let bg = if *pressed { Color::dark_gray() } else { Color::gray() };
                let border = Color::white();
                fb.draw_rect(rect.x, rect.y, rect.w, rect.h, bg.r, bg.g, bg.b);
                draw_border(fb, rect.x, rect.y, rect.w, rect.h, border.r, border.g, border.b);
            },
            Widget::Checkbox { rect, label: _, checked } => {
                let box_color = if *checked { Color::green() } else { Color::dark_gray() };
                fb.draw_rect(rect.x, rect.y, 12, 12, box_color.r, box_color.g, box_color.b);
                fb.draw_rect(rect.x, rect.y, 12, 1, 255, 255, 255);
                fb.draw_rect(rect.x, rect.y, 1, 12, 255, 255, 255);
                fb.draw_rect(rect.x + 11, rect.y, 1, 12, 255, 255, 255);
                fb.draw_rect(rect.x, rect.y + 11, 12, 1, 255, 255, 255);
            },
            Widget::ProgressBar { rect, percent } => {
                fb.draw_rect(rect.x, rect.y, rect.w, rect.h, 40, 40, 40);
                let fill = (rect.w as u32 * (*percent as u32)) / 100;
                if fill > 0 {
                    fb.draw_rect(rect.x, rect.y, fill as usize, rect.h, 0, 180, 0);
                }
                fb.draw_rect(rect.x, rect.y, rect.w, 1, 255, 255, 255);
                fb.draw_rect(rect.x, rect.y, 1, rect.h, 255, 255, 255);
                fb.draw_rect(rect.x + rect.w - 1, rect.y, 1, rect.h, 255, 255, 255);
                fb.draw_rect(rect.x, rect.y + rect.h - 1, rect.w, 1, 255, 255, 255);
            },
        }
    }
}

/// Sets the pixels on the one-pixel frame of the rectangle, visiting the
/// rectangle row by row.
fn draw_border(fb: &mut FrameBuffer, x: usize, y: usize, w: usize, h: usize, r: u8, g: u8, b: u8)
    requires
        w == 0 || h == 0 || (x + w <= usize::MAX + 1 && y + h <= usize::MAX + 1),
    ensures
        final(fb)@ == old(fb)@.repaint(border_paint(x as int, y as int, w as int, h as int, (r, g, b))),
{
    let ghost v = fb@;
    let ghost c: Rgb8 = (r, g, b);
    proof {
        lemma_repaint_nothing(v, border_upto(x as int, y as int, w as int, h as int, 0, 0, c));
    }
    for dy in 0..h
        invariant
            fb@ == v.repaint(border_upto(x as int, y as int, w as int, h as int, dy as int, 0, c)),
            c == (r, g, b),
            w == 0 || h == 0 || (x + w <= usize::MAX + 1 && y + h <= usize::MAX + 1),
    {
        for dx in 0..w
            invariant
                fb@ == v.repaint(border_upto(x as int, y as int, w as int, h as int, dy as int, dx as int, c)),
                c == (r, g, b),
                dy < h,
                w == 0 || h == 0 || (x + w <= usize::MAX + 1 && y + h <= usize::MAX + 1),
        {
            let ghost done = border_upto(x as int, y as int, w as int, h as int, dy as int, dx as int, c);
            let ghost next = border_upto(x as int, y as int, w as int, h as int, dy as int, dx + 1, c);
            if dx == 0 || dy == 0 || dx == w - 1 || dy == h - 1 {
                fb.draw_pixel(x + dx, y + dy, r, g, b);
                proof {
                    let pt = rect_paint((x + dx) as int, (y + dy) as int, 1, 1, c);
                    lemma_repaint_twice(v, done, pt);
                    lemma_repaint_same(v, overlay(done, pt), next);
                }
            } else {
                proof {
                    lemma_repaint_same(v, done, next);
                }
            }
        }
        proof {
            lemma_repaint_same(
                v,
                border_upto(x as int, y as int, w as int, h as int, dy as int, w as int, c),
                border_upto(x as int, y as int, w as int, h as int, dy + 1, 0, c),
            );
        }
    }
    proof {
        lemma_repaint_same(
            v,
            border_upto(x as int, y as int, w as int, h as int, h as int, 0, c),
            border_paint(x as int, y as int, w as int, h as int, c),
        );
    }
}

/// The widgets of the demo: a button, a checked checkbox and a progress bar
/// at 65 percent.
pub open spec fn demo_widgets() -> Seq<Widget> {
    seq![
        Widget::Button { rect: Rect { x: 50, y: 300, w: 120, h: 30 }, label: "Submit", pressed: false },
        Widget::Checkbox { rect: Rect { x: 200, y: 300, w: 120, h: 20 }, label: "Enable", checked: true },
        Widget::ProgressBar { rect: Rect { x: 50, y: 350, w: 300, h: 20 }, percent: 65 },
    ]
}

/// The picture after drawing the demo widgets in order.
pub open spec fn demo_picture(v: FrameView) -> FrameView {
    demo_widgets()[2].picture(demo_widgets()[1].picture(demo_widgets()[0].picture(v)))
}

/// Draws the demo widgets.
pub fn draw_demo(fb: &mut FrameBuffer)
    ensures
        final(fb)@ == demo_picture(old(fb)@),
{
    let widgets = [
        Widget::Button { rect: Rect { x: 50, y: 300, w: 120, h: 30 }, label: "Submit", pressed: false },
        Widget::Checkbox { rect: Rect { x: 200, y: 300, w: 120, h: 20 }, label: "Enable", checked: true },
        Widget::ProgressBar { rect: Rect { x: 50, y: 350, w: 300, h: 20 }, percent: 65 },
    ];
    assert(widgets@ =~= demo_widgets());
    widgets[0].draw(fb);
    widgets[1].draw(fb);
    widgets[2].draw(fb);
}

/// Drawing the demo keeps the geometry of the screen.
pub proof fn lemma_demo_keeps_geometry(v: FrameView)
    requires
        v.wf(),
    ensures
        demo_picture(v).wf(),
        demo_picture(v).width == v.width,
        demo_picture(v).height == v.height,
        demo_picture(v).stride == v.stride,
        demo_picture(v).format == v.format,
{
}

/// A checkbox is a 12 x 12 box at the corner of its rectangle, whatever the
/// rectangle's size: a white one-pixel frame around green (checked) or dark
/// grey (unchecked); every other pixel stays as it was.
pub proof fn lemma_checkbox_drawn(rect: Rect, label: &'static str, checked: bool, v: FrameView, px: int, py: int)
    requires
        v.wf(),
        is_drawable(v.format),
        v.on_screen(px, py),
    ensures
        ({
            let x = rect.x as int;
            let y = rect.y as int;
            let after = (Widget::Checkbox { rect, label, checked }).picture(v).read(px, py);
            &&& on_border(x, y, 12, 12, px, py) ==> after == (255u8, 255u8, 255u8)
            &&& x < px < x + 11 && y < py < y + 11 ==> after == (if checked { (0u8, 180u8, 0u8) } else { (64u8, 64u8, 64u8) })
            &&& !(x <= px < x + 12 && y <= py < y + 12) ==> after == v.read(px, py)
        }),
{
    let x = rect.x as int;
    let y = rect.y as int;
    let white: Rgb8 = (255, 255, 255);
    let box_color: Rgb8 = if checked { (0, 180, 0) } else { (64, 64, 64) };
    let a = v.fill(x, y, 12, 12, box_color);
    let b = a.fill(x, y, 12, 1, white);
    let c = b.fill(x, y, 1, 12, white);
    let d = c.fill(x + 11, y, 1, 12, white);
    lemma_read_after_fill(v, x, y, 12, 12, box_color, px, py);
    lemma_read_after_fill(a, x, y, 12, 1, white, px, py);
    lemma_read_after_fill(b, x, y, 1, 12, white, px, py);
    lemma_read_after_fill(c, x + 11, y, 1, 12, white, px, py);
    lemma_read_after_fill(d, x, y + 11, 12, 1, white, px, py);
}

/// A button fills its rectangle: a white one-pixel frame around grey, dark
/// grey when pressed; every other pixel stays as it was.
pub proof fn lemma_button_drawn(rect: Rect, label: &'static str, pressed: bool, v: FrameView, px: int, py: int)
    requires
        v.wf(),
        is_drawable(v.format),
        v.on_screen(px, py),
    ensures
        ({
            let after = (Widget::Button { rect, label, pressed }).picture(v).read(px, py);
            &&& on_border(rect.x as int, rect.y as int, rect.w as int, rect.h as int, px, py) ==> after == (
                255u8,
                255u8,
                255u8,
            )
            &&& rect.holds(px, py) && !on_border(rect.x as int, rect.y as int, rect.w as int, rect.h as int, px, py)
                ==> after == (if pressed { (64u8, 64u8, 64u8) } else { (128u8, 128u8, 128u8) })
            &&& !rect.holds(px, py) ==> after == v.read(px, py)
        }),
{
    let bg: Rgb8 = if pressed { (64, 64, 64) } else { (128, 128, 128) };
    let a = v.fill(rect.x as int, rect.y as int, rect.w as int, rect.h as int, bg);
    lemma_read_after_fill(v, rect.x as int, rect.y as int, rect.w as int, rect.h as int, bg, px, py);
    lemma_read_after_repaint(
        a,
        border_paint(rect.x as int, rect.y as int, rect.w as int, rect.h as int, (255, 255, 255)),
        px,
        py,
    );
}

/// A progress bar fills its rectangle: a white one-pixel frame; inside it the
/// first `w * percent / 100` columns green and the rest dark grey. Up to
/// 100 percent nothing outside the rectangle changes.
pub proof fn lemma_progress_bar_drawn(rect: Rect, percent: u8, v: FrameView, px: int, py: int)
    requires
        v.wf(),
        is_drawable(v.format),
        v.on_screen(px, py),
    ensures
        ({
            let x = rect.x as int;
            let after = (Widget::ProgressBar { rect, percent }).picture(v).read(px, py);
            &&& on_border(x, rect.y as int, rect.w as int, rect.h as int, px, py) ==> after == (
                255u8,
                255u8,
                255u8,
            )
            &&& rect.holds(px, py) && !on_border(x, rect.y as int, rect.w as int, rect.h as int, px, py)
                ==> after == (if px < x + progress_fill(rect.w, percent) { (0u8, 180u8, 0u8) } else { (
                40u8,
                40u8,
                40u8,
            ) })
            &&& rect.w >= 1 && rect.h >= 1 && percent <= 100 && !rect.holds(px, py) ==> after == v.read(px, py)
        }),
{
    let x = rect.x as int;
    let y = rect.y as int;
    let w = rect.w as int;
    let h = rect.h as int;
    let white: Rgb8 = (255, 255, 255);
    let fill = progress_fill(rect.w, percent);
    let a32 = (rect.w as u32) as int;
    assert(a32 <= w) by {
        if rect.w <= u32::MAX {
            assert(a32 == w);
        }
    }
    assert(percent <= 100 ==> fill <= a32) by (nonlinear_arith)
        requires
            fill == (a32 * percent as int) / 100,
            a32 >= 0,
    ;
    let back = v.fill(x, y, w, h, (40, 40, 40));
    lemma_read_after_fill(v, x, y, w, h, (40, 40, 40), px, py);
    let filled = if fill > 0 { back.fill(x, y, fill, h, (0, 180, 0)) } else { back };
    lemma_read_after_fill(back, x, y, fill, h, (0, 180, 0), px, py);
    let a = filled.fill(x, y, w, 1, white);
    let b = a.fill(x, y, 1, h, white);
    let c = b.fill(x + w - 1, y, 1, h, white);
    lemma_read_after_fill(filled, x, y, w, 1, white, px, py);
    lemma_read_after_fill(a, x, y, 1, h, white, px, py);
    lemma_read_after_fill(b, x + w - 1, y, 1, h, white, px, py);
    lemma_read_after_fill(c, x, y + h - 1, w, 1, white, px, py);
}

} // verus!

