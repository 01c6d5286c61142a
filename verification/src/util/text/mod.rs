//! Text scrolling over the LED matrix, one column per step from the right.
pub mod font;

use vstd::prelude::*;
use crate::drivers::matrix::{Framebuffer, WIDTH, HEIGHT};
use crate::time::Duration;
use self::font::{Letter, MAX_WIDTH, glyph, spec_downshift};

verus! {

/// Brightness of scrolled text.
pub const TEXT_BRIGHTNESS: u8 = 64;

/// Time between two scroll steps, in milliseconds.
pub const TEXT_MILLIS: u32 = 75;

/// Time between two scroll steps.
pub fn text_duration() -> (d: Duration)
    ensures
        d.ticks == TEXT_MILLIS * 10,
{
    Duration::from_millis(TEXT_MILLIS)
}

/// The framebuffer shifted one column to the left, the rightmost column
/// cleared.
pub open spec fn shifted_left(fb: Framebuffer, x: int, y: int) -> u8 {
    if x < WIDTH - 1 {
        fb.px(x + 1, y)
    } else {
        0
    }
}

/// Shifts the whole framebuffer one column to the left and clears the
/// rightmost column.
pub fn move_left(fb: &mut Framebuffer)
    ensures
        forall|x: int, y: int|
            0 <= x < WIDTH && 0 <= y < HEIGHT ==> #[trigger] final(fb).px(x, y) == shifted_left(
                *old(fb),
                x,
                y,
            ),
{
    let ghost old_fb = *fb;
    let mut y: usize = 0;
    while y < HEIGHT
        invariant
            y <= HEIGHT,
            forall|i: int, j: int|
                0 <= i < WIDTH && 0 <= j < y ==> #[trigger] fb.px(i, j) == shifted_left(old_fb, i, j),
            forall|i: int, j: int|
                0 <= i < WIDTH && y <= j < HEIGHT ==> #[trigger] fb.px(i, j) == old_fb.px(i, j),
        decreases HEIGHT - y,
    {
        let mut x: usize = 0;
        while x < WIDTH - 1
            invariant
                y < HEIGHT,
                x <= WIDTH - 1,
                forall|i: int, j: int|
                    0 <= i < WIDTH && 0 <= j < y ==> #[trigger] fb.px(i, j) == shifted_left(
                        old_fb,
                        i,
                        j,
                    ),
                forall|i: int| 0 <= i < x ==> #[trigger] fb.px(i, y as int) == shifted_left(
                    old_fb,
                    i,
                    y as int,
                ),
                forall|i: int| x <= i < WIDTH ==> #[trigger] fb.px(i, y as int) == old_fb.px(i, y as int),
                forall|i: int, j: int|
                    0 <= i < WIDTH && y < j < HEIGHT ==> #[trigger] fb.px(i, j) == old_fb.px(i, j),
            decreases WIDTH - 1 - x,
        {
            let next: u8 = fb.load(x + 1, y);
            fb.store(x, y, next);
            x = x + 1;
        }
        fb.store(WIDTH - 1, y, 0);
        y = y + 1;
    }
}

/// The value written to row `r` of the rightmost column when drawing glyph
/// column `col` shifted down by `ds` rows.
pub open spec fn column_pixel(col: u8, ds: int, r: int, brightness: u8) -> u8 {
    if (col >> ((r - ds) as u8)) & 1 != 0 {
        brightness
    } else {
        0
    }
}

/// Whether `new_fb` is `old_fb` after one scroll step of `s` through
/// `text` in `brightness`: shifted left, with the next glyph column drawn
/// at the right edge.
pub open spec fn scrolled(
    old_fb: Framebuffer,
    new_fb: Framebuffer,
    s: TextScroller,
    text: Seq<u8>,
    brightness: u8,
) -> bool {
    forall|x: int, y: int|
        0 <= x < WIDTH && 0 <= y < HEIGHT ==> #[trigger] new_fb.px(x, y) == (
        match s.next_column(text) {
            Some((col, ds)) => if x == WIDTH - 1 && y >= ds {
                column_pixel(col, ds as int, y, brightness)
            } else {
                shifted_left(old_fb, x, y)
            },
            None => shifted_left(old_fb, x, y),
        })
}

/// The scroller after `n` steps through `text`, starting at `s`.
pub open spec fn steps_from(s: TextScroller, text: Seq<u8>, n: nat) -> TextScroller
    decreases n,
{
    if n == 0 {
        s
    } else {
        steps_from(s, text, (n - 1) as nat).stepped(text)
    }
}

/// Once a letter has no column left, the scroller goes on with the next
/// letter from its first column: the steps that follow draw that letter's
/// columns `0, 1, ...` in order, each once, up to its end marker.
pub proof fn lemma_next_letter_drawn_whole(s: TextScroller, text: Seq<u8>, c: nat)
    requires
        s.pos + 1 < text.len() <= usize::MAX,
        s.next_column(text) is None,
        c <= MAX_WIDTH,
        forall|j: int| 0 <= j < c ==> #[trigger] spec_downshift(glyph(text[s.pos + 1])@[j]) is Some,
    ensures
        steps_from(s, text, c + 1) == (TextScroller { pos: (s.pos + 1) as usize, col: c as u8 }),
        forall|j: int|
            0 <= j < c ==> (#[trigger] steps_from(s, text, (j + 1) as nat).next_column(text) matches Some((col, _))
                && col == glyph(text[s.pos + 1])@[j]),
    decreases c,
{
    if c > 0 {
        lemma_next_letter_drawn_whole(s, text, (c - 1) as nat);
        let t = steps_from(s, text, c);
        assert(t == TextScroller { pos: (s.pos + 1) as usize, col: (c - 1) as u8 });
        assert(spec_downshift(glyph(text[s.pos + 1])@[c - 1]) is Some);
        assert(t.next_column(text) is Some);
        assert(steps_from(s, text, c + 1) == t.stepped(text));
    } else {
        reveal_with_fuel(steps_from, 2);
    }
}

/// The position of a scroller within its text: the letter and the column
/// within the letter.
#[derive(Debug, Clone, Copy, PartialEq, Eq, Structural)]
pub struct TextScroller {
    pub pos: usize,
    pub col: u8,
}

impl TextScroller {
    /// The scroller at the start of its text.
    pub open spec fn spec_new() -> TextScroller {
        TextScroller { pos: 0, col: 0 }
    }

    /// A scroller at the start of its text.
    pub fn new() -> (s: TextScroller)
        ensures
            s == TextScroller::spec_new(),
    {
        TextScroller { pos: 0, col: 0 }
    }

    /// The glyph column due at this position of `text`, with its downshift,
    /// if the current letter has one left.
    pub open spec fn next_column(self, text: Seq<u8>) -> Option<(u8, usize)> {
        if self.pos < text.len() && self.col < MAX_WIDTH {
            let col = glyph(text[self.pos as int])@[self.col as int];
            match spec_downshift(col) {
                Some(ds) => Some((col, ds)),
                None => None,
            }
        } else {
            None
        }
    }

    /// The scroller position after one step through `text`.
    pub open spec fn stepped(self, text: Seq<u8>) -> TextScroller {
        if self.pos < text.len() {
            if self.next_column(text) is Some {
                TextScroller { pos: self.pos, col: (self.col + 1) as u8 }
            } else {
                TextScroller { pos: (self.pos + 1) as usize, col: 0 }
            }
        } else {
            self
        }
    }

    /// One scroll step: shifts the framebuffer left, draws the next glyph
    /// column of `text` at the right edge in `brightness`, and returns
    /// whether the whole text has been shown.
    pub fn advance_brightness(&mut self, text: &[u8], brightness: u8, fb: &mut Framebuffer) -> (done: bool)
        ensures
            *final(self) == old(self).stepped(text@),
            done == (final(self).pos >= text.len()),
            scrolled(*old(fb), *final(fb), *old(self), text@, brightness),
    {
        move_left(fb);
        let ghost moved = *fb;
        if self.pos < text.len() {
            let c: u8 = text[self.pos];
            let letter: Letter = Letter::get(c);
            let mut drawn: bool = false;
            if (self.col as usize) < MAX_WIDTH {
                let column: u8 = letter.0[self.col as usize];
                match Letter::downshift(column) {
                    Some(ds) => {
                        let mut v: u8 = column;
                        let mut r: usize = ds;
                        assert(column >> 0u8 == column) by (bit_vector);
                        while r < HEIGHT
                            invariant
                                ds <= r <= HEIGHT,
                                ds <= 2,
                                v == column >> ((r - ds) as u8),
                                forall|y: int|
                                    ds <= y < r ==> #[trigger] fb.px(WIDTH - 1, y) == column_pixel(
                                        column,
                                        ds as int,
                                        y,
                                        brightness,
                                    ),
                                forall|x: int, y: int|
                                    0 <= x < WIDTH && 0 <= y < HEIGHT && !(x == WIDTH - 1 && ds
                                        <= y < r) ==> #[trigger] fb.px(x, y) == moved.px(x, y),
                            decreases HEIGHT - r,
                        {
                            let val: u8 = if v & 1 != 0 { brightness } else { 0 };
                            fb.store(WIDTH - 1, r, val);
                            let sh: u8 = (r - ds) as u8;
                            assert((column >> sh) >> 1u8 == column >> ((sh + 1) as u8)) by (bit_vector)
                                requires
                                    sh < 9,
                            ;
                            v = v >> 1u8;
                            r = r + 1;
                        }
                        self.col = self.col + 1;
                        drawn = true;
                    },
                    None => {},
                }
            }
            if !drawn {
                self.pos = self.pos + 1;
                self.col = 0;
            }
        }
        self.pos >= text.len()
    }

    /// One scroll step through the text `"EE"` drawn dark, which scrolls the
    /// previous text out of the matrix.
    pub fn advance_clear(&mut self, fb: &mut Framebuffer) -> (done: bool)
        ensures
            *final(self) == old(self).stepped(seq![69u8, 69u8]),
            done == (final(self).pos >= 2),
            scrolled(*old(fb), *final(fb), *old(self), seq![69u8, 69u8], 0),
    {
        let text: [u8; 2] = [69u8, 69u8];
        assert(text@ =~= seq![69u8, 69u8]);
        self.advance_brightness(&text, 0, fb)
    }

    /// One scroll step through `text` in the normal text brightness.
    pub fn advance(&mut self, text: &[u8], fb: &mut Framebuffer) -> (done: bool)
        ensures
            *final(self) == old(self).stepped(text@),
            done == (final(self).pos >= text.len()),
            scrolled(*old(fb), *final(fb), *old(self), text@, TEXT_BRIGHTNESS),
    {
        self.advance_brightness(text, TEXT_BRIGHTNESS, fb)
    }
}

} // verus!
