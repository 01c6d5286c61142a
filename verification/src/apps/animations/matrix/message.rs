//! The scrolling greeting message, separated by a dark gap.
use vstd::prelude::*;
use crate::drivers::matrix::Framebuffer;
use crate::time::{Instant, Ticker};
use crate::util::text::{TextScroller, TEXT_BRIGHTNESS, scrolled, text_duration};

verus! {

/// Length of the greeting.
pub const MESSAGE_LEN: usize = 139;

/// The greeting, in the font's byte encoding.
pub const MESSAGE: [u8; MESSAGE_LEN] = [
    68, 105, 101, 32, 70, 97, 99, 104, 115, 99, 104, 97, 102, 116, 32, 69, 108, 101, 107, 116,
    114, 111, 45, 32, 117, 110, 100, 32, 73, 110, 102, 111, 114, 109, 97, 116, 105, 111, 110,
    115, 116, 101, 99, 104, 110, 105, 107, 32, 97, 110, 32, 100, 101, 114, 32, 127, 32, 85,
    110, 105, 118, 101, 114, 115, 105, 116, 128, 116, 32, 83, 116, 117, 116, 116, 103, 97,
    114, 116, 32, 119, 130, 110, 115, 99, 104, 116, 32, 69, 117, 99, 104, 32, 97, 108, 108,
    101, 110, 32, 114, 101, 99, 104, 116, 32, 104, 101, 114, 122, 108, 105, 99, 104, 32, 101,
    105, 110, 32, 102, 114, 111, 104, 101, 115, 32, 87, 101, 105, 104, 110, 97, 99, 104, 116,
    115, 102, 101, 115, 116, 33
];

/// The text that scrolls out the previous text.
pub open spec fn clear_text() -> Seq<u8> {
    seq![69u8, 69u8]
}

/// Message state: whether the dark gap or the greeting scrolls, and where.
#[derive(Debug, Clone, Copy)]
pub struct Task {
    pub ticker: Ticker,
    pub scroller: TextScroller,
    pub clear: bool,
}

impl Task {
    /// The start state at `now`.
    pub open spec fn spec_new(now: Instant) -> Task {
        Task { ticker: Ticker::spec_every(now, 750), scroller: TextScroller::spec_new(), clear: true }
    }

    /// Starts with the dark gap at `now`; the text scrolls every 75 ms.
    pub fn new(now: Instant) -> (t: Task)
        ensures
            t == Task::spec_new(now),
    {
        Task { ticker: Ticker::every(now, text_duration()), scroller: TextScroller::new(), clear: true }
    }

    /// The text currently scrolling and its brightness.
    pub open spec fn current(self) -> (Seq<u8>, u8) {
        if self.clear {
            (clear_text(), 0u8)
        } else {
            (MESSAGE@, TEXT_BRIGHTNESS)
        }
    }

    /// Whether `next` and `fb2` are the animation and the framebuffer `fb`
    /// after one poll at `now`: each scroll period moves the current text
    /// one column; at its end the scroller restarts on the other text.
    pub open spec fn polled(self, next: Task, now: Instant, fb: Framebuffer, fb2: Framebuffer) -> bool {
        let tick = self.ticker.expires_at.spec_le(now);
        let (text, brightness) = self.current();
        let s1 = self.scroller.stepped(text);
        let done = s1.pos >= text.len();
        if tick {
            &&& next.ticker == self.ticker.spec_consumed()
            &&& scrolled(fb, fb2, self.scroller, text, brightness)
            &&& next.scroller == if done { TextScroller::spec_new() } else { s1 }
            &&& next.clear == if done { !self.clear } else { self.clear }
        } else {
            next == self && fb2 == fb
        }
    }

    /// One poll of the message at `now`.
    pub fn poll(&mut self, now: Instant, fb: &mut Framebuffer)
        ensures
            old(self).polled(*final(self), now, *old(fb), *final(fb)),
    {
        if self.ticker.consume_expired(now) {
            if self.clear {
                if self.scroller.advance_clear(fb) {
                    self.scroller = TextScroller::new();
                    self.clear = false;
                }
            } else {
                if self.scroller.advance(&MESSAGE, fb) {
                    self.scroller = TextScroller::new();
                    self.clear = true;
                }
            }
        }
    }
}

} // verus!
