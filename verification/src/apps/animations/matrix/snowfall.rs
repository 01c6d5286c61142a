//! Snowfall: random flakes fall down the matrix and pile up in the bottom
//! row; a full bottom row melts away.
use vstd::prelude::*;
use crate::drivers::matrix::{Framebuffer, WIDTH, HEIGHT};
use crate::time::{Duration, Instant, Ticker};
use crate::util::rand::{WhiteNoiseGenerator, byte_at, state_after};
use super::{fade, fade_value};

verus! {

/// Brightness of a new flake.
pub const FLAKE_BRIGHTNESS: u8 = 127;

/// Snowfall state: when flakes fall, and when a full bottom row melts.
#[derive(Debug, Clone, Copy)]
pub struct Task {
    pub advance_ticker: Ticker,
    pub clear_ticker: Option<Ticker>,
}

/// Whether every pixel of the bottom row is lit in `fb`, after the row
/// above has settled onto it.
pub open spec fn bottom_full(fb: Framebuffer) -> bool {
    forall|x: int| 0 <= x < WIDTH ==> (#[trigger] fb.px(x, HEIGHT - 2) | fb.px(x, HEIGHT - 1)) != 0
}

impl Task {
    /// The start state at `now`.
    pub open spec fn spec_new(now: Instant) -> Task {
        Task { advance_ticker: Ticker::spec_every(now, 2560), clear_ticker: None }
    }

    /// Starts the animation at `now`: flakes fall every 256 ms.
    pub fn new(now: Instant) -> (t: Task)
        ensures
            t == Task::spec_new(now),
    {
        Task {
            advance_ticker: Ticker::every(now, Duration::from_millis(256)),
            clear_ticker: None,
        }
    }

    /// The framebuffer pixel after the falling step of a poll: flakes fall
    /// by one row, the second last row settles onto the bottom row unless it
    /// is melting, and new flakes appear at the top from the random bytes.
    pub open spec fn fallen(self, fb: Framebuffer, s: u32, x: int, y: int) -> u8 {
        if y == 0 {
            if byte_at(s, x as nat) < 4 { FLAKE_BRIGHTNESS } else { 0 }
        } else if y < HEIGHT - 1 {
            fb.px(x, y - 1)
        } else if self.clear_ticker is None {
            fb.px(x, HEIGHT - 2) | fb.px(x, HEIGHT - 1)
        } else {
            fb.px(x, HEIGHT - 1)
        }
    }

    /// The framebuffer pixel after the falling step of a poll at `now`.
    pub open spec fn mid(self, now: Instant, fb: Framebuffer, s: u32, x: int, y: int) -> u8 {
        if self.advance_ticker.expires_at.spec_le(now) {
            self.fallen(fb, s, x, y)
        } else {
            fb.px(x, y)
        }
    }

    /// Whether `next`, `fb2` and `s2` are the animation, the framebuffer `fb`
    /// and the register `s` after one poll at `now`.
    pub open spec fn polled(
        self,
        next: Task,
        now: Instant,
        fb: Framebuffer,
        fb2: Framebuffer,
        s: u32,
        s2: u32,
    ) -> bool {
        let adv = self.advance_ticker.expires_at.spec_le(now);
        let starts_melting = adv && self.clear_ticker is None && bottom_full(fb);
        let ct1 = if starts_melting { Some(Ticker::spec_every(now, 40)) } else { self.clear_ticker };
        let melt = ct1 matches Some(t) && t.expires_at.spec_le(now);
        &&& next.advance_ticker == if adv { self.advance_ticker.spec_consumed() } else { self.advance_ticker }
        &&& s2 == if adv { state_after(s, WIDTH as nat) } else { s }
        &&& forall|x: int, y: int|
            0 <= x < WIDTH && 0 <= y < HEIGHT ==> #[trigger] fb2.px(x, y) == if melt && y == HEIGHT - 1 {
                fade(self.mid(now, fb, s, x, y))
            } else {
                self.mid(now, fb, s, x, y)
            }
        &&& next.clear_ticker == if melt {
            if forall|x: int| 0 <= x < WIDTH ==> #[trigger] fade(self.mid(now, fb, s, x, HEIGHT - 1)) == 0 {
                None
            } else {
                Some(ct1.unwrap().spec_consumed())
            }
        } else {
            ct1
        }
    }

    /// One poll of the animation at `now`.
    pub fn poll(&mut self, now: Instant, fb: &mut Framebuffer, rng: &mut WhiteNoiseGenerator)
        ensures
            old(self).polled(*final(self), now, *old(fb), *final(fb), old(rng).lfsr, final(rng).lfsr),
    {
        let ghost t0 = *self;
        let ghost fb0 = *fb;
        let ghost s = rng.lfsr;
        if self.advance_ticker.consume_expired(now) {
            if self.clear_ticker.is_none() {
                let mut full: bool = true;
                let mut x: usize = 0;
                while x < WIDTH
                    invariant
                        x <= WIDTH,
                        full == forall|i: int| 0 <= i < x ==> (#[trigger] fb0.px(i, HEIGHT - 2) | fb0.px(i, HEIGHT - 1)) != 0,
                        forall|i: int| 0 <= i < x ==> #[trigger] fb.px(i, HEIGHT - 1) == (fb0.px(i, HEIGHT - 2) | fb0.px(i, HEIGHT - 1)),
                        forall|i: int, j: int| 0 <= i < WIDTH && 0 <= j < HEIGHT && !(j == HEIGHT - 1 && i < x) ==> #[trigger] fb.px(i, j) == fb0.px(i, j),
                    decreases WIDTH - x,
                {
                    let t: u8 = fb.load(x, HEIGHT - 2);
                    let b: u8 = fb.load(x, HEIGHT - 1);
                    let new: u8 = t | b;
                    fb.store(x, HEIGHT - 1, new);
                    if new == 0 {
                        full = false;
                    }
                    x = x + 1;
                }
                if full {
                    self.clear_ticker = Some(Ticker::every(now, Duration::from_millis(4)));
                }
            }
            let ghost fb1 = *fb;
            let mut i: usize = HEIGHT - 2;
            while i > 0
                invariant
                    i <= HEIGHT - 2,
                    forall|x: int, y: int| 0 <= x < WIDTH && 0 <= y <= i ==> #[trigger] fb.px(x, y) == fb1.px(x, y),
                    forall|x: int, y: int| 0 <= x < WIDTH && i < y < HEIGHT - 1 ==> #[trigger] fb.px(x, y) == fb1.px(x, y - 1),
                    forall|x: int| 0 <= x < WIDTH ==> #[trigger] fb.px(x, HEIGHT - 1) == fb1.px(x, HEIGHT - 1),
                decreases i,
            {
                i = i - 1;
                let mut x: usize = 0;
                while x < WIDTH
                    invariant
                        i < HEIGHT - 2,
                        x <= WIDTH,
                        forall|a: int, y: int| 0 <= a < WIDTH && 0 <= y <= i ==> #[trigger] fb.px(a, y) == fb1.px(a, y),
                        forall|a: int| 0 <= a < x ==> #[trigger] fb.px(a, i + 1) == fb1.px(a, i as int),
                        forall|a: int| x <= a < WIDTH ==> #[trigger] fb.px(a, i + 1) == fb1.px(a, i + 1),
                        forall|a: int, y: int| 0 <= a < WIDTH && i + 1 < y < HEIGHT - 1 ==> #[trigger] fb.px(a, y) == fb1.px(a, y - 1),
                        forall|a: int| 0 <= a < WIDTH ==> #[trigger] fb.px(a, HEIGHT - 1) == fb1.px(a, HEIGHT - 1),
                    decreases WIDTH - x,
                {
                    let v: u8 = fb.load(x, i);
                    fb.store(x, i + 1, v);
                    x = x + 1;
                }
            }
            let ghost s_top = rng.lfsr;
            let mut x: usize = 0;
            while x < WIDTH
                invariant
                    x <= WIDTH,
                    s_top == s,
                    rng.lfsr == state_after(s, x as nat),
                    forall|a: int| 0 <= a < x ==> #[trigger] fb.px(a, 0) == if byte_at(s, a as nat) < 4 { FLAKE_BRIGHTNESS } else { 0 },
                    forall|a: int, y: int| 0 <= a < WIDTH && 1 <= y < HEIGHT - 1 ==> #[trigger] fb.px(a, y) == fb1.px(a, y - 1),
                    forall|a: int| 0 <= a < WIDTH ==> #[trigger] fb.px(a, HEIGHT - 1) == fb1.px(a, HEIGHT - 1),
                decreases WIDTH - x,
            {
                let r: u8 = rng.rand8();
                fb.store(x, 0, if r < 4 { FLAKE_BRIGHTNESS } else { 0 });
                x = x + 1;
            }
            assert forall|a: int, y: int| 0 <= a < WIDTH && 0 <= y < HEIGHT implies #[trigger] fb.px(a, y) == t0.fallen(fb0, s, a, y) by {
                if y == HEIGHT - 1 {
                    if t0.clear_ticker is None {
                        assert(fb1.px(a, HEIGHT - 1) == (fb0.px(a, HEIGHT - 2) | fb0.px(a, HEIGHT - 1)));
                    }
                } else if y >= 1 {
                    assert(fb1.px(a, y - 1) == fb0.px(a, y - 1));
                }
            }
        }
        let ghost fb2 = *fb;
        let ghost ct1 = self.clear_ticker;
        assert forall|x: int, y: int| 0 <= x < WIDTH && 0 <= y < HEIGHT implies #[trigger] t0.mid(now, fb0, s, x, y) == fb2.px(x, y) by {}
        let melt: bool = match &mut self.clear_ticker {
            Some(t) => t.consume_expired(now),
            None => false,
        };
        assert(melt ==> self.clear_ticker == Some(ct1.unwrap().spec_consumed()));
        assert(!melt ==> self.clear_ticker == ct1);
        if melt {
            let ghost tk = *self;
            let mut empty: bool = true;
            let mut x: usize = 0;
            while x < WIDTH
                invariant
                    x <= WIDTH,
                    *self == tk,
                    empty == forall|i: int| 0 <= i < x ==> #[trigger] fade(fb2.px(i, HEIGHT - 1)) == 0,
                    forall|i: int| 0 <= i < x ==> #[trigger] fb.px(i, HEIGHT - 1) == fade(fb2.px(i, HEIGHT - 1)),
                    forall|i: int, j: int| 0 <= i < WIDTH && 0 <= j < HEIGHT && !(j == HEIGHT - 1 && i < x) ==> #[trigger] fb.px(i, j) == fb2.px(i, j),
                decreases WIDTH - x,
            {
                let cur: u8 = fb.load(x, HEIGHT - 1);
                let new: u8 = fade_value(cur);
                fb.store(x, HEIGHT - 1, new);
                if new != 0 {
                    empty = false;
                }
                x = x + 1;
            }
            assert forall|x: int| 0 <= x < WIDTH implies #[trigger] fade(t0.mid(now, fb0, s, x, HEIGHT - 1)) == fade(fb2.px(x, HEIGHT - 1)) by {
                assert(t0.mid(now, fb0, s, x, HEIGHT - 1) == fb2.px(x, HEIGHT - 1));
            }
            proof {
                if !empty {
                    let i = choose|i: int| 0 <= i < WIDTH && #[trigger] fade(fb2.px(i, HEIGHT - 1)) != 0;
                    assert(fade(t0.mid(now, fb0, s, i, HEIGHT - 1)) != 0);
                }
            }
            if empty {
                self.clear_ticker = None;
            }
        }
        let ghost adv = t0.advance_ticker.expires_at.spec_le(now);
        assert(self.advance_ticker == if adv { t0.advance_ticker.spec_consumed() } else { t0.advance_ticker });
        assert(rng.lfsr == if adv { state_after(s, WIDTH as nat) } else { s });
        assert(ct1 == if adv && t0.clear_ticker is None && bottom_full(fb0) { Some(Ticker::spec_every(now, 40)) } else { t0.clear_ticker });
        assert(melt == (ct1 matches Some(t) && t.expires_at.spec_le(now)));
        let ghost meltg = ct1 matches Some(t) && t.expires_at.spec_le(now);
        assert forall|x: int, y: int| 0 <= x < WIDTH && 0 <= y < HEIGHT implies #[trigger] fb.px(x, y) == if meltg && y == HEIGHT - 1 {
                fade(t0.mid(now, fb0, s, x, y))
            } else {
                t0.mid(now, fb0, s, x, y)
            } by {
            assert(t0.mid(now, fb0, s, x, y) == fb2.px(x, y));
        }
        assert(self.clear_ticker == if meltg {
            if forall|x: int| 0 <= x < WIDTH ==> #[trigger] fade(t0.mid(now, fb0, s, x, HEIGHT - 1)) == 0 {
                None
            } else {
                Some(ct1.unwrap().spec_consumed())
            }
        } else {
            ct1
        });
    }
}

} // verus!
