//! Sparkle: random pixels flash up and fade out.
use vstd::prelude::*;
use crate::drivers::matrix::{Framebuffer, WIDTH, HEIGHT};
use crate::time::{Duration, Instant, Ticker};
use crate::util::rand::{WhiteNoiseGenerator, byte_at, state_after};
use super::{fade, fade_all, faded_all};

verus! {

/// Sparkle animation state: when to light a new pixel and when to fade.
#[derive(Debug, Clone, Copy)]
pub struct Task {
    pub gen_ticker: Ticker,
    pub update_ticker: Ticker,
}

impl Task {
    /// The start state at `now`.
    pub open spec fn spec_new(now: Instant) -> Task {
        Task { gen_ticker: Ticker::spec_every(now, 2560), update_ticker: Ticker::spec_every(now, 40) }
    }

    /// Starts the animation at `now`: a new pixel may light every 256 ms,
    /// the matrix fades every 4 ms.
    pub fn new(now: Instant) -> (t: Task)
        ensures
            t == Task::spec_new(now),
    {
        Task {
            gen_ticker: Ticker::every(now, Duration::from_millis(256)),
            update_ticker: Ticker::every(now, Duration::from_millis(4)),
        }
    }

    /// Whether `next`, `fb2` and `s2` are the animation, the framebuffer `fb`
    /// and the register `s` after one poll at `now`: when the generation
    /// period ran out, with even chance a random pixel lights up fully; when
    /// the fading period ran out, every pixel fades by 1/128.
    pub open spec fn polled(
        self,
        next: Task,
        now: Instant,
        fb: Framebuffer,
        fb2: Framebuffer,
        s: u32,
        s2: u32,
    ) -> bool {
        let gen = self.gen_ticker.expires_at.spec_le(now);
        let upd = self.update_ticker.expires_at.spec_le(now);
        let lit = gen && byte_at(s, 0) < 128;
        let row = byte_at(s, 1) % 9;
        let col = byte_at(s, 2) % 8;
        &&& next.gen_ticker == if gen { self.gen_ticker.spec_consumed() } else { self.gen_ticker }
        &&& next.update_ticker == if upd { self.update_ticker.spec_consumed() } else { self.update_ticker }
        &&& s2 == if lit { state_after(s, 3) } else if gen { state_after(s, 1) } else { s }
        &&& forall|x: int, y: int|
            0 <= x < WIDTH && 0 <= y < HEIGHT ==> {
                let v = if lit && x == col && y == row { 255u8 } else { fb.px(x, y) };
                #[trigger] fb2.px(x, y) == if upd { fade(v) } else { v }
            }
    }

    /// One poll of the animation at `now`.
    pub fn poll(&mut self, now: Instant, fb: &mut Framebuffer, rng: &mut WhiteNoiseGenerator)
        ensures
            old(self).polled(*final(self), now, *old(fb), *final(fb), old(rng).lfsr, final(rng).lfsr),
    {
        let ghost s = rng.lfsr;
        let ghost fb0 = *fb;
        if self.gen_ticker.consume_expired(now) && rng.rand8() < 128 {
            let row: usize = (rng.rand8() as usize) % HEIGHT;
            let col: usize = (rng.rand8() as usize) % WIDTH;
            fb.store(col, row, 255);
        }
        let ghost fb1 = *fb;
        if self.update_ticker.consume_expired(now) {
            fade_all(fb);
            assert(faded_all(fb1, *fb));
        }
        proof {
            reveal_with_fuel(state_after, 4);
        }
    }
}

} // verus!
