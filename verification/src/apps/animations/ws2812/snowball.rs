//! Snowball: coloured balls roll outward along both halves of the chain;
//! the more balls are lit, the rarer new ones appear.
use vstd::prelude::*;
use crate::drivers::ws2812::{Color, LEDS};
use crate::time::{Duration, Instant, Ticker};
use crate::util::rand::{WhiteNoiseGenerator, byte_at, state_after};
use crate::util::ws2812::{FilteredWs2812, Tables, black};
use super::{refresh, refreshed};

verus! {

/// The number of lit LEDs among the first `n` of `leds`.
pub open spec fn count_lit(leds: [Color; LEDS], n: int) -> int
    decreases n,
{
    if n <= 0 {
        0
    } else {
        count_lit(leds, n - 1) + if leds@[n - 1] != black() { 1int } else { 0 }
    }
}

/// The chance (out of 256) that a new ball appears when `lit` LEDs are lit.
pub open spec fn probability(lit: int) -> int {
    85 - 8 * lit
}

/// The colour of a new ball of hue `h`.
pub open spec fn ball_color(hue: [u8; 256], h: u8) -> Color {
    Color { r: hue@[(h + 85) % 256], g: hue@[h as int], b: hue@[(h + 170) % 256] }
}

/// A new ball drawn from byte number `k` of register `s`: with the given
/// chance a ball of the next byte's hue, else darkness; and the number of
/// bytes used.
pub open spec fn new_ball(hue: [u8; 256], s: u32, k: nat, prob: int) -> (Color, nat) {
    if byte_at(s, k) < prob {
        (ball_color(hue, byte_at(s, k + 1)), 2)
    } else {
        (black(), 1)
    }
}

fn draw_ball(rng: &mut WhiteNoiseGenerator, hue: &[u8; 256], prob: u8) -> (c: Color)
    ensures
        c == new_ball(*hue, old(rng).lfsr, 0, prob as int).0,
        final(rng).lfsr == state_after(old(rng).lfsr, new_ball(*hue, old(rng).lfsr, 0, prob as int).1),
{
    proof {
        reveal_with_fuel(state_after, 3);
    }
    if rng.rand8() < prob {
        let h: u8 = rng.rand8();
        Color::new(hue[h.wrapping_add(85) as usize], hue[h as usize], hue[h.wrapping_add(170) as usize])
    } else {
        Color::new(0, 0, 0)
    }
}

proof fn lemma_state_after_add(s: u32, a: nat, b: nat)
    ensures
        state_after(state_after(s, a), b) == state_after(s, a + b),
    decreases b,
{
    if b > 0 {
        lemma_state_after_add(s, a, (b - 1) as nat);
    }
}

proof fn lemma_byte_at_add(s: u32, a: nat, b: nat)
    ensures
        byte_at(state_after(s, a), b) == byte_at(s, a + b),
{
    lemma_state_after_add(s, a, b);
}

/// Snowball state: the timing.
#[derive(Debug, Clone, Copy)]
pub struct Task {
    pub progress_ticker: Ticker,
    pub update_ticker: Ticker,
}

impl Task {
    /// The start state at `now`.
    pub open spec fn spec_new(now: Instant) -> Task {
        Task { progress_ticker: Ticker::spec_every(now, 15000), update_ticker: Ticker::spec_every(now, 500) }
    }

    /// Starts the snowballs at `now`: they roll every 1.5 s and the chain
    /// refreshes every 50 ms.
    pub fn new(now: Instant) -> (t: Task)
        ensures
            t == Task::spec_new(now),
    {
        Task {
            progress_ticker: Ticker::every(now, Duration::from_millis(1500)),
            update_ticker: Ticker::every(now, Duration::from_millis(50)),
        }
    }

    /// Whether `next`, `w2` and `s2` are the animation, the chain `w` and the
    /// register `s` after one poll at `now`: each period the balls of LEDs
    /// 0 to 2 roll toward LED 0 and those of LEDs 3 to 5 toward LED 5, and
    /// LEDs 2 and 3 get new balls.
    pub open spec fn polled(
        self,
        next: Task,
        now: Instant,
        w: FilteredWs2812,
        w2: FilteredWs2812,
        s: u32,
        s2: u32,
        tables: Tables,
    ) -> bool {
        let prog = self.progress_ticker.expires_at.spec_le(now);
        let t = w.target;
        let prob = probability(count_lit(t, LEDS as int));
        let first = new_ball(tables.hue, s, 0, prob);
        let second = new_ball(tables.hue, s, first.1, prob);
        exists|w1: FilteredWs2812| {
            &&& next.progress_ticker == if prog { self.progress_ticker.spec_consumed() } else { self.progress_ticker }
            &&& s2 == if prog { state_after(s, first.1 + second.1) } else { s }
            &&& w1.output == w.output && w1.pending == w.pending
            &&& w1.target@ == if prog {
                seq![t@[1], t@[2], first.0, second.0, t@[3], t@[4]]
            } else {
                t@
            }
            &&& refreshed(self.update_ticker, next.update_ticker, now, w1, w2)
        }
    }

    /// One poll of the snowballs at `now`.
    pub fn poll(&mut self, now: Instant, ws2812: &mut FilteredWs2812, rng: &mut WhiteNoiseGenerator, tables: &Tables)
        ensures
            old(self).polled(*final(self), now, *old(ws2812), *final(ws2812), old(rng).lfsr, final(rng).lfsr, *tables),
    {
        let ghost s = rng.lfsr;
        let ghost t = ws2812.target;
        if self.progress_ticker.consume_expired(now) {
            let mut num: u8 = 0;
            let mut i: usize = 0;
            while i < LEDS
                invariant
                    i <= LEDS,
                    ws2812.target == t,
                    num == count_lit(t, i as int),
                    count_lit(t, i as int) <= i,
                decreases LEDS - i,
            {
                if ws2812.target[i] != Color::new(0, 0, 0) {
                    num = num + 1;
                }
                i = i + 1;
            }
            let prob: u8 = 85 - 8 * num;
            let snowballs = ws2812.target_mut();
            snowballs[0] = snowballs[1];
            snowballs[1] = snowballs[2];
            snowballs[2] = draw_ball(rng, &tables.hue, prob);
            let ghost s1 = rng.lfsr;
            snowballs[5] = snowballs[4];
            snowballs[4] = snowballs[3];
            snowballs[3] = draw_ball(rng, &tables.hue, prob);
            proof {
                let first = new_ball(tables.hue, s, 0, prob as int);
                lemma_byte_at_add(s, first.1, 0);
                lemma_byte_at_add(s, first.1, 1);
                lemma_state_after_add(s, first.1, new_ball(tables.hue, s1, 0, prob as int).1);
                assert(ws2812.target@ =~= seq![t@[1], t@[2], first.0, new_ball(tables.hue, s, first.1, prob as int).0, t@[3], t@[4]]);
            }
        }
        let ghost w1 = *ws2812;
        refresh(&mut self.update_ticker, now, ws2812);
        assert(refreshed(old(self).update_ticker, self.update_ticker, now, w1, *ws2812));
    }
}

} // verus!
