//! Fire: the chain flickers in warm colours, each LED following its own
//! randomly advancing phase.
use vstd::prelude::*;
use crate::drivers::ws2812::{Color, LEDS};
use crate::time::{Duration, Instant, Ticker};
use crate::util::rand::{WhiteNoiseGenerator, byte_at, state_after};
use crate::util::ws2812::{FilteredWs2812, Tables};
use super::{refresh, refreshed};

verus! {

/// The hue index of a fire LED at phase `phase`: the sine of the phase,
/// scaled down to the red and yellow part of the hue table.
pub open spec fn fire_shade(sin: [u8; 128], phase: u16) -> int {
    let index = phase / 256;
    let s = if index >= 128 { 255 - sin@[index - 128] } else { sin@[index as int] as int };
    s / 8
}

/// The colour of a fire LED at phase `phase`.
pub open spec fn fire_color(tables: Tables, phase: u16) -> Color {
    let rs = fire_shade(tables.sin, phase);
    Color {
        r: tables.hue@[(rs + 30) % 256] / 4,
        g: tables.hue@[rs] / 8,
        b: tables.hue@[(rs + 190) % 256] / 8,
    }
}

/// The colour of a fire LED at phase `phase`.
fn fire_led(tables: &Tables, phase: u16) -> (c: Color)
    ensures
        c == fire_color(*tables, phase),
{
    let index: usize = (phase >> 8u16) as usize;
    assert(phase >> 8u16 == phase / 256) by (bit_vector);
    let s: u8 = if index >= 128 { 255 - tables.sin[index - 128] } else { tables.sin[index] };
    let rs: u8 = s >> 3u8;
    assert(s >> 3u8 == s / 8) by (bit_vector);
    let r: u8 = ((tables.hue[rs.wrapping_add(30) as usize] as u32) >> 2u32) as u8;
    let g: u8 = ((tables.hue[rs as usize] as u32) >> 3u32) as u8;
    let b: u8 = ((tables.hue[rs.wrapping_add(190) as usize] as u32) >> 3u32) as u8;
    proof {
        let h1 = tables.hue@[(rs + 30) % 256] as u32;
        let h2 = tables.hue@[rs as int] as u32;
        let h3 = tables.hue@[(rs + 190) % 256] as u32;
        assert(h1 >> 2u32 == h1 / 4 && h2 >> 3u32 == h2 / 8 && h3 >> 3u32 == h3 / 8) by (bit_vector);
    }
    Color::new(r, g, b)
}

/// Fire state: the phase of each LED and the timing.
#[derive(Debug, Clone, Copy)]
pub struct Task {
    pub progress_ticker: Ticker,
    pub update_ticker: Ticker,
    pub phases: [u16; LEDS],
}

impl Task {
    /// Whether `t` is the start state at `now` drawn from register `s`:
    /// each phase starts at a random byte times 128.
    pub open spec fn is_new(t: Task, now: Instant, s: u32) -> bool {
        &&& t.progress_ticker == Ticker::spec_every(now, 1000)
        &&& t.update_ticker == Ticker::spec_every(now, 100)
        &&& forall|i: int| 0 <= i < LEDS ==> #[trigger] t.phases@[i] == byte_at(s, i as nat) * 128
    }

    /// Starts the fire at `now` with random phases: the phases advance
    /// every 100 ms and the chain refreshes every 10 ms.
    pub fn new(now: Instant, rng: &mut WhiteNoiseGenerator) -> (t: Task)
        ensures
            Task::is_new(t, now, old(rng).lfsr),
            final(rng).lfsr == state_after(old(rng).lfsr, LEDS as nat),
    {
        let mut phases: [u16; LEDS] = [0u16; LEDS];
        let mut i: usize = 0;
        while i < LEDS
            invariant
                i <= LEDS,
                rng.lfsr == state_after(old(rng).lfsr, i as nat),
                forall|k: int| 0 <= k < i ==> #[trigger] phases@[k] == byte_at(old(rng).lfsr, k as nat) * 128,
            decreases LEDS - i,
        {
            let r: u8 = rng.rand8();
            let r16: u16 = r as u16;
            assert(r16 << 7u16 == r16 * 128) by (bit_vector)
                requires
                    r16 < 256,
            ;
            phases[i] = r16 << 7u16;
            i = i + 1;
        }
        Task {
            progress_ticker: Ticker::every(now, Duration::from_millis(100)),
            update_ticker: Ticker::every(now, Duration::from_millis(10)),
            phases,
        }
    }

    /// Whether `next`, `w2` and `s2` are the animation, the chain `w` and the
    /// register `s` after one poll at `now`: each period every phase
    /// advances by a random byte (wrapping) and every LED takes the fire
    /// colour of its phase.
    pub open spec fn polled(
        self,
        next: Task,
        now: Instant,
        w: FilteredWs2812,
        w2: FilteredWs2812,
        s: u32,
        s2: u32,
        tables: Tables,
    ) -> bool {
        let prog = self.progress_ticker.expires_at.spec_le(now);
        exists|w1: FilteredWs2812| {
            &&& next.progress_ticker == if prog { self.progress_ticker.spec_consumed() } else { self.progress_ticker }
            &&& s2 == if prog { state_after(s, LEDS as nat) } else { s }
            &&& forall|i: int| 0 <= i < LEDS ==> #[trigger] next.phases@[i] == if prog {
                (self.phases@[i] + byte_at(s, i as nat)) % 0x10000
            } else {
                self.phases@[i] as int
            }
            &&& w1.output == w.output && w1.pending == w.pending
            &&& forall|i: int| 0 <= i < LEDS ==> #[trigger] w1.target@[i] == if prog {
                fire_color(tables, next.phases@[i])
            } else {
                w.target@[i]
            }
            &&& refreshed(self.update_ticker, next.update_ticker, now, w1, w2)
        }
    }

    /// One poll of the fire at `now`.
    pub fn poll(&mut self, now: Instant, ws2812: &mut FilteredWs2812, rng: &mut WhiteNoiseGenerator, tables: &Tables)
        ensures
            old(self).polled(*final(self), now, *old(ws2812), *final(ws2812), old(rng).lfsr, final(rng).lfsr, *tables),
    {
        if self.progress_ticker.consume_expired(now) {
            let ghost p0 = self.phases;
            let ghost tk = (self.progress_ticker, self.update_ticker);
            let mut i: usize = 0;
            while i < LEDS
                invariant
                    i <= LEDS,
                    self.progress_ticker == tk.0 && self.update_ticker == tk.1,
                    rng.lfsr == state_after(old(rng).lfsr, i as nat),
                    forall|k: int| 0 <= k < i ==> #[trigger] self.phases@[k] == (p0@[k] + byte_at(old(rng).lfsr, k as nat)) % 0x10000,
                    forall|k: int| i <= k < LEDS ==> #[trigger] self.phases@[k] == p0@[k],
                decreases LEDS - i,
            {
                let r: u8 = rng.rand8();
                self.phases[i] = self.phases[i].wrapping_add(r as u16);
                i = i + 1;
            }
            let mut k: usize = 0;
            while k < LEDS
                invariant
                    k <= LEDS,
                    ws2812.output == old(ws2812).output,
                    ws2812.pending == old(ws2812).pending,
                    forall|j: int| 0 <= j < k ==> #[trigger] ws2812.target@[j] == fire_color(*tables, self.phases@[j]),
                decreases LEDS - k,
            {
                let c: Color = fire_led(tables, self.phases[k]);
                let leds = ws2812.target_mut();
                leds[k] = c;
                k = k + 1;
            }
        }
        let ghost w1 = *ws2812;
        refresh(&mut self.update_ticker, now, ws2812);
        assert(refreshed(old(self).update_ticker, self.update_ticker, now, w1, *ws2812));
    }
}

} // verus!
