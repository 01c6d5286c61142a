//! Hue wheel: the chain shows a rainbow that slowly turns.
use vstd::prelude::*;
use crate::drivers::ws2812::{Color, LEDS};
use crate::time::{Duration, Instant, Ticker};
use crate::util::ws2812::{FilteredWs2812, Tables};
use super::{refresh, refreshed};

verus! {

/// Hue offset between neighbouring LEDs.
pub const LED_SPACING: usize = 256 / LEDS;

/// The colour of the hue wheel at angle `ang`, from the hue table.
pub open spec fn wheel_color(hue: [u8; 256], ang: int) -> Color {
    Color { r: hue@[(ang + 85) % 256], g: hue@[ang % 256], b: hue@[(ang + 170) % 256] }
}

/// Hue wheel state: its rotation and its timing.
#[derive(Debug, Clone, Copy)]
pub struct Task {
    pub progress_ticker: Ticker,
    pub update_ticker: Ticker,
    pub counter: u8,
}

impl Task {
    /// The start state at `now`.
    pub open spec fn spec_new(now: Instant) -> Task {
        Task {
            progress_ticker: Ticker::spec_every(now, 3200),
            update_ticker: Ticker::spec_every(now, 100),
            counter: 0,
        }
    }

    /// Starts the wheel at `now`: it turns every 320 ms and the chain
    /// refreshes every 10 ms.
    pub fn new(now: Instant) -> (t: Task)
        ensures
            t == Task::spec_new(now),
    {
        Task {
            progress_ticker: Ticker::every(now, Duration::from_millis(320)),
            update_ticker: Ticker::every(now, Duration::from_millis(10)),
            counter: 0,
        }
    }

    /// Whether `next` and `w2` are the animation and the chain `w` after one
    /// poll at `now`: each period sets LED `i` to the wheel colour at angle
    /// `counter + i * 42` and turns the wheel by one.
    pub open spec fn polled(self, next: Task, now: Instant, w: FilteredWs2812, w2: FilteredWs2812, tables: Tables) -> bool {
        let prog = self.progress_ticker.expires_at.spec_le(now);
        exists|w1: FilteredWs2812| {
            &&& next.progress_ticker == if prog { self.progress_ticker.spec_consumed() } else { self.progress_ticker }
            &&& next.counter == if prog { (self.counter + 1) % 256 } else { self.counter as int }
            &&& w1.output == w.output && w1.pending == w.pending
            &&& forall|i: int| 0 <= i < LEDS ==> #[trigger] w1.target@[i] == if prog {
                wheel_color(tables.hue, self.counter + i * LED_SPACING)
            } else {
                w.target@[i]
            }
            &&& refreshed(self.update_ticker, next.update_ticker, now, w1, w2)
        }
    }

    /// One poll of the wheel at `now`.
    pub fn poll(&mut self, now: Instant, ws2812: &mut FilteredWs2812, tables: &Tables)
        ensures
            old(self).polled(*final(self), now, *old(ws2812), *final(ws2812), *tables),
    {
        if self.progress_ticker.consume_expired(now) {
            let mut ledno: usize = 0;
            while ledno < LEDS
                invariant
                    ledno <= LEDS,
                    ws2812.output == old(ws2812).output,
                    ws2812.pending == old(ws2812).pending,
                    forall|i: int| 0 <= i < ledno ==> #[trigger] ws2812.target@[i] == wheel_color(tables.hue, self.counter + i * LED_SPACING),
                decreases LEDS - ledno,
            {
                let ang: usize = self.counter as usize + ledno * LED_SPACING;
                let leds = ws2812.target_mut();
                leds[ledno] = Color::new(
                    tables.hue[(ang + 85) % 256],
                    tables.hue[ang % 256],
                    tables.hue[(ang + 170) % 256],
                );
                ledno = ledno + 1;
            }
            self.counter = self.counter.wrapping_add(1);
        }
        let ghost w1 = *ws2812;
        refresh(&mut self.update_ticker, now, ws2812);
        assert(refreshed(old(self).update_ticker, self.update_ticker, now, w1, *ws2812));
    }
}

} // verus!
