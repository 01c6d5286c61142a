//! The animation app: a matrix animation and a chain animation run side by
//! side and change automatically or by button.
pub mod matrix;
pub mod ws2812;

use vstd::prelude::*;
use crate::drivers::buttons::{Button, Buttons, Event, decode_event};
use crate::drivers::matrix::Framebuffer;
use crate::time::{Duration, Instant, Ticker};
use crate::util::rand::{WhiteNoiseGenerator, state_after};
use crate::util::ws2812::{FilteredWs2812, Tables};

verus! {

/// Time after which both animations change automatically, in seconds.
pub const AUTO_SECS: u32 = 45;

/// Time after which both animations change automatically, in ticks.
pub const AUTO_TICKS: u32 = 450_000;

/// Animation app state: the two animations and, while the automatic change
/// is on, its timer.
#[derive(Debug, Clone, Copy)]
pub struct Task {
    pub matrix: matrix::Task,
    pub ws2812: ws2812::Task,
    pub ticker: Option<Ticker>,
}

/// Whether `e` is a press of `b`.
pub open spec fn is_press(e: Option<Event>, b: Button) -> bool {
    e == Some(Event { button: b, pressed: true })
}

impl Task {
    /// Whether `t` is the start state at `now` drawn from register `s`: the
    /// greeting message, the fire and the automatic change on.
    pub open spec fn is_new(t: Task, now: Instant, s: u32) -> bool {
        &&& t.matrix == matrix::Task::Message(matrix::message::Task::spec_new(now))
        &&& t.ws2812 matches ws2812::Task::Fire(f) && ws2812::fire::Task::is_new(f, now, s)
        &&& t.ticker == Some(Ticker::spec_every(now, AUTO_TICKS))
    }

    /// The app at start-up time `now`.
    pub fn new(now: Instant, rng: &mut WhiteNoiseGenerator) -> (t: Task)
        ensures
            Task::is_new(t, now, old(rng).lfsr),
            final(rng).lfsr == state_after(old(rng).lfsr, 6),
    {
        Task {
            matrix: matrix::Task::new(now),
            ws2812: ws2812::Task::new(now, rng),
            ticker: Some(Ticker::every(now, Duration::from_secs(AUTO_SECS))),
        }
    }

    /// Whether `t1` and `s1` follow from handling event `ev` at `now` with
    /// register `s`: Select turns the automatic change back on, L changes
    /// the chain animation and R the matrix animation, both turning the
    /// automatic change off.
    pub open spec fn handled(self, ev: Option<Event>, now: Instant, s: u32, t1: Task, s1: u32) -> bool {
        if is_press(ev, Button::Select) {
            t1 == Task { ticker: Some(Ticker::spec_every(now, AUTO_TICKS)), ..self } && s1 == s
        } else if is_press(ev, Button::L) {
            &&& self.ws2812.is_next(t1.ws2812, now, s)
            &&& s1 == if self.ws2812 is Huewheel { state_after(s, 6) } else { s }
            &&& t1.matrix == self.matrix
            &&& t1.ticker is None
        } else if is_press(ev, Button::R) {
            &&& self.matrix.is_next(t1.matrix, now)
            &&& t1.ws2812 == self.ws2812
            &&& t1.ticker is None
            &&& s1 == s
        } else {
            t1 == self && s1 == s
        }
    }

    /// Whether `t2` and `s2` follow from the automatic change at `now`:
    /// when its period has run out, both animations change.
    pub open spec fn auto_changed(self, now: Instant, s: u32, t2: Task, s2: u32) -> bool {
        if self.ticker matches Some(t) && t.expires_at.spec_le(now) {
            &&& t2.ticker == Some(self.ticker.unwrap().spec_consumed())
            &&& self.matrix.is_next(t2.matrix, now)
            &&& self.ws2812.is_next(t2.ws2812, now, s)
            &&& s2 == if self.ws2812 is Huewheel { state_after(s, 6) } else { s }
        } else {
            t2 == self && s2 == s
        }
    }

    /// Whether `next` and the other outputs follow from one poll at `now`:
    /// the pending button event is taken; a press of Start leaves the app
    /// (the result is `true`); otherwise the event is handled, the
    /// automatic change applied and both animations polled.
    pub open spec fn polled(
        self,
        next: Task,
        now: Instant,
        b: Buttons,
        b2: Buttons,
        fb: Framebuffer,
        fb2: Framebuffer,
        w: FilteredWs2812,
        w2: FilteredWs2812,
        s: u32,
        s2: u32,
        tables: Tables,
        ret: bool,
    ) -> bool {
        let ev = decode_event(b.signal);
        &&& b2.signal == 0
        &&& b2.state == b.state
        &&& if is_press(ev, Button::Start) {
            ret && next == self && fb2 == fb && w2 == w && s2 == s
        } else {
            &&& !ret
            &&& exists|t1: Task, t2: Task, sa: u32, sb: u32, sc: u32| {
                &&& self.handled(ev, now, s, t1, sa)
                &&& t1.auto_changed(now, sa, t2, sb)
                &&& next.ticker == t2.ticker
                &&& t2.matrix.polled(next.matrix, now, fb, fb2, sb, sc)
                &&& t2.ws2812.polled(next.ws2812, now, w, w2, sc, s2, tables)
            }
        }
    }

    /// One poll of the app at `now`; returns whether Start was pressed.
    pub fn poll(
        &mut self,
        now: Instant,
        buttons: &mut Buttons,
        fb: &mut Framebuffer,
        ws2812: &mut FilteredWs2812,
        rng: &mut WhiteNoiseGenerator,
        tables: &Tables,
    ) -> (ret: bool)
        ensures
            old(self).polled(
                *final(self),
                now,
                *old(buttons),
                *final(buttons),
                *old(fb),
                *final(fb),
                *old(ws2812),
                *final(ws2812),
                old(rng).lfsr,
                final(rng).lfsr,
                *tables,
                ret,
            ),
    {
        let ghost s = rng.lfsr;
        match buttons.event() {
            Some(Event { pressed: true, button }) => match button {
                Button::Start => return true,
                Button::Select => {
                    self.ticker = Some(Ticker::every(now, Duration::from_secs(AUTO_SECS)));
                },
                Button::L => {
                    self.ws2812.next(now, rng);
                    self.ticker = None;
                },
                Button::R => {
                    self.matrix.next(now);
                    self.ticker = None;
                },
            },
            _ => {},
        }
        let ghost t1 = *self;
        let ghost sa = rng.lfsr;
        let auto: bool = match &mut self.ticker {
            Some(t) => t.consume_expired(now),
            None => false,
        };
        if auto {
            self.matrix.next(now);
            self.ws2812.next(now, rng);
        }
        let ghost t2 = *self;
        let ghost sb = rng.lfsr;
        self.matrix.poll(now, fb, rng);
        let ghost sc = rng.lfsr;
        self.ws2812.poll(now, ws2812, rng, tables);
        assert(t1.auto_changed(now, sa, t2, sb));
        assert(t2.matrix.polled(self.matrix, now, *old(fb), *fb, sb, sc));
        false
    }
}

} // verus!
