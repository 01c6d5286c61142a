//! The badge's two apps, animations and games, and the switch between
//! them.
pub mod animations;
pub mod games;

use vstd::prelude::*;
use crate::drivers::buttons::Buttons;
use crate::drivers::flash::ScoreFlasher;
use crate::drivers::matrix::Framebuffer;
use crate::time::Instant;
use crate::util::rand::{WhiteNoiseGenerator, state_after};
use crate::util::ws2812::{FilteredWs2812, Tables};

verus! {

/// The running app.
#[derive(Debug, Clone, Copy)]
pub enum Main {
    Animations(animations::Task),
    Games(games::Task),
}

impl Main {
    /// Whether the running app can take a poll.
    pub open spec fn ready(self) -> bool {
        match self {
            Main::Animations(_) => true,
            Main::Games(t) => t.ready(),
        }
    }

    /// Whether `fb` shows the running game where it relies on it.
    pub open spec fn shown(self, fb: Framebuffer) -> bool {
        match self {
            Main::Animations(_) => true,
            Main::Games(t) => t.shown(fb),
        }
    }

    /// The animations at start-up time `now`, drawing from `rng`.
    pub fn new(now: Instant, rng: &mut WhiteNoiseGenerator) -> (m: Main)
        ensures
            m matches Main::Animations(t) && animations::Task::is_new(t, now, old(rng).lfsr),
            final(rng).lfsr == state_after(old(rng).lfsr, 6),
            m.ready(),
    {
        Main::Animations(animations::Task::new(now, rng))
    }

    /// Whether the outputs follow from one poll at `now`: the running app
    /// is polled, and when it is left the other one starts.
    pub open spec fn polled(
        self,
        next: Main,
        now: Instant,
        b: Buttons,
        b2: Buttons,
        fb: Framebuffer,
        fb2: Framebuffer,
        w: FilteredWs2812,
        w2: FilteredWs2812,
        s: u32,
        s2: u32,
        f: ScoreFlasher,
        f2: ScoreFlasher,
        tables: Tables,
    ) -> bool {
        match self {
            Main::Animations(a) => {
                &&& f2 == f
                &&& exists|a2: animations::Task, w1: FilteredWs2812, ret: bool|
                    #[trigger] a.polled(a2, now, b, b2, fb, fb2, w, w1, s, s2, tables, ret) && if ret {
                        next matches Main::Games(g) && games::Task::started(g, now, w1, w2)
                    } else {
                        next == Main::Animations(a2) && w2 == w1
                    }
            },
            Main::Games(g) => exists|g2: games::Task, s1: u32, ret: bool|
                #[trigger] g.polled(g2, now, b, b2, fb, fb2, w, w2, s, s1, f, f2, tables, ret) && if ret {
                    next matches Main::Animations(a) && animations::Task::is_new(a, now, s1) && s2 == state_after(s1, 6)
                } else {
                    next == Main::Games(g2) && s2 == s1
                },
        }
    }

    /// One poll of the running app at `now`.
    pub fn poll(
        &mut self,
        now: Instant,
        buttons: &mut Buttons,
        fb: &mut Framebuffer,
        ws2812: &mut FilteredWs2812,
        rng: &mut WhiteNoiseGenerator,
        flasher: &mut ScoreFlasher,
        tables: &Tables,
    )
        requires
            old(self).ready(),
            old(self).shown(*old(fb)),
        ensures
            old(self).polled(
                *final(self),
                now,
                *old(buttons),
                *final(buttons),
                *old(fb),
                *final(fb),
                *old(ws2812),
                *final(ws2812),
                old(rng).lfsr,
                final(rng).lfsr,
                *old(flasher),
                *final(flasher),
                *tables,
            ),
            final(self).ready(),
            final(self).shown(*final(fb)),
    {
        match *self {
            Main::Animations(app) => {
                let mut app = app;
                let done = app.poll(now, buttons, fb, ws2812, rng, tables);
                if done {
                    *self = Main::Games(games::Task::new(now, ws2812));
                } else {
                    *self = Main::Animations(app);
                }
            },
            Main::Games(app) => {
                let mut app = app;
                let done = app.poll(now, buttons, fb, ws2812, rng, flasher, tables);
                if done {
                    *self = Main::Animations(animations::Task::new(now, rng));
                } else {
                    *self = Main::Games(app);
                }
            },
        }
    }
}

} // verus!
