//! The LED chain animations and the cycle through them.
pub mod fire;
pub mod huewheel;
pub mod snowball;

use vstd::prelude::*;
use crate::time::{Instant, Ticker};
use crate::util::rand::WhiteNoiseGenerator;
use crate::util::ws2812::{FilteredWs2812, Tables};

verus! {

/// Whether `t2` and `w2` follow from the refresh step of a chain animation
/// at `now`: when the refresh period has run out and the chain driver took
/// the last frame, the shown colours fade one step and the next period
/// starts; otherwise nothing changes.
pub open spec fn refreshed(t: Ticker, t2: Ticker, now: Instant, w: FilteredWs2812, w2: FilteredWs2812) -> bool {
    if t.expires_at.spec_le(now) && !w.pending {
        t2 == t.spec_consumed() && w.updated(w2)
    } else {
        t2 == t && w2 == w
    }
}

/// The refresh step of a chain animation.
pub fn refresh(t: &mut Ticker, now: Instant, ws2812: &mut FilteredWs2812)
    ensures
        refreshed(*old(t), *final(t), now, *old(ws2812), *final(ws2812)),
{
    if t.expired(now) && ws2812.try_update() {
        t.consume_next();
    }
}

/// The chain animation that is running.
#[derive(Debug, Clone, Copy)]
pub enum Task {
    Fire(fire::Task),
    Snowball(snowball::Task),
    Huewheel(huewheel::Task),
}

/// The position of an animation in the cycle.
pub open spec fn kind(t: Task) -> int {
    match t {
        Task::Fire(_) => 0,
        Task::Snowball(_) => 1,
        Task::Huewheel(_) => 2,
    }
}

impl Task {
    /// Whether `t` is the start state of the animation after `self` in the
    /// cycle fire, snowball, hue wheel, started at `now` from register `s`.
    pub open spec fn is_next(self, t: Task, now: Instant, s: u32) -> bool {
        match self {
            Task::Fire(_) => t == Task::Snowball(snowball::Task::spec_new(now)),
            Task::Snowball(_) => t == Task::Huewheel(huewheel::Task::spec_new(now)),
            Task::Huewheel(_) => t matches Task::Fire(f) && fire::Task::is_new(f, now, s),
        }
    }

    /// The fire, started at `now`.
    pub fn new(now: Instant, rng: &mut WhiteNoiseGenerator) -> (t: Task)
        ensures
            t matches Task::Fire(f) && fire::Task::is_new(f, now, old(rng).lfsr),
            final(rng).lfsr == crate::util::rand::state_after(old(rng).lfsr, 6),
    {
        Task::Fire(fire::Task::new(now, rng))
    }

    /// Switches to the next animation of the cycle, started at `now`; the
    /// fire draws its phases from `rng`.
    pub fn next(&mut self, now: Instant, rng: &mut WhiteNoiseGenerator)
        ensures
            old(self).is_next(*final(self), now, old(rng).lfsr),
            kind(*final(self)) == (kind(*old(self)) + 1) % 3,
            final(rng).lfsr == if *old(self) is Huewheel {
                crate::util::rand::state_after(old(rng).lfsr, 6)
            } else {
                old(rng).lfsr
            },
    {
        *self = match self {
            Task::Fire(_) => Task::Snowball(snowball::Task::new(now)),
            Task::Snowball(_) => Task::Huewheel(huewheel::Task::new(now)),
            Task::Huewheel(_) => Task::Fire(fire::Task::new(now, rng)),
        };
    }

    /// Whether `next`, `w2` and `s2` follow from one poll of the running
    /// animation at `now`.
    pub open spec fn polled(
        self,
        next: Task,
        now: Instant,
        w: FilteredWs2812,
        w2: FilteredWs2812,
        s: u32,
        s2: u32,
        tables: Tables,
    ) -> bool {
        match (self, next) {
            (Task::Fire(a), Task::Fire(b)) => a.polled(b, now, w, w2, s, s2, tables),
            (Task::Snowball(a), Task::Snowball(b)) => a.polled(b, now, w, w2, s, s2, tables),
            (Task::Huewheel(a), Task::Huewheel(b)) => a.polled(b, now, w, w2, tables) && s2 == s,
            _ => false,
        }
    }

    /// One poll of the running animation at `now`.
    pub fn poll(&mut self, now: Instant, ws2812: &mut FilteredWs2812, rng: &mut WhiteNoiseGenerator, tables: &Tables)
        ensures
            old(self).polled(*final(self), now, *old(ws2812), *final(ws2812), old(rng).lfsr, final(rng).lfsr, *tables),
    {
        match self {
            Task::Fire(task) => task.poll(now, ws2812, rng, tables),
            Task::Snowball(task) => task.poll(now, ws2812, rng, tables),
            Task::Huewheel(task) => task.poll(now, ws2812, tables),
        }
    }
}

} // verus!
