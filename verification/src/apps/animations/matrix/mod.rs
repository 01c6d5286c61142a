//! The matrix animations and the cycle through them.
pub mod message;
pub mod rand_pulse;
pub mod snowfall;
pub mod sparkle;

use vstd::prelude::*;
use crate::drivers::matrix::{Framebuffer, WIDTH, HEIGHT};
use crate::time::Instant;
use crate::util::rand::WhiteNoiseGenerator;

verus! {

/// A brightness faded by 1/128, rounded down.
pub open spec fn fade(v: u8) -> u8 {
    (127 * v / 128) as u8
}

/// `cur` faded by 1/128, rounded down.
pub fn fade_value(cur: u8) -> (v: u8)
    ensures
        v == fade(cur),
{
    let c: u32 = cur as u32;
    assert(c << 7u32 == 128 * c) by (bit_vector)
        requires
            c < 256,
    ;
    let d: u32 = (c << 7u32) - c;
    assert(d >> 7u32 == d / 128) by (bit_vector);
    (d >> 7u32) as u8
}

/// Whether every pixel of `fb2` is the faded pixel of `fb`.
pub open spec fn faded_all(fb: Framebuffer, fb2: Framebuffer) -> bool {
    forall|x: int, y: int| 0 <= x < WIDTH && 0 <= y < HEIGHT ==> #[trigger] fb2.px(x, y) == fade(fb.px(x, y))
}

/// Fades every pixel by 1/128.
pub fn fade_all(fb: &mut Framebuffer)
    ensures
        faded_all(*old(fb), *final(fb)),
{
    let ghost fb0 = *fb;
    let mut y: usize = 0;
    while y < HEIGHT
        invariant
            y <= HEIGHT,
            forall|i: int, j: int| 0 <= i < WIDTH && 0 <= j < y ==> #[trigger] fb.px(i, j) == fade(fb0.px(i, j)),
            forall|i: int, j: int| 0 <= i < WIDTH && y <= j < HEIGHT ==> #[trigger] fb.px(i, j) == fb0.px(i, j),
        decreases HEIGHT - y,
    {
        let mut x: usize = 0;
        while x < WIDTH
            invariant
                y < HEIGHT,
                x <= WIDTH,
                forall|i: int, j: int| 0 <= i < WIDTH && 0 <= j < y ==> #[trigger] fb.px(i, j) == fade(fb0.px(i, j)),
                forall|i: int| 0 <= i < x ==> #[trigger] fb.px(i, y as int) == fade(fb0.px(i, y as int)),
                forall|i: int, j: int| 0 <= i < WIDTH && y <= j < HEIGHT && !(j == y && i < x) ==> #[trigger] fb.px(i, j) == fb0.px(i, j),
            decreases WIDTH - x,
        {
            let cur: u8 = fb.load(x, y);
            fb.store(x, y, fade_value(cur));
            x = x + 1;
        }
        y = y + 1;
    }
}

/// The matrix animation that is running.
#[derive(Debug, Clone, Copy)]
pub enum Task {
    Message(message::Task),
    Snowfall(snowfall::Task),
    Sparkle(sparkle::Task),
    RandPulse(rand_pulse::Task),
}

/// The position of an animation in the cycle.
pub open spec fn kind(t: Task) -> int {
    match t {
        Task::Message(_) => 0,
        Task::Snowfall(_) => 1,
        Task::Sparkle(_) => 2,
        Task::RandPulse(_) => 3,
    }
}

impl Task {
    /// The greeting message, started at `now`.
    pub fn new(now: Instant) -> (t: Task)
        ensures
            t matches Task::Message(m) && m == message::Task::spec_new(now),
    {
        Task::Message(message::Task::new(now))
    }

    /// Switches to the next animation of the cycle message, snowfall,
    /// sparkle, random pulse, started at `now`.
    pub fn next(&mut self, now: Instant)
        ensures
            kind(*final(self)) == (kind(*old(self)) + 1) % 4,
            final(self).is_fresh(now),
    {
        *self = match self {
            Task::Message(_) => Task::Snowfall(snowfall::Task::new(now)),
            Task::Snowfall(_) => Task::Sparkle(sparkle::Task::new(now)),
            Task::Sparkle(_) => Task::RandPulse(rand_pulse::Task::new(now)),
            Task::RandPulse(_) => Task::Message(message::Task::new(now)),
        }
    }

    /// Whether `t` is the start state at `now` of the animation after
    /// `self` in the cycle.
    pub open spec fn is_next(self, t: Task, now: Instant) -> bool {
        kind(t) == (kind(self) + 1) % 4 && t.is_fresh(now)
    }

    /// Whether the animation is in its start state for `now`.
    pub open spec fn is_fresh(self, now: Instant) -> bool {
        match self {
            Task::Message(m) => m == message::Task::spec_new(now),
            Task::Snowfall(t) => t == snowfall::Task::spec_new(now),
            Task::Sparkle(t) => t == sparkle::Task::spec_new(now),
            Task::RandPulse(t) => t == rand_pulse::Task::spec_new(now),
        }
    }

    /// Whether `next`, `fb2` and `s2` follow from one poll of the running
    /// animation at `now`.
    pub open spec fn polled(
        self,
        next: Task,
        now: Instant,
        fb: Framebuffer,
        fb2: Framebuffer,
        s: u32,
        s2: u32,
    ) -> bool {
        match (self, next) {
            (Task::Message(a), Task::Message(b)) => a.polled(b, now, fb, fb2) && s2 == s,
            (Task::Snowfall(a), Task::Snowfall(b)) => a.polled(b, now, fb, fb2, s, s2),
            (Task::Sparkle(a), Task::Sparkle(b)) => a.polled(b, now, fb, fb2, s, s2),
            (Task::RandPulse(a), Task::RandPulse(b)) => a.polled(b, now, fb, fb2, s, s2),
            _ => false,
        }
    }

    /// One poll of the running animation at `now`.
    pub fn poll(&mut self, now: Instant, fb: &mut Framebuffer, rng: &mut WhiteNoiseGenerator)
        ensures
            old(self).polled(*final(self), now, *old(fb), *final(fb), old(rng).lfsr, final(rng).lfsr),
    {
        match self {
            Task::Message(task) => task.poll(now, fb),
            Task::Sparkle(task) => task.poll(now, fb, rng),
            Task::Snowfall(task) => task.poll(now, fb, rng),
            Task::RandPulse(task) => task.poll(now, fb, rng),
        }
    }
}

} // verus!
