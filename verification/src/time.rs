//! Tick based time keeping: instants, durations and periodic tickers.
//!
//! The clock is a 32-bit tick counter that wraps around; instants are
//! compared by the sign of their wrapping difference, so comparisons are
//! only meaningful for instants less than 2^31 ticks apart.
use vstd::prelude::*;
use core::cmp::Ordering;

verus! {

/// Timer ticks per second: the matrix timer interrupt runs at 48 MHz / 4800.
pub const TICK_HZ: u32 = 10_000;

/// `v` reduced into the range of an `i32`, as two's complement wrapping does.
pub open spec fn wrap_i32(v: int) -> int {
    (v + 0x8000_0000) % 0x1_0000_0000 - 0x8000_0000
}

/// A span of time in timer ticks.
#[derive(Clone, Copy, Debug, PartialEq, Eq, Structural)]
pub struct Duration {
    pub ticks: u32,
}

impl Duration {
    /// A duration of `ticks` timer ticks.
    pub fn from_ticks(ticks: u32) -> (d: Duration)
        ensures
            d.ticks == ticks,
    {
        Duration { ticks }
    }

    /// A duration of `millis` milliseconds.
    pub fn from_millis(millis: u32) -> (d: Duration)
        requires
            millis * (TICK_HZ / 1000) <= u32::MAX,
        ensures
            d.ticks == millis * (TICK_HZ / 1000),
    {
        Duration { ticks: millis * (TICK_HZ / 1000) }
    }

    /// A duration of `secs` seconds.
    pub fn from_secs(secs: u32) -> (d: Duration)
        requires
            secs * TICK_HZ <= u32::MAX,
        ensures
            d.ticks == secs * TICK_HZ,
    {
        Duration { ticks: secs * TICK_HZ }
    }

    /// The length of this duration in ticks.
    pub fn as_ticks(&self) -> (t: u32)
        ensures
            t == self.ticks,
    {
        self.ticks
    }

    /// The longer of two durations.
    pub fn max(self, other: Duration) -> (d: Duration)
        ensures
            d.ticks == if self.ticks >= other.ticks { self.ticks } else { other.ticks },
    {
        if self.ticks >= other.ticks {
            self
        } else {
            other
        }
    }
}

/// An instant in time, the tick count since start-up, wrapping around.
#[derive(Clone, Copy, Debug, PartialEq, Eq, Structural)]
pub struct Instant {
    pub ticks: i32,
}

/// Wrapping difference `a - b` of two tick counts.
fn wrapping_diff(a: i32, b: i32) -> (d: i32)
    ensures
        d == wrap_i32(a - b),
{
    a.wrapping_sub(b)
}

/// `t + d` with the result wrapped into an `i32`.
fn wrapping_add_ticks(t: i32, d: u32) -> (r: i32)
    ensures
        r == wrap_i32(t + d),
{
    t.wrapping_add_unsigned(d)
}

/// `t - d` with the result wrapped into an `i32`.
fn wrapping_sub_ticks(t: i32, d: u32) -> (r: i32)
    ensures
        r == wrap_i32(t - d),
{
    let v: i64 = t as i64 - d as i64;
    if v < -0x8000_0000i64 {
        (v + 0x1_0000_0000i64) as i32
    } else {
        v as i32
    }
}

impl Instant {
    /// The smallest tick count. It comes before every instant less than
    /// 2^31 ticks after it (tick counts up to zero); the wrapping comparison
    /// puts it after the others.
    pub fn earliest() -> (i: Instant)
        ensures
            i.ticks == i32::MIN,
            forall|j: Instant| j.ticks <= 0 ==> #[trigger] instant_order(i, j) != Ordering::Greater,
    {
        Instant { ticks: i32::MIN }
    }

    /// The largest tick count. It comes after every instant less than 2^31
    /// ticks before it (tick counts from zero); the wrapping comparison puts
    /// it before the others.
    pub fn latest() -> (i: Instant)
        ensures
            i.ticks == i32::MAX,
            forall|j: Instant| j.ticks >= 0 ==> #[trigger] instant_order(i, j) != Ordering::Less,
    {
        Instant { ticks: i32::MAX }
    }

    /// The instant `ticks` ticks after start-up.
    pub fn from_ticks(ticks: i32) -> (i: Instant)
        ensures
            i.ticks == ticks,
    {
        Instant { ticks }
    }

    /// The tick count of this instant.
    pub fn as_ticks(&self) -> (t: i32)
        ensures
            t == self.ticks,
    {
        self.ticks
    }

    /// The wrapping difference `self - earlier` in ticks.
    pub open spec fn diff(self, earlier: Instant) -> int {
        wrap_i32(self.ticks - earlier.ticks)
    }

    /// The duration from `earlier` to `self`, or `None` when `earlier` lies
    /// after `self`.
    pub fn checked_duration_since(&self, earlier: Instant) -> (d: Option<Duration>)
        ensures
            d is Some <==> self.diff(earlier) >= 0,
            d matches Some(d) ==> d.ticks == self.diff(earlier),
    {
        let diff = wrapping_diff(self.ticks, earlier.ticks);
        if diff >= 0 {
            Some(Duration { ticks: diff as u32 })
        } else {
            None
        }
    }

    /// The duration from `earlier` to `self`; `earlier` must not lie after
    /// `self`.
    pub fn duration_since(&self, earlier: Instant) -> (d: Duration)
        requires
            self.diff(earlier) >= 0,
        ensures
            d.ticks == self.diff(earlier),
    {
        match self.checked_duration_since(earlier) {
            Some(d) => d,
            None => Duration { ticks: 0 },
        }
    }

    /// The duration from `earlier` to `self`, zero when `earlier` lies
    /// after `self`.
    pub fn saturating_duration_since(&self, earlier: Instant) -> (d: Duration)
        ensures
            d.ticks == if self.diff(earlier) >= 0 { self.diff(earlier) } else { 0 },
    {
        let diff = wrapping_diff(self.ticks, earlier.ticks);
        Duration { ticks: if diff >= 0 { diff as u32 } else { 0 } }
    }

    /// The time elapsed from `self` until `now`.
    pub fn elapsed(&self, now: Instant) -> (d: Duration)
        requires
            now.diff(*self) >= 0,
        ensures
            d.ticks == now.diff(*self),
    {
        now.duration_since(*self)
    }

    /// The instant `d` after `self`.
    pub fn add_duration(self, d: Duration) -> (i: Instant)
        ensures
            i.ticks == wrap_i32(self.ticks + d.ticks),
    {
        Instant { ticks: wrapping_add_ticks(self.ticks, d.ticks) }
    }

    /// The instant `d` before `self`.
    pub fn sub_duration(self, d: Duration) -> (i: Instant)
        ensures
            i.ticks == wrap_i32(self.ticks - d.ticks),
    {
        Instant { ticks: wrapping_sub_ticks(self.ticks, d.ticks) }
    }

    /// Moves `self` forward by `d`.
    pub fn add_assign(&mut self, d: Duration)
        ensures
            final(self).ticks == wrap_i32(old(self).ticks + d.ticks),
    {
        *self = self.add_duration(d);
    }

    /// Moves `self` backward by `d`.
    pub fn sub_assign(&mut self, d: Duration)
        ensures
            final(self).ticks == wrap_i32(old(self).ticks - d.ticks),
    {
        *self = self.sub_duration(d);
    }

    /// Whether `self` is not later than `other`, comparing by the sign of
    /// the wrapping difference.
    pub open spec fn spec_le(self, other: Instant) -> bool {
        wrap_i32(self.ticks - other.ticks) <= 0
    }

    /// Whether `self` is not later than `other`.
    pub fn le(&self, other: &Instant) -> (b: bool)
        ensures
            b == self.spec_le(*other),
    {
        wrapping_diff(self.ticks, other.ticks) <= 0
    }

    /// The order of `self` and `other`: the sign of their wrapping
    /// difference. This is only transitive among instants less than 2^31
    /// ticks apart.
    pub fn cmp(&self, other: &Instant) -> (o: Ordering)
        ensures
            o == instant_order(*self, *other),
    {
        let d = wrapping_diff(self.ticks, other.ticks);
        if d < 0 {
            Ordering::Less
        } else if d == 0 {
            Ordering::Equal
        } else {
            Ordering::Greater
        }
    }

    /// The order of `self` and `other`; instants are always comparable.
    pub fn partial_cmp(&self, other: &Instant) -> (o: Option<Ordering>)
        ensures
            o == Some(instant_order(*self, *other)),
    {
        Some(self.cmp(other))
    }
}

/// The order of two instants: the sign of the wrapping difference of their
/// tick counts.
pub open spec fn instant_order(a: Instant, b: Instant) -> Ordering {
    if wrap_i32(a.ticks - b.ticks) < 0 {
        Ordering::Less
    } else if wrap_i32(a.ticks - b.ticks) == 0 {
        Ordering::Equal
    } else {
        Ordering::Greater
    }
}

/// A periodic timer: it expires every `duration` ticks.
#[derive(Clone, Copy, Debug)]
pub struct Ticker {
    pub expires_at: Instant,
    pub duration: Duration,
}

impl Ticker {
    /// The ticker with period `ticks` started at `now`.
    pub open spec fn spec_every(now: Instant, ticks: u32) -> Ticker {
        Ticker {
            expires_at: Instant { ticks: wrap_i32(now.ticks + ticks) as i32 },
            duration: Duration { ticks },
        }
    }

    /// A ticker that first expires `duration` after `now`.
    pub fn every(now: Instant, duration: Duration) -> (t: Ticker)
        ensures
            t == Ticker::spec_every(now, duration.ticks),
    {
        Ticker { expires_at: now.add_duration(duration), duration }
    }

    /// Whether the current period has run out at `now`.
    pub fn expired(&self, now: Instant) -> (b: bool)
        ensures
            b == self.expires_at.spec_le(now),
    {
        self.expires_at.le(&now)
    }

    /// Starts the next period.
    pub fn consume_next(&mut self)
        ensures
            final(self).duration == old(self).duration,
            final(self).expires_at.ticks == wrap_i32(
                old(self).expires_at.ticks + old(self).duration.ticks,
            ),
    {
        self.expires_at.add_assign(self.duration);
    }

    /// When the current period has run out at `now`, starts the next one
    /// and returns `true`; otherwise leaves the ticker as it is.
    pub fn consume_expired(&mut self, now: Instant) -> (b: bool)
        ensures
            b == old(self).expires_at.spec_le(now),
            *final(self) == (if b { old(self).spec_consumed() } else { *old(self) }),
    {
        if self.expired(now) {
            self.consume_next();
            true
        } else {
            false
        }
    }

    /// The ticker after one more period has been started.
    pub open spec fn spec_consumed(self) -> Ticker {
        Ticker {
            expires_at: Instant { ticks: wrap_i32(self.expires_at.ticks + self.duration.ticks) as i32 },
            duration: self.duration,
        }
    }

    /// Restarts the period at `now`.
    pub fn reset(&mut self, now: Instant)
        ensures
            final(self).duration == old(self).duration,
            final(self).expires_at.ticks == wrap_i32(now.ticks + old(self).duration.ticks),
    {
        self.expires_at = now.add_duration(self.duration);
    }

    /// The period.
    pub fn duration(&self) -> (d: Duration)
        ensures
            d == self.duration,
    {
        self.duration
    }

    /// Sets the period of the following ticks; the current one still ends
    /// when it was due.
    pub fn set_duration(&mut self, duration: Duration)
        ensures
            *final(self) == (Ticker { duration, ..*old(self) }),
    {
        self.duration = duration;
    }
}

/// `x % 2^32` for `x` in `0 .. 2^33`.
proof fn lemma_mod_once(x: int)
    requires
        0 <= x < 0x2_0000_0000,
    ensures
        x % 0x1_0000_0000 == if x < 0x1_0000_0000 { x } else { x - 0x1_0000_0000 },
{
    if x < 0x1_0000_0000 {
        vstd::arithmetic::div_mod::lemma_small_mod(x as nat, 0x1_0000_0000);
    } else {
        vstd::arithmetic::div_mod::lemma_small_mod((x - 0x1_0000_0000) as nat, 0x1_0000_0000);
        vstd::arithmetic::div_mod::lemma_mod_sub_multiples_vanish(x, 0x1_0000_0000);
    }
}

/// Moving an instant forward by `d` and back again gives the same
/// instant, however the tick counter wraps.
pub proof fn lemma_add_sub_roundtrip(i: Instant, d: Duration)
    ensures
        wrap_i32(wrap_i32(i.ticks + d.ticks) - d.ticks) == i.ticks,
{
    let t = i.ticks as int;
    let k = d.ticks as int;
    lemma_mod_once(t + k + 0x8000_0000);
    let w = wrap_i32(t + k);
    if w - k + 0x8000_0000 >= 0 {
        lemma_mod_once(w - k + 0x8000_0000);
    } else {
        lemma_mod_once(w - k + 0x8000_0000 + 0x1_0000_0000);
        vstd::arithmetic::div_mod::lemma_mod_add_multiples_vanish(w - k + 0x8000_0000, 0x1_0000_0000);
    }
}

/// The duration from an instant to the instant `d` later is `d`, for
/// any `d` shorter than half the counter range, and the earlier instant
/// then counts as not later than the later one.
pub proof fn lemma_since_after_add(i: Instant, d: Duration)
    requires
        d.ticks <= i32::MAX,
    ensures
        (Instant { ticks: wrap_i32(i.ticks + d.ticks) as i32 }).diff(i) == d.ticks,
        i.spec_le(Instant { ticks: wrap_i32(i.ticks + d.ticks) as i32 }),
{
    let t = i.ticks as int;
    let k = d.ticks as int;
    lemma_mod_once(t + k + 0x8000_0000);
    let w = wrap_i32(t + k);
    if w - t + 0x8000_0000 >= 0 {
        lemma_mod_once(w - t + 0x8000_0000);
    } else {
        lemma_mod_once(w - t + 0x8000_0000 + 0x1_0000_0000);
        vstd::arithmetic::div_mod::lemma_mod_add_multiples_vanish(w - t + 0x8000_0000, 0x1_0000_0000);
    }
    if t - w + 0x8000_0000 >= 0 {
        lemma_mod_once(t - w + 0x8000_0000);
    } else {
        lemma_mod_once(t - w + 0x8000_0000 + 0x1_0000_0000);
        vstd::arithmetic::div_mod::lemma_mod_add_multiples_vanish(t - w + 0x8000_0000, 0x1_0000_0000);
    }
}

} // verus!
