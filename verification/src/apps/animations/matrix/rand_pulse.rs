//! Random pulse: random pixels slowly glow up to a target brightness and
//! fade out again.
use vstd::prelude::*;
use crate::drivers::matrix::{Framebuffer, WIDTH, HEIGHT};
use crate::time::{Duration, Instant, Ticker};
use crate::util::rand::{WhiteNoiseGenerator, byte_at, state_after};

verus! {

/// Brightness at which a glowing pixel turns around.
pub const TARGET_BRIGHTNESS: u8 = 150;

/// Whether bit `k` of `t` is set.
pub open spec fn bit(t: u8, k: int) -> bool {
    (t >> (k as u8)) & 1u8 == 1u8
}

proof fn lemma_bit_set(t: u8, c: u8, k: u8)
    requires
        c < 8,
        k < 8,
    ensures
        bit(t | (1u8 << c), k as int) == (bit(t, k as int) || k == c),
{
    assert(((t | (1u8 << c)) >> k) & 1u8 == 1u8 <==> (((t >> k) & 1u8 == 1u8) || k == c)) by (bit_vector)
        requires
            c < 8,
            k < 8,
    ;
}

proof fn lemma_bit_clear(t: u8, c: u8, k: u8)
    requires
        c < 8,
        k < 8,
    ensures
        bit(t & !(1u8 << c), k as int) == (bit(t, k as int) && k != c),
{
    assert(((t & !(1u8 << c)) >> k) & 1u8 == 1u8 <==> (((t >> k) & 1u8 == 1u8) && k != c)) by (bit_vector)
        requires
            c < 8,
            k < 8,
    ;
}

proof fn lemma_bit_test(t: u8, c: u8)
    requires
        c < 8,
    ensures
        (t & (1u8 << c) != 0) == bit(t, c as int),
{
    assert((t & (1u8 << c) != 0) == ((t >> c) & 1u8 == 1u8)) by (bit_vector)
        requires
            c < 8,
    ;
}

/// Random pulse state: the pixels that are glowing up, one bit per column.
#[derive(Debug, Clone, Copy)]
pub struct Task {
    pub gen_ticker: Ticker,
    pub update_ticker: Ticker,
    pub target_buf: [u8; HEIGHT],
}

/// A pixel of brightness `cur` after one update step toward or away from
/// the target brightness.
pub open spec fn pulse_pixel(glowing: bool, cur: u8) -> u8 {
    if glowing {
        if cur < TARGET_BRIGHTNESS { (cur + 1) as u8 } else { cur }
    } else if cur > 0 {
        (cur - 1) as u8
    } else {
        cur
    }
}

impl Task {
    /// The start state at `now`: no pixel glowing.
    pub open spec fn spec_new(now: Instant) -> Task {
        Task {
            gen_ticker: Ticker::spec_every(now, 3000),
            update_ticker: Ticker::spec_every(now, 100),
            target_buf: [0u8; HEIGHT],
        }
    }

    /// Starts the animation at `now`: a pixel starts glowing every 300 ms,
    /// brightness changes every 10 ms.
    pub fn new(now: Instant) -> (t: Task)
        ensures
            t == Task::spec_new(now),
    {
        Task {
            gen_ticker: Ticker::every(now, Duration::from_millis(300)),
            update_ticker: Ticker::every(now, Duration::from_millis(10)),
            target_buf: [0u8; HEIGHT],
        }
    }

    /// Whether pixel `(x, y)` glows up after the generation step of a poll.
    pub open spec fn glowing(self, now: Instant, s: u32, x: int, y: int) -> bool {
        let gen = self.gen_ticker.expires_at.spec_le(now);
        bit(self.target_buf@[y], x) || (gen && y == byte_at(s, 0) % 9 && x == byte_at(s, 1) % 8)
    }

    /// Whether `next`, `fb2` and `s2` are the animation, the framebuffer `fb`
    /// and the register `s` after one poll at `now`: when the generation
    /// period ran out, a random pixel starts glowing; when the update period
    /// ran out, glowing pixels brighten by one until they reach the target
    /// brightness, where they stop glowing, and other pixels darken by one.
    pub open spec fn polled(
        self,
        next: Task,
        now: Instant,
        fb: Framebuffer,
        fb2: Framebuffer,
        s: u32,
        s2: u32,
    ) -> bool {
        let gen = self.gen_ticker.expires_at.spec_le(now);
        let upd = self.update_ticker.expires_at.spec_le(now);
        &&& next.gen_ticker == if gen { self.gen_ticker.spec_consumed() } else { self.gen_ticker }
        &&& next.update_ticker == if upd { self.update_ticker.spec_consumed() } else { self.update_ticker }
        &&& s2 == if gen { state_after(s, 2) } else { s }
        &&& forall|x: int, y: int|
            0 <= x < WIDTH && 0 <= y < HEIGHT ==> {
                &&& #[trigger] fb2.px(x, y) == if upd {
                    pulse_pixel(self.glowing(now, s, x, y), fb.px(x, y))
                } else {
                    fb.px(x, y)
                }
                &&& bit(next.target_buf@[y], x) == (self.glowing(now, s, x, y) && !(upd
                    && fb.px(x, y) >= TARGET_BRIGHTNESS))
            }
    }

    /// One poll of the animation at `now`.
    pub fn poll(&mut self, now: Instant, fb: &mut Framebuffer, rng: &mut WhiteNoiseGenerator)
        ensures
            old(self).polled(*final(self), now, *old(fb), *final(fb), old(rng).lfsr, final(rng).lfsr),
    {
        let ghost s = rng.lfsr;
        let ghost t0 = *self;
        if self.gen_ticker.consume_expired(now) {
            let row: usize = (rng.rand8() as usize) % HEIGHT;
            let col: usize = (rng.rand8() as usize) % WIDTH;
            let old_row: u8 = self.target_buf[row];
            self.target_buf[row] = old_row | (1u8 << (col as u8));
        }
        proof {
            reveal_with_fuel(state_after, 3);
        }
        let ghost t1 = self.target_buf;
        assert forall|x: int, y: int| 0 <= x < WIDTH && 0 <= y < HEIGHT implies #[trigger] bit(t1@[y], x) == t0.glowing(now, s, x, y) by {
            if t0.gen_ticker.expires_at.spec_le(now) {
                let row = byte_at(s, 0) % 9;
                let col = byte_at(s, 1) % 8;
                if y == row {
                    lemma_bit_set(t0.target_buf@[y], col as u8, x as u8);
                }
            }
        }
        if self.update_ticker.consume_expired(now) {
            let ghost fb0 = *fb;
            let ghost tick = (self.gen_ticker, self.update_ticker);
            let mut y: usize = 0;
            while y < HEIGHT
                invariant
                    y <= HEIGHT,
                    self.gen_ticker == tick.0 && self.update_ticker == tick.1,
                    forall|i: int, j: int|
                        0 <= i < WIDTH && 0 <= j < y ==> {
                            &&& #[trigger] fb.px(i, j) == pulse_pixel(bit(t1@[j], i), fb0.px(i, j))
                            &&& bit(self.target_buf@[j], i) == (bit(t1@[j], i) && fb0.px(i, j) < TARGET_BRIGHTNESS)
                        },
                    forall|i: int, j: int|
                        0 <= i < WIDTH && y <= j < HEIGHT ==> #[trigger] fb.px(i, j) == fb0.px(i, j),
                    forall|j: int| y <= j < HEIGHT ==> #[trigger] self.target_buf@[j] == t1@[j],
                decreases HEIGHT - y,
            {
                let mut row_bits: u8 = self.target_buf[y];
                let mut x: usize = 0;
                while x < WIDTH
                    invariant
                        y < HEIGHT,
                        self.gen_ticker == tick.0 && self.update_ticker == tick.1,
                        x <= WIDTH,
                        forall|i: int, j: int|
                            0 <= i < WIDTH && 0 <= j < y ==> {
                                &&& #[trigger] fb.px(i, j) == pulse_pixel(bit(t1@[j], i), fb0.px(i, j))
                                &&& bit(self.target_buf@[j], i) == (bit(t1@[j], i) && fb0.px(i, j) < TARGET_BRIGHTNESS)
                            },
                        forall|i: int| 0 <= i < x ==> #[trigger] fb.px(i, y as int) == pulse_pixel(bit(t1@[y as int], i), fb0.px(i, y as int)),
                        forall|i: int| 0 <= i < x ==> #[trigger] bit(row_bits, i) == (bit(t1@[y as int], i) && fb0.px(i, y as int) < TARGET_BRIGHTNESS),
                        forall|i: int| x <= i < WIDTH ==> #[trigger] bit(row_bits, i) == bit(t1@[y as int], i),
                        forall|i: int, j: int|
                            0 <= i < WIDTH && y <= j < HEIGHT && !(j == y && i < x) ==> #[trigger] fb.px(i, j) == fb0.px(i, j),
                        forall|j: int| y <= j < HEIGHT ==> #[trigger] self.target_buf@[j] == t1@[j],
                    decreases WIDTH - x,
                {
                    let cur: u8 = fb.load(x, y);
                    let target: bool = row_bits & (1u8 << (x as u8)) != 0;
                    proof {
                        lemma_bit_test(row_bits, x as u8);
                    }
                    if target {
                        if cur < TARGET_BRIGHTNESS {
                            fb.store(x, y, cur + 1);
                        } else {
                            let ghost rb = row_bits;
                            row_bits = row_bits & !(1u8 << (x as u8));
                            proof {
                                assert forall|k: int| 0 <= k < WIDTH implies #[trigger] bit(row_bits, k) == (bit(rb, k) && k != x) by {
                                    lemma_bit_clear(rb, x as u8, k as u8);
                                }
                            }
                        }
                    } else if cur > 0 {
                        fb.store(x, y, cur - 1);
                    }
                    x = x + 1;
                }
                self.target_buf[y] = row_bits;
                assert forall|i: int, j: int| 0 <= i < WIDTH && 0 <= j <= y implies {
                    &&& #[trigger] fb.px(i, j) == pulse_pixel(bit(t1@[j], i), fb0.px(i, j))
                    &&& bit(self.target_buf@[j], i) == (bit(t1@[j], i) && fb0.px(i, j) < TARGET_BRIGHTNESS)
                } by {
                    if j == y {
                        assert(bit(row_bits, i) == (bit(t1@[y as int], i) && fb0.px(i, y as int) < TARGET_BRIGHTNESS));
                    }
                }
                y = y + 1;
            }
        }
    }
}

} // verus!