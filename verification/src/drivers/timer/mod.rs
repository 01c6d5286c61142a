//! The timer interrupt's logic: it multiplexes the LED matrix row by row
//! and, between rows, samples the buttons; it also counts the time.
pub mod buttons;
pub mod matrix;

use vstd::prelude::*;
use buttons::{Buttons, Group, Sample, next_fcount};
use matrix::{Framebuffer, ROWS, PWM_MAX};
use crate::time::{Instant, wrap_i32};

verus! {

/// Timer period in clock cycles; the PWM compare values count against it.
pub const CYCLES: u16 = 4800;

/// Which half of a row period comes next: the positive column lines with
/// the button inputs, or the negative column lines.
#[derive(Debug, PartialEq, Eq, Clone, Copy, Structural)]
pub enum AltGroup {
    PosIn,
    NegOut,
}

/// The compare values to load for the next half period.
#[derive(Debug, Clone, Copy)]
pub enum GroupSetup {
    /// Positive lines: the three TIM1 channels 1, 2 and 4, showing column
    /// lines 5, 2 and 7; the button pins become inputs.
    PosIn([u16; 3]),
    /// Negative lines: TIM1 channels 1 and 2 (lines 0 and 1) and the four
    /// TIM2 channels (lines 8, 6, 3 and 4); the buttons are sampled.
    NegOut([u16; 2], [u16; 4]),
}

/// State of the matrix and button multiplexing.
#[derive(Debug, Clone, Copy)]
pub struct TimerDriver {
    pub start_cnt: u16,
    pub fcount: Group<u8>,
    pub row: usize,
    pub next_group: AltGroup,
}

/// The PWM value of column line `col` for row `row` of `fb`.
pub open spec fn pwm_of(fb: Framebuffer, col: int, row: int) -> u16 {
    (CYCLES - matrix::gamma(fb.line_brightness(col, row))) as u16
}

impl TimerDriver {
    /// The state at start-up: first half of row 0 next, no button samples.
    pub fn new() -> (t: TimerDriver)
        ensures
            t.start_cnt == 0,
            t.fcount.0@ == seq![0u8, 0u8, 0u8, 0u8],
            t.row == 0,
            t.next_group == AltGroup::PosIn,
    {
        let t = TimerDriver { start_cnt: 0, fcount: Group([0, 0, 0, 0]), row: 0, next_group: AltGroup::PosIn };
        assert(t.fcount.0@ =~= seq![0u8, 0u8, 0u8, 0u8]);
        t
    }

    /// Whether the row lies on the matrix.
    pub open spec fn wf(self) -> bool {
        self.row < ROWS
    }

    /// The PWM compare value of column line `col` for the current row.
    pub fn get_pwm(&self, fb: &Framebuffer, col: usize) -> (pwm: u16)
        ensures
            pwm == pwm_of(*fb, col as int, self.row as int),
    {
        fb.get_pwm(col, self.row, CYCLES)
    }

    /// The multiplexing state after switching to the next half period.
    pub open spec fn spec_next(self) -> TimerDriver {
        match self.next_group {
            AltGroup::PosIn => TimerDriver {
                row: if self.row < ROWS - 1 { (self.row + 1) as usize } else { 0 },
                next_group: AltGroup::NegOut,
                ..self
            },
            AltGroup::NegOut => TimerDriver { next_group: AltGroup::PosIn, ..self },
        }
    }

    /// The multiplexing state after `n` half periods.
    pub open spec fn spec_steps(self, n: nat) -> TimerDriver
        decreases n,
    {
        if n == 0 {
            self
        } else {
            self.spec_next().spec_steps((n - 1) as nat)
        }
    }

    /// Switches to the next half period and returns the compare values to
    /// load: the positive half moves on to the next row (wrapping around)
    /// and precedes the negative half of the same row.
    pub fn setup_next_group(&mut self, fb: &Framebuffer) -> (setup: GroupSetup)
        requires
            old(self).wf(),
        ensures
            final(self).wf(),
            *final(self) == old(self).spec_next(),
            old(self).next_group == AltGroup::PosIn ==> {
                let row = if old(self).row < ROWS - 1 { old(self).row + 1 } else { 0 };
                &&& final(self).row == row
                &&& final(self).next_group == AltGroup::NegOut
                &&& setup == GroupSetup::PosIn([pwm_of(*fb, 5, row), pwm_of(*fb, 2, row), pwm_of(*fb, 7, row)])
            },
            old(self).next_group == AltGroup::NegOut ==> {
                let row = old(self).row as int;
                &&& final(self).row == old(self).row
                &&& final(self).next_group == AltGroup::PosIn
                &&& setup == GroupSetup::NegOut(
                    [pwm_of(*fb, 0, row), pwm_of(*fb, 1, row)],
                    [pwm_of(*fb, 8, row), pwm_of(*fb, 6, row), pwm_of(*fb, 3, row), pwm_of(*fb, 4, row)],
                )
            },
    {
        match self.next_group {
            AltGroup::PosIn => {
                self.row = if self.row < ROWS - 1 {
                    self.row + 1
                } else {
                    0
                };
                self.next_group = AltGroup::NegOut;
                GroupSetup::PosIn([self.get_pwm(fb, 5), self.get_pwm(fb, 2), self.get_pwm(fb, 7)])
            },
            AltGroup::NegOut => {
                self.next_group = AltGroup::PosIn;
                GroupSetup::NegOut(
                    [self.get_pwm(fb, 0), self.get_pwm(fb, 1)],
                    [self.get_pwm(fb, 8), self.get_pwm(fb, 6), self.get_pwm(fb, 3), self.get_pwm(fb, 4)],
                )
            },
        }
    }

    /// Records the counter value at which the buttons started discharging.
    pub fn record_start_cnt(&mut self, cnt: u16)
        ensures
            *final(self) == (TimerDriver { start_cnt: cnt, ..*old(self) }),
    {
        self.start_cnt = cnt;
    }

    /// The sample of the buttons taken with the captured values `btn_cnt`
    /// and capture flags `ccif`.
    pub fn sample(&self, btn_cnt: Group<u16>, ccif: [bool; 4]) -> (s: Sample)
        ensures
            s == (Sample { start_cnt: self.start_cnt, btn_cnt, ccif }),
    {
        Sample { start_cnt: self.start_cnt, btn_cnt, ccif }
    }

    /// Debounces a button sample into `buttons`.
    pub fn process(&mut self, buttons: &mut Buttons, sample: Sample)
        ensures
            final(self).start_cnt == old(self).start_cnt,
            final(self).row == old(self).row,
            final(self).next_group == old(self).next_group,
            forall|ch: int|
                0 <= ch < 4 ==> #[trigger] final(self).fcount.0@[ch] == next_fcount(
                    old(buttons).state.0@[ch],
                    sample.level(ch),
                    old(self).fcount.0@[ch],
                ),
            forall|ch: int|
                0 <= ch < 4 ==> #[trigger] final(buttons).state.0@[ch] == (if old(buttons).flips(
                    sample,
                    old(self).fcount,
                    ch,
                ) {
                    !old(buttons).state.0@[ch]
                } else {
                    old(buttons).state.0@[ch]
                }),
            final(buttons).signal == old(buttons).signal_after(sample, old(self).fcount, 4),
    {
        buttons::process_samples(buttons, sample, &mut self.fcount);
    }
}

/// The time base: one tick per timer period, wrapping around.
#[derive(Debug, Clone, Copy)]
pub struct TimeDriver {
    pub now: i32,
}

impl TimeDriver {
    /// The time base at start-up.
    pub fn new() -> (t: TimeDriver)
        ensures
            t.now == 0,
    {
        TimeDriver { now: 0 }
    }

    /// Counts one tick.
    pub fn advance(&mut self)
        ensures
            final(self).now == wrap_i32(old(self).now + 1),
    {
        self.now = self.now.wrapping_add(1);
    }

    /// The current instant.
    pub fn now(&self) -> (i: Instant)
        ensures
            i.ticks == self.now,
    {
        Instant::from_ticks(self.now)
    }
}

/// Two half periods move the multiplexing on by one row.
proof fn lemma_two_halves(t: TimerDriver)
    requires
        t.wf(),
    ensures
        t.spec_steps(2) == (TimerDriver { row: ((t.row + 1) % (ROWS as int)) as usize, ..t }),
{
    reveal_with_fuel(TimerDriver::spec_steps, 3);
}

/// `2 k` half periods move the multiplexing on by `k` rows.
proof fn lemma_rows_advance(t: TimerDriver, k: nat)
    requires
        t.wf(),
    ensures
        t.spec_steps(2 * k) == (TimerDriver { row: ((t.row + k) % (ROWS as int)) as usize, ..t }),
    decreases k,
{
    if k > 0 {
        lemma_rows_advance(t, (k - 1) as nat);
        let u = t.spec_steps(2 * (k - 1) as nat);
        lemma_steps_add(t, 2 * (k - 1) as nat, 2);
        lemma_two_halves(u);
        assert((((t.row + (k - 1)) % 9) + 1) % 9 == (t.row + k) % 9) by (nonlinear_arith)
            requires
                k >= 1,
                0 <= t.row,
        ;
    }
}

/// Taking `a` half periods and then `b` more is taking `a + b`.
proof fn lemma_steps_add(t: TimerDriver, a: nat, b: nat)
    ensures
        t.spec_steps(a + b) == t.spec_steps(a).spec_steps(b),
    decreases a,
{
    if a > 0 {
        lemma_steps_add(t.spec_next(), (a - 1) as nat, b);
        assert((a + b - 1) as nat == (a - 1) as nat + b);
    }
}

/// The multiplexing lights every row, each with both halves, and is back
/// where it started after `2 * ROWS` half periods.
pub proof fn lemma_multiplex_cycle(t: TimerDriver, k: nat)
    requires
        t.wf(),
        k < ROWS,
    ensures
        t.spec_steps(2 * ROWS as nat) == t,
        t.spec_steps(2 * k).row == (t.row + k) % (ROWS as int),
        t.spec_steps(2 * k).next_group == t.next_group,
{
    lemma_rows_advance(t, ROWS as nat);
    lemma_rows_advance(t, k);
    assert((t.row + 9) % 9 == t.row);
}

} // verus!
