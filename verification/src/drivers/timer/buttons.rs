//! The four buttons: debouncing of the capacitive samples taken by the
//! multiplexing timer, and the single-slot event signal they feed.
use vstd::prelude::*;

verus! {

/// Discharge level below which a pressed button counts as released.
pub const HIST_LOW: u16 = 65;

/// Discharge level at or above which a released button counts as pressed.
pub const HIST_HIGH: u16 = 70;

/// Number of consecutive contrary samples needed before a button changes.
pub const FILT_LEN: u8 = 16;

/// The buttons of the badge.
#[derive(Debug, PartialEq, Eq, Clone, Copy, Structural)]
pub enum Button {
    Start,
    Select,
    L,
    R,
}

/// The button sampled on timer channel `ch`.
pub open spec fn button_of(ch: int) -> Button {
    if ch == 0 {
        Button::Select
    } else if ch == 1 {
        Button::R
    } else if ch == 2 {
        Button::L
    } else {
        Button::Start
    }
}

impl Button {
    /// The timer channel that samples this button.
    pub open spec fn spec_index(self) -> int {
        match self {
            Button::Select => 0,
            Button::R => 1,
            Button::L => 2,
            Button::Start => 3,
        }
    }

    /// The timer channel that samples this button.
    pub fn index(self) -> (i: usize)
        ensures
            i == self.spec_index(),
            i < 4,
            button_of(i as int) == self,
    {
        match self {
            Button::Select => 0,
            Button::R => 1,
            Button::L => 2,
            Button::Start => 3,
        }
    }

    /// The button sampled on timer channel `value`, if there is one.
    pub fn try_from(value: usize) -> (b: Result<Button, ()>)
        ensures
            value < 4 ==> b == Ok::<Button, ()>(button_of(value as int)),
            value >= 4 ==> b is Err,
    {
        match value {
            0 => Ok(Button::Select),
            1 => Ok(Button::R),
            2 => Ok(Button::L),
            3 => Ok(Button::Start),
            _ => Err(()),
        }
    }
}

/// A change of a button: pressed or released.
#[derive(Debug, PartialEq, Eq, Clone, Copy, Structural)]
pub struct Event {
    pub button: Button,
    pub pressed: bool,
}

/// One value per button, indexed by the button's timer channel.
#[derive(Debug, Clone, Copy)]
pub struct Group<T>(pub [T; 4]);

impl<T> Group<T> {
    /// The value of button `btn`.
    pub fn get(&self, btn: Button) -> (v: &T)
        ensures
            *v == self.0@[btn.spec_index()],
    {
        &self.0[btn.index()]
    }

    /// Sets the value of button `btn`.
    pub fn _set(&mut self, btn: Button, val: T)
        ensures
            final(self).0@ == old(self).0@.update(btn.spec_index(), val),
    {
        let i: usize = btn.index();
        self.0[i] = val;
    }

    /// References to the four values.
    pub fn each_ref(&self) -> (g: Group<&T>)
        ensures
            forall|i: int| 0 <= i < 4 ==> *#[trigger] g.0@[i] == self.0@[i],
    {
        Group([&self.0[0], &self.0[1], &self.0[2], &self.0[3]])
    }
}

impl<T: Copy> Group<T> {
    /// The group of `f` applied to each value.
    pub fn map<U, F: Fn(T) -> U>(self, f: F) -> (g: Group<U>)
        requires
            forall|i: int| 0 <= i < 4 ==> f.requires((#[trigger] self.0@[i],)),
        ensures
            forall|i: int| 0 <= i < 4 ==> f.ensures((self.0@[i],), #[trigger] g.0@[i]),
    {
        let a: T = self.0[0];
        let b: T = self.0[1];
        let c: T = self.0[2];
        let d: T = self.0[3];
        let r = Group([f(a), f(b), f(c), f(d)]);
        assert(f.ensures((self.0@[0],), r.0@[0]));
        r
    }
}

/// What the timer captured while the buttons discharged: the counter at
/// the start, the capture value of each channel and whether the channel's
/// capture flag was set.
#[derive(Debug, Clone, Copy)]
pub struct Sample {
    pub start_cnt: u16,
    pub btn_cnt: Group<u16>,
    pub ccif: [bool; 4],
}

impl Sample {
    /// The discharge level of channel `ch`: the time from the start count
    /// to the captured count, wrapping around the 16-bit counter, or the
    /// largest level when nothing was captured.
    pub open spec fn level(self, ch: int) -> int {
        if self.ccif@[ch] {
            if self.btn_cnt.0@[ch] >= self.start_cnt {
                self.btn_cnt.0@[ch] - self.start_cnt
            } else {
                self.btn_cnt.0@[ch] - self.start_cnt + 0x1_0000
            }
        } else {
            u16::MAX as int
        }
    }
}

/// The level threshold for a button currently in state `pressed`.
pub open spec fn threshold(pressed: bool) -> int {
    if pressed { HIST_LOW as int } else { HIST_HIGH as int }
}

/// Whether a sample at `level` contradicts the current state `pressed`.
pub open spec fn contrary(pressed: bool, level: int) -> bool {
    pressed != (level >= threshold(pressed))
}

/// The signal byte that reports channel `ch` changing to `pressed`.
pub open spec fn encode_event(ch: int, pressed: bool) -> u8 {
    (128 + (if pressed { 4int } else { 0 }) + ch) as u8
}

/// The event that the signal byte `v` reports, if any.
pub open spec fn decode_event(v: u8) -> Option<Event> {
    if v == 0 {
        None
    } else {
        Some(Event { button: button_of((v & 3u8) as int), pressed: v & 4u8 != 0 })
    }
}

/// Button states and the event slot.
#[derive(Debug, Clone, Copy)]
pub struct Buttons {
    pub state: Group<bool>,
    pub signal: u8,
}

impl Buttons {
    /// All buttons released, no event pending.
    pub fn new() -> (b: Buttons)
        ensures
            forall|i: int| 0 <= i < 4 ==> !#[trigger] b.state.0@[i],
            b.signal == 0,
    {
        Buttons { state: Group([false, false, false, false]), signal: 0 }
    }

    /// Whether button `btn` is pressed.
    pub fn get(&self, btn: Button) -> (p: bool)
        ensures
            p == self.state.0@[btn.spec_index()],
    {
        *self.state.get(btn)
    }

    /// Takes the pending event, if there is one.
    pub fn event(&mut self) -> (e: Option<Event>)
        ensures
            e == decode_event(old(self).signal),
            final(self).signal == 0,
            final(self).state == old(self).state,
    {
        let val: u8 = self.signal;
        if val != 0 {
            self.signal = 0;
            assert(val & 3u8 < 4) by (bit_vector);
            let button = match Button::try_from((val & 3u8) as usize) {
                Ok(b) => b,
                Err(_) => Button::Select,
            };
            Some(Event { button, pressed: val & 4u8 != 0 })
        } else {
            None
        }
    }

    /// Drops the pending event.
    pub fn discard_events(&mut self)
        ensures
            final(self).signal == 0,
            final(self).state == old(self).state,
    {
        let _ = self.event();
    }

    /// Whether channel `ch` changes state with this sample.
    pub open spec fn flips(self, sample: Sample, fcount: Group<u8>, ch: int) -> bool {
        contrary(self.state.0@[ch], sample.level(ch)) && fcount.0@[ch] >= FILT_LEN
    }

    /// The signal byte after processing channels `0 .. n`: the report of the
    /// last channel that changed, or the old signal.
    pub open spec fn signal_after(self, sample: Sample, fcount: Group<u8>, n: int) -> u8
        decreases n,
    {
        if n <= 0 {
            self.signal
        } else if self.flips(sample, fcount, n - 1) {
            encode_event(n - 1, !self.state.0@[n - 1])
        } else {
            self.signal_after(sample, fcount, n - 1)
        }
    }
}

/// The filter count of a channel after a sample.
pub open spec fn next_fcount(pressed: bool, level: int, fcount: u8) -> u8 {
    if contrary(pressed, level) {
        if fcount < FILT_LEN {
            (fcount + 1) as u8
        } else {
            0
        }
    } else {
        0
    }
}

/// The filter count after samples at `levels`, starting from count `f`,
/// while the button stays in state `pressed`.
pub open spec fn fcount_run(pressed: bool, levels: Seq<int>, f: u8) -> u8
    decreases levels.len(),
{
    if levels.len() == 0 {
        f
    } else {
        next_fcount(pressed, levels.last(), fcount_run(pressed, levels.drop_last(), f))
    }
}

/// The filter count is the number of samples in a row, up to the newest,
/// that contradict the button state; so a button only changes state after
/// more than `FILT_LEN` contrary samples in a row.
pub proof fn lemma_filter_counts_run(pressed: bool, levels: Seq<int>)
    ensures
        fcount_run(pressed, levels, 0) <= levels.len(),
        forall|i: int|
            levels.len() - fcount_run(pressed, levels, 0) <= i < levels.len() ==> contrary(
                pressed,
                #[trigger] levels[i],
            ),
        (forall|i: int| 0 <= i < levels.len() ==> contrary(pressed, #[trigger] levels[i])) && levels.len()
            <= FILT_LEN ==> fcount_run(pressed, levels, 0) == levels.len(),
    decreases levels.len(),
{
    if levels.len() > 0 {
        let rest = levels.drop_last();
        lemma_filter_counts_run(pressed, rest);
        assert forall|i: int|
            levels.len() - fcount_run(pressed, levels, 0) <= i < levels.len() implies contrary(
                pressed,
                #[trigger] levels[i],
            ) by {
            if i < levels.len() - 1 {
                assert(rest[i] == levels[i]);
            }
        }
        if (forall|i: int| 0 <= i < levels.len() ==> contrary(pressed, #[trigger] levels[i])) && levels.len()
            <= FILT_LEN {
            assert forall|i: int| 0 <= i < rest.len() implies contrary(pressed, #[trigger] rest[i]) by {
                assert(rest[i] == levels[i]);
            }
            assert(contrary(pressed, levels[levels.len() - 1]));
        }
    }
}

/// The signal byte of a change decodes to that change.
pub proof fn lemma_event_roundtrip(ch: int, pressed: bool)
    requires
        0 <= ch < 4,
    ensures
        decode_event(encode_event(ch, pressed)) == Some(
            Event { button: button_of(ch), pressed },
        ),
{
    let v = encode_event(ch, pressed);
    let c = ch as u8;
    let p: u8 = if pressed { 4 } else { 0 };
    assert(v == 128 + p + c);
    assert(v & 3u8 == c && ((v & 4u8 != 0) == (p == 4))) by (bit_vector)
        requires
            c < 4,
            p == 0 || p == 4,
            v == 128 + p + c,
    ;
}

/// Debounces one sample: a channel whose level contradicts its state for
/// more than `FILT_LEN` consecutive samples changes state, and its change is
/// reported in the event slot (the last changed channel wins).
pub fn process_samples(buttons: &mut Buttons, sample: Sample, fcount: &mut Group<u8>)
    ensures
        forall|ch: int|
            0 <= ch < 4 ==> #[trigger] final(fcount).0@[ch] == next_fcount(
                old(buttons).state.0@[ch],
                sample.level(ch),
                old(fcount).0@[ch],
            ),
        forall|ch: int|
            0 <= ch < 4 ==> #[trigger] final(buttons).state.0@[ch] == (if old(buttons).flips(
                sample,
                *old(fcount),
                ch,
            ) {
                !old(buttons).state.0@[ch]
            } else {
                old(buttons).state.0@[ch]
            }),
        final(buttons).signal == old(buttons).signal_after(sample, *old(fcount), 4),
{
    let ghost b0 = *buttons;
    let ghost f0 = *fcount;
    let mut ch: usize = 0;
    while ch < 4
        invariant
            ch <= 4,
            forall|k: int|
                0 <= k < ch ==> #[trigger] fcount.0@[k] == next_fcount(
                    b0.state.0@[k],
                    sample.level(k),
                    f0.0@[k],
                ),
            forall|k: int| ch <= k < 4 ==> #[trigger] fcount.0@[k] == f0.0@[k],
            forall|k: int|
                0 <= k < ch ==> #[trigger] buttons.state.0@[k] == (if b0.flips(sample, f0, k) {
                    !b0.state.0@[k]
                } else {
                    b0.state.0@[k]
                }),
            forall|k: int| ch <= k < 4 ==> #[trigger] buttons.state.0@[k] == b0.state.0@[k],
            buttons.signal == b0.signal_after(sample, f0, ch as int),
        decreases 4 - ch,
    {
        let prev_state: bool = buttons.state.0[ch];
        let lvl: u16 = if sample.ccif[ch] {
            sample.btn_cnt.0[ch].wrapping_sub(sample.start_cnt)
        } else {
            u16::MAX
        };
        let thr: u16 = if prev_state { HIST_LOW } else { HIST_HIGH };
        let f: u8 = fcount.0[ch];
        let new_f: u8 = if prev_state ^ (lvl >= thr) {
            if f < FILT_LEN {
                f + 1
            } else {
                let next_state: bool = !prev_state;
                buttons.state.0[ch] = next_state;
                let s: u8 = if next_state { 1 } else { 0 };
                let code: u8 = 128u8 | (s << 2u8) | (ch as u8);
                assert(s <= 1 && (ch as u8) < 4 ==> 128u8 | (s << 2u8) | (ch as u8) == 128u8 + 4
                    * s + (ch as u8)) by (bit_vector);
                buttons.signal = code;
                0
            }
        } else {
            0
        };
        fcount.0[ch] = new_f;
        ch = ch + 1;
    }
}

} // verus!
