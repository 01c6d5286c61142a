//! The LED chain seen through a filter: the shown colours fade one step at
//! a time toward the target colours that the animations set.
use vstd::prelude::*;
use crate::drivers::ws2812::{Color, LEDS};

verus! {

/// Colour lookup tables used by the LED animations: a hue ramp over a full
/// turn and the first half period of a sine wave.
#[derive(Debug, Clone, Copy)]
pub struct Tables {
    pub hue: [u8; 256],
    pub sin: [u8; 128],
}

/// Entry `i` of the hue ramp: one colour channel of a colour wheel, rising
/// over the first third of the turn, falling over the second, dark over
/// the last.
pub open spec fn hue_value(i: int) -> int {
    if i < 85 {
        3 * i
    } else if i < 170 {
        255 - 3 * (i - 85)
    } else {
        0
    }
}

/// Entry `i` of the sine table: 255 times the sine of `i / 128` of a half
/// turn, in Bhaskara's rational approximation.
pub open spec fn sine_value(i: int) -> int {
    let p = i * (128 - i);
    255 * 16 * p / (5 * 128 * 128 - 4 * p)
}

impl Tables {
    /// The hue ramp and the sine half period.
    pub fn new() -> (t: Tables)
        ensures
            forall|i: int| 0 <= i < 256 ==> #[trigger] t.hue@[i] == hue_value(i),
            forall|i: int| 0 <= i < 128 ==> #[trigger] t.sin@[i] == sine_value(i),
    {
        let mut hue: [u8; 256] = [0u8; 256];
        let mut i: usize = 0;
        while i < 256
            invariant
                i <= 256,
                forall|k: int| 0 <= k < i ==> #[trigger] hue@[k] == hue_value(k),
            decreases 256 - i,
        {
            hue[i] = if i < 85 {
                (i * 3) as u8
            } else if i < 170 {
                (255 - (i - 85) * 3) as u8
            } else {
                0
            };
            i = i + 1;
        }
        let mut sin: [u8; 128] = [0u8; 128];
        let mut j: u32 = 0;
        while j < 128
            invariant
                j <= 128,
                forall|k: int| 0 <= k < j ==> #[trigger] sin@[k] == sine_value(k),
            decreases 128 - j,
        {
            assert(0 <= j * (128 - j) <= 4096) by (nonlinear_arith)
                requires
                    j < 128,
            ;
            let p: u32 = j * (128 - j);
            assert(p <= 4096);
            let den: u32 = 5 * 128 * 128 - 4 * p;
            let v: u32 = p * 4080 / den;
            let ghost pi: int = p as int;
            let ghost di: int = den as int;
            assert(255 * 16 * pi / di <= 255) by (nonlinear_arith)
                requires
                    di == 81920 - 4 * pi,
                    0 <= pi <= 4096,
            ;
            sin[j as usize] = v as u8;
            j = j + 1;
        }
        Tables { hue, sin }
    }
}

/// Shown and target colours of the chain, and whether a shown frame waits
/// for the chain driver.
#[derive(Debug, Clone, Copy)]
pub struct FilteredWs2812 {
    pub output: [Color; LEDS],
    pub target: [Color; LEDS],
    pub pending: bool,
}

/// The colour of a dark LED.
pub open spec fn black() -> Color {
    Color { g: 0, r: 0, b: 0 }
}

impl FilteredWs2812 {
    /// Whether `next` is this chain after an update: every shown colour one
    /// step closer to its target, and the frame due for sending.
    pub open spec fn updated(self, next: FilteredWs2812) -> bool {
        &&& forall|i: int|
            0 <= i < LEDS ==> #[trigger] next.output@[i] == self.output@[i].spec_transition(self.target@[i])
        &&& next.target == self.target
        &&& next.pending
    }

    /// Whether `next` is this chain after `try_update`: updated when no
    /// frame was pending, unchanged otherwise.
    pub open spec fn tried_update(self, next: FilteredWs2812) -> bool {
        if self.pending { next == self } else { self.updated(next) }
    }

    /// A chain that shows and targets darkness.
    pub fn new() -> (f: FilteredWs2812)
        ensures
            forall|i: int| 0 <= i < LEDS ==> #[trigger] f.output@[i] == black(),
            forall|i: int| 0 <= i < LEDS ==> #[trigger] f.target@[i] == black(),
            !f.pending,
    {
        let dark = Color::new(0, 0, 0);
        FilteredWs2812 { output: [dark; LEDS], target: [dark; LEDS], pending: false }
    }

    /// The target colours, for an animation to change.
    pub fn target_mut(&mut self) -> (t: &mut [Color; LEDS])
        ensures
            *t == old(self).target,
            *final(self) == (FilteredWs2812 { target: *final(t), ..*old(self) }),
    {
        &mut self.target
    }

    /// Moves every shown colour one step toward its target and marks the
    /// frame as due for sending.
    pub fn update(&mut self)
        ensures
            old(self).updated(*final(self)),
    {
        let mut i: usize = 0;
        while i < LEDS
            invariant
                i <= LEDS,
                self.target == old(self).target,
                forall|k: int|
                    0 <= k < i ==> #[trigger] self.output@[k] == old(self).output@[k].spec_transition(
                        old(self).target@[k],
                    ),
                forall|k: int| i <= k < LEDS ==> #[trigger] self.output@[k] == old(self).output@[k],
            decreases LEDS - i,
        {
            let mut c: Color = self.output[i];
            let t: Color = self.target[i];
            c.transition(&t);
            self.output[i] = c;
            i = i + 1;
        }
        self.pending = true;
    }

    /// Updates the shown colours if the chain driver has taken the previous
    /// frame; returns whether it did.
    pub fn try_update(&mut self) -> (b: bool)
        ensures
            b == !old(self).pending,
            old(self).tried_update(*final(self)),
    {
        if self.pending {
            false
        } else {
            self.update();
            true
        }
    }

    /// Hands the pending frame to the chain driver.
    pub fn take_frame(&mut self) -> (f: Option<[Color; LEDS]>)
        ensures
            f == (if old(self).pending { Some(old(self).output) } else { None }),
            *final(self) == (FilteredWs2812 { pending: false, ..*old(self) }),
    {
        if self.pending {
            self.pending = false;
            Some(self.output)
        } else {
            None
        }
    }
}

} // verus!
