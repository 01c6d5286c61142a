//! Colours of the WS2812 LED chain and their encoding into the SPI bit
//! stream that drives the chain.
use vstd::prelude::*;

verus! {

/// Number of LEDs in the chain.
pub const LEDS: usize = 6;

/// SPI words for each nibble: every bit becomes four SPI bits, `1110` for a
/// one and `1000` for a zero, most significant bit first.
pub const BITQUARTETS: [u16; 16] = [
    0b1000100010001000,
    0b1000100010001110,
    0b1000100011101000,
    0b1000100011101110,
    0b1000111010001000,
    0b1000111010001110,
    0b1000111011101000,
    0b1000111011101110,
    0b1110100010001000,
    0b1110100010001110,
    0b1110100011101000,
    0b1110100011101110,
    0b1110111010001000,
    0b1110111010001110,
    0b1110111011101000,
    0b1110111011101110,
];

/// The four SPI bits that send one data bit.
pub open spec fn symbol(bit: bool) -> u16 {
    if bit { 0b1110 } else { 0b1000 }
}

/// The SPI word that sends the nibble `n`, most significant bit first.
pub open spec fn quartet(n: u8) -> u16 {
    (symbol(n & 8 != 0) * 0x1000 + symbol(n & 4 != 0) * 0x100 + symbol(n & 2 != 0) * 0x10
        + symbol(n & 1 != 0)) as u16
}

/// The table holds the SPI word of every nibble.
pub proof fn lemma_bitquartets()
    ensures
        forall|n: u8| n < 16 ==> #[trigger] BITQUARTETS@[n as int] == quartet(n),
{
    assert forall|n: u8| n < 16 implies #[trigger] BITQUARTETS@[n as int] == quartet(n) by {
        assert(n & 8 != 0 <==> n >= 8) by (bit_vector)
            requires
                n < 16,
        ;
        assert(n & 4 != 0 <==> n % 8 >= 4) by (bit_vector)
            requires
                n < 16,
        ;
        assert(n & 2 != 0 <==> n % 4 >= 2) by (bit_vector)
            requires
                n < 16,
        ;
        assert(n & 1 != 0 <==> n % 2 == 1) by (bit_vector)
            requires
                n < 16,
        ;
    }
}

/// The colour of one LED; the chain receives green, red, blue in that order.
#[derive(Clone, Copy, PartialEq, Eq, Structural, Debug)]
pub struct Color {
    pub g: u8,
    pub r: u8,
    pub b: u8,
}

/// One step of `cur` toward `target`.
pub open spec fn step_toward(cur: u8, target: u8) -> u8 {
    if target > cur {
        (cur + 1) as u8
    } else if target < cur {
        (cur - 1) as u8
    } else {
        cur
    }
}

/// Channel value `cur` after `n` steps toward `target`.
pub open spec fn steps_toward(cur: u8, target: u8, n: nat) -> u8
    decreases n,
{
    if n == 0 {
        cur
    } else {
        step_toward(steps_toward(cur, target, (n - 1) as nat), target)
    }
}

/// Each step closes the gap to the target by one, so after `n` steps
/// the gap is the old gap less `n`, and never overshoots.
pub proof fn lemma_steps_close_gap(cur: u8, target: u8, n: nat)
    ensures
        ({
            let v = steps_toward(cur, target, n);
            let gap = if cur >= target { cur - target } else { target - cur };
            &&& (cur >= target ==> target <= v <= cur)
            &&& (cur <= target ==> cur <= v <= target)
            &&& (if v >= target { v - target } else { target - v }) == if gap >= n { gap - n } else { 0 }
        }),
    decreases n,
{
    if n > 0 {
        lemma_steps_close_gap(cur, target, (n - 1) as nat);
    }
}

/// A channel reaches its target after at most 255 steps and stays
/// there.
pub proof fn lemma_steps_reach(cur: u8, target: u8, n: nat)
    requires
        n >= 255,
    ensures
        steps_toward(cur, target, n) == target,
{
    lemma_steps_close_gap(cur, target, n);
}

fn step_channel(cur: u8, target: u8) -> (v: u8)
    ensures
        v == step_toward(cur, target),
{
    if target > cur {
        cur + 1
    } else if target < cur {
        cur - 1
    } else {
        cur
    }
}

/// The two SPI words of one byte, high nibble first.
pub open spec fn byte_words(v: u8) -> (u16, u16) {
    (quartet(v >> 4u8), quartet(v & 0xfu8))
}

fn byte_data(v: u8) -> (w: (u16, u16))
    ensures
        w == byte_words(v),
{
    proof {
        lemma_bitquartets();
    }
    assert(v >> 4u8 < 16 && v & 0xfu8 < 16) by (bit_vector);
    (BITQUARTETS[(v >> 4u8) as usize], BITQUARTETS[(v & 0xfu8) as usize])
}

impl Color {
    /// The colour with the given red, green and blue values.
    pub fn new(r: u8, g: u8, b: u8) -> (c: Color)
        ensures
            c == (Color { g, r, b }),
    {
        Color { g, r, b }
    }

    /// Red value.
    pub fn r(&self) -> (v: u8)
        ensures
            v == self.r,
    {
        self.r
    }

    /// Green value.
    pub fn g(&self) -> (v: u8)
        ensures
            v == self.g,
    {
        self.g
    }

    /// Blue value.
    pub fn b(&self) -> (v: u8)
        ensures
            v == self.b,
    {
        self.b
    }

    /// Sets the red value.
    pub fn set_r(&mut self, val: u8)
        ensures
            *final(self) == (Color { r: val, ..*old(self) }),
    {
        self.r = val;
    }

    /// Sets the green value.
    pub fn set_g(&mut self, val: u8)
        ensures
            *final(self) == (Color { g: val, ..*old(self) }),
    {
        self.g = val;
    }

    /// Sets the blue value.
    pub fn set_b(&mut self, val: u8)
        ensures
            *final(self) == (Color { b: val, ..*old(self) }),
    {
        self.b = val;
    }

    /// The colour after one fading step toward `target`.
    pub open spec fn spec_transition(self, target: Color) -> Color {
        Color {
            g: step_toward(self.g, target.g),
            r: step_toward(self.r, target.r),
            b: step_toward(self.b, target.b),
        }
    }

    /// Moves every channel one step toward the desired value.
    pub fn transition(&mut self, desired_value: &Color)
        ensures
            *final(self) == old(self).spec_transition(*desired_value),
    {
        self.g = step_channel(self.g, desired_value.g);
        self.r = step_channel(self.r, desired_value.r);
        self.b = step_channel(self.b, desired_value.b);
    }

    /// The six SPI words of the colour: green, red, blue, high nibble first.
    pub open spec fn spec_grb_data(self) -> Seq<u16> {
        seq![
            byte_words(self.g).0,
            byte_words(self.g).1,
            byte_words(self.r).0,
            byte_words(self.r).1,
            byte_words(self.b).0,
            byte_words(self.b).1,
        ]
    }

    /// Writes the SPI words of the colour into `buf`.
    pub fn gen_grb_data(&self, buf: &mut [u16; 6])
        ensures
            final(buf)@ == self.spec_grb_data(),
    {
        let (g0, g1) = byte_data(self.g);
        let (r0, r1) = byte_data(self.r);
        let (b0, b1) = byte_data(self.b);
        buf[0] = g0;
        buf[1] = g1;
        buf[2] = r0;
        buf[3] = r1;
        buf[4] = b0;
        buf[5] = b1;
        assert(buf@ =~= self.spec_grb_data());
    }
}

/// The SPI words sent for a whole chain update: two leading and one trailing
/// slot of zeros around the words of each colour.
pub fn spi_frame(colors: &[Color; LEDS]) -> (frame: [[u16; 6]; 9])
    ensures
        frame@[0]@ == seq![0u16, 0, 0, 0, 0, 0],
        frame@[1]@ == seq![0u16, 0, 0, 0, 0, 0],
        frame@[8]@ == seq![0u16, 0, 0, 0, 0, 0],
        forall|i: int| 0 <= i < 6 ==> #[trigger] frame@[i + 2]@ == colors@[i].spec_grb_data(),
{
    let mut frame: [[u16; 6]; 9] = [[0u16; 6]; 9];
    assert(frame@[0]@ =~= seq![0u16, 0, 0, 0, 0, 0]);
    assert(frame@[1]@ =~= seq![0u16, 0, 0, 0, 0, 0]);
    assert(frame@[8]@ =~= seq![0u16, 0, 0, 0, 0, 0]);
    let mut i: usize = 0;
    while i < LEDS
        invariant
            i <= LEDS,
            frame@[0]@ == seq![0u16, 0, 0, 0, 0, 0],
            frame@[1]@ == seq![0u16, 0, 0, 0, 0, 0],
            frame@[8]@ == seq![0u16, 0, 0, 0, 0, 0],
            forall|j: int| 0 <= j < i ==> #[trigger] frame@[j + 2]@ == colors@[j].spec_grb_data(),
        decreases LEDS - i,
    {
        let mut data: [u16; 6] = [0u16; 6];
        colors[i].gen_grb_data(&mut data);
        frame[i + 2] = data;
        i = i + 1;
    }
    frame
}

} // verus!
