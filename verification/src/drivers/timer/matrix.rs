//! The LED matrix: its framebuffer and the gamma corrected PWM values that
//! the multiplexing timer sends to each column.
use vstd::prelude::*;
use crate::time::Duration;

verus! {

/// Number of charlieplexed LED lines; one row is lit at a time.
pub const ROWS: usize = 9;

/// Framebuffer width: each row drives every other line.
pub const WIDTH: usize = 8;

/// Framebuffer height.
pub const HEIGHT: usize = 9;

/// Brightness used by the debug output.
pub const DEBUG_BRIGHTNESS: u8 = 32;

/// Largest PWM value of the gamma table.
pub const PWM_MAX: u16 = 4095;

/// Gamma table (gamma 2.2, 12 bit) packed two entries per row: the high
/// eight bits of the even and the odd entry, then their low nibbles (even in
/// the low half).
pub const GAMMA_LUT: [[u8; 3]; 128] = [
    [  0,   0, 0x00], [  0,   0, 0x00], [  0,   0, 0x10], [  0,   0, 0x21],
    [  0,   0, 0x32], [  0,   0, 0x43], [  0,   0, 0x65], [  0,   0, 0x87],
    [  0,   0, 0xb9], [  0,   0, 0xec], [  0,   1, 0x1f], [  1,   1, 0x53],
    [  1,   1, 0x97], [  1,   1, 0xdb], [  2,   2, 0x20], [  2,   2, 0x85],
    [  2,   2, 0xeb], [  3,   3, 0x41], [  3,   3, 0xb7], [  3,   4, 0x2e],
    [  4,   4, 0x96], [  4,   5, 0x2d], [  5,   5, 0xa6], [  5,   6, 0x3f],
    [  6,   6, 0xd8], [  7,   7, 0x72], [  7,   8, 0x1c], [  8,   8, 0xc7],
    [  9,   9, 0x82], [  9,  10, 0x4e], [ 10,  11, 0x0a], [ 11,  11, 0xd6],
    [ 12,  12, 0xa4], [ 13,  13, 0x81], [ 14,  14, 0x70], [ 14,  15, 0x6e],
    [ 15,  16, 0x5e], [ 16,  17, 0x5d], [ 17,  18, 0x6e], [ 18,  19, 0x7e],
    [ 20,  20, 0x80], [ 21,  21, 0xb1], [ 22,  22, 0xd4], [ 23,  24, 0x07],
    [ 24,  25, 0x4a], [ 25,  26, 0x8e], [ 27,  27, 0xd3], [ 28,  29, 0x38],
    [ 29,  30, 0x8d], [ 31,  31, 0xf4], [ 32,  33, 0x6a], [ 34,  34, 0xd1],
    [ 35,  36, 0x59], [ 37,  37, 0xe2], [ 38,  39, 0x7b], [ 40,  41, 0x14],
    [ 41,  42, 0xbe], [ 43,  44, 0x69], [ 45,  46, 0x24], [ 47,  47, 0xe0],
    [ 48,  49, 0xac], [ 50,  51, 0x79], [ 52,  53, 0x56], [ 54,  55, 0x44],
    [ 56,  57, 0x23], [ 58,  59, 0x22], [ 60,  61, 0x22], [ 62,  63, 0x32],
    [ 64,  65, 0x43], [ 66,  67, 0x65], [ 68,  69, 0x87], [ 70,  71, 0xba],
    [ 72,  73, 0xfd], [ 75,  76, 0x31], [ 77,  78, 0x85], [ 79,  80, 0xda],
    [ 82,  83, 0x30], [ 84,  85, 0xa6], [ 86,  88, 0x1d], [ 89,  90, 0x95],
    [ 91,  93, 0x1d], [ 94,  95, 0xa5], [ 96,  98, 0x4f], [ 99, 100, 0xe9],
    [102, 103, 0x93], [104, 106, 0x4e], [107, 109, 0x0a], [110, 111, 0xd6],
    [113, 114, 0xa3], [116, 117, 0x81], [118, 120, 0x6f], [121, 123, 0x6e],
    [124, 126, 0x5d], [127, 129, 0x6d], [130, 132, 0x7e], [133, 135, 0x8f],
    [137, 138, 0xb1], [140, 141, 0xe4], [143, 145, 0x17], [146, 148, 0x5b],
    [150, 151, 0xa0], [153, 154, 0xf5], [156, 158, 0x6a], [160, 161, 0xc1],
    [163, 165, 0x48], [166, 168, 0xcf], [170, 172, 0x48], [174, 175, 0xd1],
    [177, 179, 0x7a], [181, 183, 0x24], [184, 186, 0xdf], [188, 190, 0x9b],
    [192, 194, 0x57], [196, 198, 0x24], [200, 202, 0x01], [203, 205, 0xff],
    [207, 209, 0xee], [211, 213, 0xde], [215, 217, 0xee], [219, 221, 0xfe],
    [224, 226, 0x10], [228, 230, 0x32], [232, 234, 0x64], [236, 238, 0xa8],
    [240, 242, 0xec], [245, 247, 0x30], [249, 251, 0x96], [253, 255, 0xfc],
];

/// The 12-bit gamma corrected PWM duty of a pixel of brightness `b`.
pub open spec fn gamma(b: u8) -> int {
    let entry = GAMMA_LUT@[(b / 2) as int];
    let low = if b % 2 == 0 { entry@[2] % 16 } else { entry@[2] / 16 };
    entry@[(b % 2) as int] * 16 + low
}

/// The time the matrix takes to show one whole frame: two timer periods
/// per row.
pub fn frame_duration() -> (d: Duration)
    ensures
        d.ticks == 2 * HEIGHT,
{
    Duration::from_ticks(2 * HEIGHT as u32)
}

/// The GPIO port (A = 0, C = 2, D = 3) and pin that drives each matrix row.
pub const ROW_PINS: [(u8, u8); ROWS] = [(3, 0), (0, 2), (0, 1), (3, 6), (3, 5), (3, 2), (2, 7), (2, 4), (2, 1)];

/// The GPIO port and pin that drives row `row`.
pub fn row_pin(row: usize) -> (p: (u8, u8))
    requires
        row < ROWS,
    ensures
        p == ROW_PINS@[row as int],
{
    ROW_PINS[row]
}

/// The brightness of every LED of the matrix; row `y` lists the pixels
/// `x = 0 .. WIDTH`.
#[derive(Clone, Copy, Debug)]
pub struct Framebuffer(pub [[u8; WIDTH]; HEIGHT]);

impl Framebuffer {
    /// The brightness of pixel `(x, y)`.
    pub open spec fn px(self, x: int, y: int) -> u8 {
        self.0@[y]@[x]
    }

    /// The pixel rows as a grid of values.
    pub open spec fn grid(self) -> Seq<Seq<u8>> {
        Seq::new(HEIGHT as nat, |y: int| self.0@[y]@)
    }

    /// Whether every pixel has brightness `val`.
    pub open spec fn all_equal(self, val: u8) -> bool {
        forall|x: int, y: int| 0 <= x < WIDTH && 0 <= y < HEIGHT ==> #[trigger] self.px(x, y) == val
    }

    /// Whether `self` and `other` agree everywhere except at `(x, y)`.
    pub open spec fn same_except(self, other: Framebuffer, x: int, y: int) -> bool {
        forall|i: int, j: int|
            0 <= i < WIDTH && 0 <= j < HEIGHT && !(i == x && j == y) ==> #[trigger] self.px(i, j)
                == other.px(i, j)
    }

    /// A dark framebuffer.
    pub fn new() -> (fb: Framebuffer)
        ensures
            fb.all_equal(0),
    {
        Self::new_filled(0)
    }

    /// A framebuffer with every pixel at `val`.
    pub fn new_filled(val: u8) -> (fb: Framebuffer)
        ensures
            fb.all_equal(val),
    {
        Framebuffer([[val; WIDTH]; HEIGHT])
    }

    /// The brightness of pixel `(x, y)`.
    pub fn load(&self, x: usize, y: usize) -> (v: u8)
        requires
            x < WIDTH,
            y < HEIGHT,
        ensures
            v == self.px(x as int, y as int),
    {
        self.0[y][x]
    }

    /// The brightness of pixel `(x, y)`, or `None` outside the matrix.
    pub fn try_load(&self, x: usize, y: usize) -> (v: Option<u8>)
        ensures
            v == (if x < WIDTH && y < HEIGHT {
                Some(self.px(x as int, y as int))
            } else {
                None
            }),
    {
        if y < HEIGHT && x < WIDTH {
            Some(self.0[y][x])
        } else {
            None
        }
    }

    /// Sets pixel `(x, y)` to `val`.
    pub fn store(&mut self, x: usize, y: usize, val: u8)
        requires
            x < WIDTH,
            y < HEIGHT,
        ensures
            final(self).px(x as int, y as int) == val,
            final(self).same_except(*old(self), x as int, y as int),
    {
        let mut row: [u8; WIDTH] = self.0[y];
        row[x] = val;
        self.0[y] = row;
    }

    /// Sets every pixel to `val`.
    pub fn set_all(&mut self, val: u8)
        ensures
            final(self).all_equal(val),
    {
        *self = Self::new_filled(val);
    }

    /// Turns every pixel off.
    pub fn clear_all(&mut self)
        ensures
            final(self).all_equal(0),
    {
        self.set_all(0);
    }

    /// Debug output: shows the bits of `val` in row `y`, most significant
    /// bit at the left.
    pub fn show_u8(&mut self, y: usize, val: u8)
        requires
            y < HEIGHT,
        ensures
            forall|i: int|
                0 <= i < WIDTH ==> #[trigger] final(self).px(i, y as int) == bit_pixel(val, i),
            forall|i: int, j: int|
                0 <= i < WIDTH && 0 <= j < HEIGHT && j != y ==> #[trigger] final(self).px(i, j)
                    == old(self).px(i, j),
    {
        let mut v: u8 = val;
        let mut i: usize = 8;
        assert(val >> 0u8 == val) by (bit_vector);
        while i > 0
            invariant
                i <= 8,
                y < HEIGHT,
                v == val >> ((8 - i) as u8),
                forall|k: int| i <= k < WIDTH ==> #[trigger] self.px(k, y as int) == bit_pixel(val, k),
                forall|k: int, j: int|
                    0 <= k < WIDTH && 0 <= j < HEIGHT && j != y ==> #[trigger] self.px(k, j)
                        == old(self).px(k, j),
            decreases i,
        {
            i = i - 1;
            let shift: u8 = (7 - i) as u8;
            self.store(i, y, if v & 1 != 0 { DEBUG_BRIGHTNESS } else { 0 });
            assert((val >> shift) >> 1u8 == val >> ((shift + 1) as u8)) by (bit_vector)
                requires
                    shift < 8,
            ;
            v = v >> 1u8;
        }
    }

    /// Debug output: shows the bits of `val` in rows `y` (high byte) and
    /// `y + 1` (low byte).
    pub fn show_u16(&mut self, y: usize, val: u16)
        requires
            y + 1 < HEIGHT,
        ensures
            forall|i: int|
                0 <= i < WIDTH ==> #[trigger] final(self).px(i, y as int) == bit_pixel(
                    (val >> 8u16) as u8,
                    i,
                ),
            forall|i: int|
                0 <= i < WIDTH ==> #[trigger] final(self).px(i, y + 1) == bit_pixel(val as u8, i),
            forall|i: int, j: int|
                0 <= i < WIDTH && 0 <= j < HEIGHT && j != y && j != y + 1
                    ==> #[trigger] final(self).px(i, j) == old(self).px(i, j),
    {
        self.show_u8(y, (val >> 8u16) as u8);
        self.show_u8(y + 1, val as u8);
    }

    /// The PWM compare value for column line `col` while row `row` is lit:
    /// the pixel that line shows, gamma corrected and inverted against the
    /// timer period `cycles`. Line `row` itself has no pixel and lines after
    /// it show pixel `col - 1`; lines without a pixel stay dark.
    pub fn get_pwm(&self, col: usize, row: usize, cycles: u16) -> (pwm: u16)
        requires
            cycles >= PWM_MAX,
        ensures
            pwm == cycles - gamma(self.line_brightness(col as int, row as int)),
    {
        let x: usize = if col <= row { col } else { col - 1 };
        let brightness: u8 = match self.try_load(x, row) {
            Some(v) => v,
            None => 0,
        };
        let entry: [u8; 3] = GAMMA_LUT[(brightness / 2) as usize];
        let odd: usize = (brightness % 2) as usize;
        let hi: u8 = entry[odd];
        let lo: u8 = entry[2];
        let mut pwm: u16 = (hi as u16) << 4u16;
        pwm = pwm | ((lo as u16) >> (4 * odd as u16)) & 0xf;
        proof {
            let s: u16 = (4 * odd) as u16;
            assert(odd == 0 ==> s == 0);
            assert(odd == 1 ==> s == 4);
            assert(((hi as u16) << 4u16) | (((lo as u16) >> s) & 0xfu16) == (hi as u16) * 16 + (
            ((lo as u16) >> s) & 0xfu16)) by (bit_vector)
                requires
                    hi <= 255,
            ;
            assert((s == 0u16 ==> ((lo as u16) >> s) & 0xfu16 == lo % 16) && (s == 4u16 ==> ((
            lo as u16) >> s) & 0xfu16 == lo / 16)) by (bit_vector);
        }
        cycles - pwm
    }

    /// The brightness shown on line `col` while row `row` is lit.
    pub open spec fn line_brightness(self, col: int, row: int) -> u8 {
        let x = if col <= row { col } else { col - 1 };
        if 0 <= x < WIDTH && 0 <= row < HEIGHT {
            self.px(x, row)
        } else {
            0
        }
    }
}

/// The brightness that debug output shows at pixel `i` for `val`.
pub open spec fn bit_pixel(val: u8, i: int) -> u8 {
    if (val >> ((7 - i) as u8)) & 1 != 0 {
        DEBUG_BRIGHTNESS
    } else {
        0
    }
}

/// The LED matrix, owning the framebuffer that the multiplexing timer shows.
#[derive(Debug)]
pub struct Matrix {
    pub frame: Framebuffer,
}

impl Matrix {
    /// A matrix with a dark framebuffer.
    pub fn new() -> (m: Matrix)
        ensures
            m.frame.all_equal(0),
    {
        Matrix { frame: Framebuffer::new() }
    }

    /// The framebuffer shown on the matrix.
    pub fn fb(&self) -> (fb: &Framebuffer)
        ensures
            *fb == self.frame,
    {
        &self.frame
    }
}

} // verus!
