//! Tetris on the 8 x 9 matrix: pieces fall every half second, L and R move
//! them, Select and Start rotate them, full rows vanish.
use vstd::prelude::*;
use crate::drivers::buttons::{Button, Buttons, Event, decode_event};
use crate::drivers::flash::ScoreFlasher;
use crate::drivers::matrix::{Framebuffer, WIDTH as FB_WIDTH, HEIGHT as FB_HEIGHT};
use crate::time::{Duration, Instant, Ticker};
use crate::util::rand::{WhiteNoiseGenerator, byte_at, state_after};
use super::{GameSelection, ShowScoreTask};

verus! {

/// Brightness of settled blocks.
pub const BOARD_BRIGHTNESS: u8 = 50;

/// Brightness of the falling piece.
pub const PIECE_BRIGHTNESS: u8 = 100;

/// Board width.
pub const WIDTH: u8 = 8;

/// Board height.
pub const HEIGHT: u8 = 9;

/// Row of a board with every cell filled.
pub const FULL_ROW: u8 = 0xff;

/// The seven pieces as 4 x 2 bitmaps, two rows of four bits.
pub const PIECES: [u8; 7] = [
    0b0000_1111,
    0b0110_0110,
    0b1110_0100,
    0b0011_0110,
    0b0110_0011,
    0b1000_1110,
    0b0010_1110,
];

/// Whether bit `x` of board row `r` is set.
pub open spec fn row_bit(r: u8, x: int) -> bool {
    (r >> (x as u8)) & 1u8 == 1u8
}

/// Whether bit `i` of piece bitmap `s` is set.
pub open spec fn sbit(s: u16, i: int) -> bool {
    (s >> (i as u16)) & 1u16 == 1u16
}

/// A falling piece: a 4 x 4 bitmap (bit `4 y + x` for cell `(x, y)`) and
/// the board position of its top left corner, wrapping at 256.
#[derive(Debug, Clone, Copy, PartialEq, Eq, Structural)]
pub struct Piece {
    pub shape: u16,
    pub x: u8,
    pub y: u8,
}

/// The bit that bit `i` of a bitmap moves to when rotated clockwise (or
/// counter-clockwise).
pub open spec fn rot_dst(i: int, cw: bool) -> int {
    if cw { (i % 4) * 4 + 3 - i / 4 } else { (3 - i % 4) * 4 + i / 4 }
}

proof fn lemma_rot_inverse(i: int, cw: bool)
    requires
        0 <= i < 16,
    ensures
        0 <= rot_dst(i, cw) < 16,
        rot_dst(rot_dst(i, cw), !cw) == i,
{
}

proof fn lemma_or_bit(out: u16, b: u16, d: u16, k: u16)
    requires
        b <= 1,
        d < 16,
        k < 16,
    ensures
        ((out | (b << d)) >> k) & 1u16 == 1u16 <==> (((out >> k) & 1u16 == 1u16) || (k == d && b == 1)),
{
    assert(((out | (b << d)) >> k) & 1u16 == 1u16 <==> (((out >> k) & 1u16 == 1u16) || (k == d && b == 1)))
        by (bit_vector)
        requires
            b <= 1,
            d < 16,
            k < 16,
    ;
}

/// Two bitmaps with the same sixteen bits are equal.
proof fn lemma_bits_equal(a: u16, b: u16)
    requires
        forall|i: int| 0 <= i < 16 ==> #[trigger] sbit(a, i) == sbit(b, i),
    ensures
        a == b,
{
    assert(sbit(a, 0) == sbit(b, 0) && sbit(a, 1) == sbit(b, 1) && sbit(a, 2) == sbit(b, 2) && sbit(a, 3)
        == sbit(b, 3) && sbit(a, 4) == sbit(b, 4) && sbit(a, 5) == sbit(b, 5) && sbit(a, 6) == sbit(b, 6)
        && sbit(a, 7) == sbit(b, 7) && sbit(a, 8) == sbit(b, 8) && sbit(a, 9) == sbit(b, 9) && sbit(a, 10)
        == sbit(b, 10) && sbit(a, 11) == sbit(b, 11) && sbit(a, 12) == sbit(b, 12) && sbit(a, 13) == sbit(
        b,
        13,
    ) && sbit(a, 14) == sbit(b, 14) && sbit(a, 15) == sbit(b, 15));
    assert(((a >> 0u16) & 1u16 == 1u16) == ((b >> 0u16) & 1u16 == 1u16) && ((a >> 1u16) & 1u16 == 1u16)
        == ((b >> 1u16) & 1u16 == 1u16) && ((a >> 2u16) & 1u16 == 1u16) == ((b >> 2u16) & 1u16 == 1u16)
        && ((a >> 3u16) & 1u16 == 1u16) == ((b >> 3u16) & 1u16 == 1u16) && ((a >> 4u16) & 1u16 == 1u16) == ((b
        >> 4u16) & 1u16 == 1u16) && ((a >> 5u16) & 1u16 == 1u16) == ((b >> 5u16) & 1u16 == 1u16) && ((a
        >> 6u16) & 1u16 == 1u16) == ((b >> 6u16) & 1u16 == 1u16) && ((a >> 7u16) & 1u16 == 1u16) == ((b
        >> 7u16) & 1u16 == 1u16) && ((a >> 8u16) & 1u16 == 1u16) == ((b >> 8u16) & 1u16 == 1u16) && ((a
        >> 9u16) & 1u16 == 1u16) == ((b >> 9u16) & 1u16 == 1u16) && ((a >> 10u16) & 1u16 == 1u16) == ((b
        >> 10u16) & 1u16 == 1u16) && ((a >> 11u16) & 1u16 == 1u16) == ((b >> 11u16) & 1u16 == 1u16) && ((a
        >> 12u16) & 1u16 == 1u16) == ((b >> 12u16) & 1u16 == 1u16) && ((a >> 13u16) & 1u16 == 1u16) == ((b
        >> 13u16) & 1u16 == 1u16) && ((a >> 14u16) & 1u16 == 1u16) == ((b >> 14u16) & 1u16 == 1u16) && ((a
        >> 15u16) & 1u16 == 1u16) == ((b >> 15u16) & 1u16 == 1u16) ==> a == b) by (bit_vector);
}

impl Piece {
    /// Board column of cell `i` of the bitmap.
    pub open spec fn cx(self, i: int) -> int {
        (self.x + i % 4) % 256
    }

    /// Board row of cell `i` of the bitmap; rows from 128 on lie above the
    /// board.
    pub open spec fn cy(self, i: int) -> int {
        (self.y + i / 4) % 256
    }

    /// Whether the piece occupies board cell `(x, y)`.
    pub open spec fn covers(self, x: int, y: int) -> bool {
        exists|i: int| 0 <= i < 16 && #[trigger] sbit(self.shape, i) && self.cx(i) == x && self.cy(i) == y
    }

    /// The columns and rows that the bitmap's cells span, as
    /// `((min_x, max_x), (min_y, max_y))`; an empty bitmap gives
    /// `((4, 0), (4, 0))`.
    pub fn _bounds(&self) -> (b: ((u8, u8), (u8, u8)))
        ensures
            forall|i: int|
                0 <= i < 16 && #[trigger] sbit(self.shape, i) ==> b.0.0 <= i % 4 <= b.0.1 && b.1.0 <= i / 4 <= b.1.1,
            b.0.0 == 4 || exists|i: int| 0 <= i < 16 && #[trigger] sbit(self.shape, i) && i % 4 == b.0.0,
            b.0.1 == 0 || exists|i: int| 0 <= i < 16 && #[trigger] sbit(self.shape, i) && i % 4 == b.0.1,
            b.1.0 == 4 || exists|i: int| 0 <= i < 16 && #[trigger] sbit(self.shape, i) && i / 4 == b.1.0,
            b.1.1 == 0 || exists|i: int| 0 <= i < 16 && #[trigger] sbit(self.shape, i) && i / 4 == b.1.1,
    {
        let mut min_x: u8 = 4;
        let mut max_x: u8 = 0;
        let mut min_y: u8 = 4;
        let mut max_y: u8 = 0;
        let mut i: u16 = 0;
        while i < 16
            invariant
                i <= 16,
                forall|j: int|
                    0 <= j < i && #[trigger] sbit(self.shape, j) ==> min_x <= j % 4 <= max_x && min_y <= j / 4
                        <= max_y,
                min_x == 4 || exists|j: int| 0 <= j < i && #[trigger] sbit(self.shape, j) && j % 4 == min_x,
                max_x == 0 || exists|j: int| 0 <= j < i && #[trigger] sbit(self.shape, j) && j % 4 == max_x,
                min_y == 4 || exists|j: int| 0 <= j < i && #[trigger] sbit(self.shape, j) && j / 4 == min_y,
                max_y == 0 || exists|j: int| 0 <= j < i && #[trigger] sbit(self.shape, j) && j / 4 == max_y,
                min_x <= 4 && max_x <= 3 && min_y <= 4 && max_y <= 3,
            decreases 16 - i,
        {
            if (self.shape >> i) & 1 == 1 {
                assert(sbit(self.shape, i as int));
                let x: u8 = (i % 4) as u8;
                let y: u8 = (i / 4) as u8;
                if x < min_x {
                    min_x = x;
                }
                if x > max_x {
                    max_x = x;
                }
                if y < min_y {
                    min_y = y;
                }
                if y > max_y {
                    max_y = y;
                }
            } else {
                assert(!sbit(self.shape, i as int));
            }
            i = i + 1;
        }
        ((min_x, max_x), (min_y, max_y))
    }

    /// Rotates the bitmap a quarter turn, clockwise if `cw`.
    pub fn rotate(&mut self, cw: bool)
        ensures
            final(self).x == old(self).x,
            final(self).y == old(self).y,
            forall|i: int| 0 <= i < 16 ==> #[trigger] sbit(final(self).shape, rot_dst(i, cw)) == sbit(old(self).shape, i),
            cw ==> forall|x: int, y: int|
                0 <= x < 4 && 0 <= y < 4 ==> #[trigger] sbit(final(self).shape, 4 * x + (3 - y)) == sbit(
                    old(self).shape,
                    4 * y + x,
                ),
            !cw ==> forall|x: int, y: int|
                0 <= x < 4 && 0 <= y < 4 ==> #[trigger] sbit(final(self).shape, 4 * (3 - x) + y) == sbit(
                    old(self).shape,
                    4 * y + x,
                ),
    {
        let shape: u16 = self.shape;
        let mut out: u16 = 0;
        let mut i: u16 = 0;
        assert forall|k: int| 0 <= k < 16 implies !#[trigger] sbit(0u16, k) by {
            let kk = k as u16;
            assert((0u16 >> kk) & 1u16 == 0u16) by (bit_vector);
        }
        while i < 16
            invariant
                i <= 16,
                forall|k: int| 0 <= k < 16 ==> #[trigger] sbit(out, k) == (rot_dst(k, !cw) < i && sbit(shape, rot_dst(k, !cw))),
            decreases 16 - i,
        {
            let x: u16 = i % 4;
            let y: u16 = i / 4;
            let src: u16 = y * 4 + x;
            let dst: u16 = if cw { x * 4 + 3 - y } else { (3 - x) * 4 + y };
            let b: u16 = (shape >> src) & 1u16;
            assert(b <= 1) by (bit_vector)
                requires
                    b == (shape >> src) & 1u16,
            ;
            let ghost old_out = out;
            out = out | (b << dst);
            proof {
                assert(src == i);
                assert(dst == rot_dst(i as int, cw));
                assert(b == 1 <==> sbit(shape, i as int));
                lemma_rot_inverse(i as int, cw);
                assert forall|k: int| 0 <= k < 16 implies #[trigger] sbit(out, k) == (rot_dst(k, !cw) < i + 1
                    && sbit(shape, rot_dst(k, !cw))) by {
                    lemma_or_bit(old_out, b, dst, k as u16);
                    assert(sbit(out, k) == (sbit(old_out, k) || (k == dst && b == 1)));
                    assert(sbit(old_out, k) == (rot_dst(k, !cw) < i && sbit(shape, rot_dst(k, !cw))));
                    lemma_rot_inverse(k, !cw);
                    if k == dst {
                        assert(rot_dst(k, !cw) == i);
                    } else {
                        if rot_dst(k, !cw) == i {
                            lemma_rot_inverse(rot_dst(k, !cw), cw);
                            assert(false);
                        }
                    }
                }
            }
            i = i + 1;
        }
        proof {
            assert forall|j: int| 0 <= j < 16 implies #[trigger] sbit(out, rot_dst(j, cw)) == sbit(shape, j) by {
                lemma_rot_inverse(j, cw);
            }
            lemma_quarter_turn_geometry(shape, out, cw);
        }
        self.shape = out;
    }
}

/// A quarter turn of a bitmap that moves bit `i` to bit `rot_dst(i, cw)`
/// takes the cell in column `x`, row `y` to column `3 - y`, row `x` when
/// clockwise, and to column `y`, row `3 - x` when counter-clockwise; four
/// clockwise turns bring every cell back.
pub proof fn lemma_quarter_turn_geometry(a: u16, b: u16, cw: bool)
    requires
        forall|i: int| 0 <= i < 16 ==> #[trigger] sbit(b, rot_dst(i, cw)) == sbit(a, i),
    ensures
        cw ==> forall|x: int, y: int| 0 <= x < 4 && 0 <= y < 4 ==> #[trigger] sbit(b, 4 * x + (3 - y)) == sbit(a, 4 * y + x),
        !cw ==> forall|x: int, y: int| 0 <= x < 4 && 0 <= y < 4 ==> #[trigger] sbit(b, 4 * (3 - x) + y) == sbit(a, 4 * y + x),
{
    if cw {
        assert forall|x: int, y: int| 0 <= x < 4 && 0 <= y < 4 implies #[trigger] sbit(b, 4 * x + (3 - y)) == sbit(
            a,
            4 * y + x,
        ) by {
            let i = 4 * y + x;
            assert(i % 4 == x && i / 4 == y);
            assert(sbit(b, rot_dst(i, cw)) == sbit(a, i));
        }
    } else {
        assert forall|x: int, y: int| 0 <= x < 4 && 0 <= y < 4 implies #[trigger] sbit(b, 4 * (3 - x) + y) == sbit(
            a,
            4 * y + x,
        ) by {
            let i = 4 * y + x;
            assert(i % 4 == x && i / 4 == y);
            assert(sbit(b, rot_dst(i, cw)) == sbit(a, i));
        }
    }
}

/// Four quarter turns clockwise bring every cell of the bitmap back to
/// where it was.
pub proof fn lemma_four_turns(a: u16, b: u16, c: u16, d: u16, e: u16)
    requires
        forall|i: int| 0 <= i < 16 ==> #[trigger] sbit(b, rot_dst(i, true)) == sbit(a, i),
        forall|i: int| 0 <= i < 16 ==> #[trigger] sbit(c, rot_dst(i, true)) == sbit(b, i),
        forall|i: int| 0 <= i < 16 ==> #[trigger] sbit(d, rot_dst(i, true)) == sbit(c, i),
        forall|i: int| 0 <= i < 16 ==> #[trigger] sbit(e, rot_dst(i, true)) == sbit(d, i),
    ensures
        e == a,
{
    lemma_quarter_turn_geometry(a, b, true);
    lemma_quarter_turn_geometry(b, c, true);
    lemma_quarter_turn_geometry(c, d, true);
    lemma_quarter_turn_geometry(d, e, true);
    assert forall|j: int| 0 <= j < 16 implies #[trigger] sbit(e, j) == sbit(a, j) by {
        let x = j % 4;
        let y = j / 4;
        assert(j == 4 * y + x);
        assert(sbit(b, 4 * x + (3 - y)) == sbit(a, 4 * y + x));
        assert(sbit(c, 4 * (3 - y) + (3 - x)) == sbit(b, 4 * x + (3 - y)));
        let x3 = 3 - x;
        let y3 = 3 - y;
        assert(sbit(d, 4 * x3 + (3 - y3)) == sbit(c, 4 * y3 + x3));
        assert(4 * x3 + (3 - y3) == 4 * (3 - x) + y);
        let x4 = y;
        let y4 = 3 - x;
        assert(sbit(e, 4 * x4 + (3 - y4)) == sbit(d, 4 * y4 + x4));
        assert(4 * x4 + (3 - y4) == 4 * y + x);
    }
    lemma_bits_equal(e, a);
}

/// Rotating a piece a quarter turn one way and back restores it.
pub proof fn lemma_rotate_back(a: Piece, b: Piece, c: Piece, cw: bool, back: bool)
    requires
        back == !cw,
        forall|i: int| 0 <= i < 16 ==> #[trigger] sbit(b.shape, rot_dst(i, cw)) == sbit(a.shape, i),
        forall|i: int| 0 <= i < 16 ==> #[trigger] sbit(c.shape, rot_dst(i, back)) == sbit(b.shape, i),
    ensures
        c.shape == a.shape,
{
    assert forall|j: int| 0 <= j < 16 implies #[trigger] sbit(c.shape, j) == sbit(a.shape, j) by {
        lemma_rot_inverse(j, cw);
        let d = rot_dst(j, cw);
        assert(sbit(c.shape, rot_dst(d, back)) == sbit(b.shape, d));
    }
    lemma_bits_equal(c.shape, a.shape);
}

/// Whether piece `p` overlaps a settled block or leaves the board at the
/// sides or the bottom (cells above the board are allowed).
pub open spec fn collides_spec(board: [u8; 9], p: Piece) -> bool {
    exists|i: int|
        0 <= i < 16 && #[trigger] sbit(p.shape, i) && p.cy(i) < 128 && (p.cy(i) >= HEIGHT || p.cx(i) >= WIDTH
            || row_bit(board@[p.cy(i)], p.cx(i)))
}

/// The rows of `rows` that are not full, in order.
pub open spec fn kept_rows(rows: Seq<u8>) -> Seq<u8>
    decreases rows.len(),
{
    if rows.len() == 0 {
        rows
    } else if rows.last() == FULL_ROW {
        kept_rows(rows.drop_last())
    } else {
        kept_rows(rows.drop_last()).push(rows.last())
    }
}

/// The number of full rows in `rows`.
pub open spec fn full_rows(rows: Seq<u8>) -> nat
    decreases rows.len(),
{
    if rows.len() == 0 {
        0
    } else if rows.last() == FULL_ROW {
        full_rows(rows.drop_last()) + 1
    } else {
        full_rows(rows.drop_last())
    }
}

/// `n` empty rows.
pub open spec fn empty_rows(n: nat) -> Seq<u8> {
    Seq::new(n, |i: int| 0u8)
}

proof fn lemma_kept_len(rows: Seq<u8>)
    ensures
        kept_rows(rows).len() + full_rows(rows) == rows.len(),
    decreases rows.len(),
{
    if rows.len() > 0 {
        lemma_kept_len(rows.drop_last());
    }
}

/// The result of a finished game.
#[derive(Debug, Clone, Copy, PartialEq, Eq, Structural)]
pub struct GameResult {
    pub score: u32,
}

/// The Tetris game: settled blocks (bit `x` of row `y`), the falling piece
/// and the score.
#[derive(Debug, Clone, Copy)]
pub struct Tetris {
    pub board: [u8; 9],
    pub current: Piece,
    pub score: u32,
}

/// Largest score that a tick cannot overflow.
pub const SCORE_ROOM: u32 = 0xffff_ffff - 81;

/// The piece that spawns for random byte `r`.
pub open spec fn spawned_piece(r: u8) -> Piece {
    Piece { shape: ((PIECES@[(r % 7) as int] as u16) << 4u16) as u16, x: 2, y: 255 }
}

impl Tetris {
    /// Whether the falling piece lies in free space.
    pub open spec fn valid(self) -> bool {
        !collides_spec(self.board, self.current)
    }

    /// Whether piece `p` collides with the board.
    pub fn collides(&self, p: &Piece) -> (c: bool)
        ensures
            c == collides_spec(self.board, *p),
    {
        let mut i: u8 = 0;
        while i < 16
            invariant
                i <= 16,
                forall|j: int|
                    0 <= j < i ==> !(#[trigger] sbit(p.shape, j) && p.cy(j) < 128 && (p.cy(j) >= HEIGHT
                        || p.cx(j) >= WIDTH || row_bit(self.board@[p.cy(j)], p.cx(j)))),
            decreases 16 - i,
        {
            let ii: u16 = i as u16;
            if (p.shape >> ii) & 1u16 == 0 {
                assert(!sbit(p.shape, i as int));
                i = i + 1;
                continue;
            }
            let px: u8 = p.x.wrapping_add(i % 4);
            let py: u8 = p.y.wrapping_add(i / 4);
            let shp: u16 = p.shape;
            assert((shp >> ii) & 1u16 != 0u16 ==> (shp >> ii) & 1u16 == 1u16) by (bit_vector);
            assert(sbit(p.shape, i as int));
            assert(((py as i8) < 0) == (py >= 128)) by (bit_vector);
            if (py as i8) < 0 {
                i = i + 1;
                continue;
            }
            if py >= HEIGHT || px >= WIDTH {
                assert(sbit(p.shape, i as int));
                return true;
            }
            assert(((self.board@[py as int] & (1u8 << px)) != 0) == row_bit(self.board@[py as int], px as int)) by {
                let r = self.board@[py as int];
                assert(((r & (1u8 << px)) != 0) == ((r >> px) & 1u8 == 1u8)) by (bit_vector)
                    requires
                        px < 8,
                ;
            }
            if self.board[py as usize] & (1u8 << px) != 0 {
                assert(sbit(p.shape, i as int));
                return true;
            }
            i = i + 1;
        }
        false
    }

    /// Settles the falling piece into the board.
    pub fn lock(&mut self)
        requires
            old(self).valid(),
        ensures
            final(self).current == old(self).current,
            final(self).score == old(self).score,
            locked(old(self).board, old(self).current, final(self).board),
    {
        let p: Piece = self.current;
        let ghost b0 = self.board;
        let mut i: u8 = 0;
        while i < 16
            invariant
                i <= 16,
                self.current == p,
                self.score == old(self).score,
                old(self).valid(),
                old(self).current == p,
                b0 == old(self).board,
                forall|x: int, y: int|
                    0 <= x < WIDTH && 0 <= y < HEIGHT ==> #[trigger] row_bit(self.board@[y], x) == (row_bit(b0@[y], x)
                        || exists|j: int| 0 <= j < i && #[trigger] sbit(p.shape, j) && p.cx(j) == x && p.cy(j) == y),
            decreases 16 - i,
        {
            let ii: u16 = i as u16;
            let shp: u16 = p.shape;
            if (shp >> ii) & 1u16 != 0 {
                assert((shp >> ii) & 1u16 != 0u16 ==> (shp >> ii) & 1u16 == 1u16) by (bit_vector);
                assert(sbit(p.shape, i as int));
                let x: u8 = p.x.wrapping_add(i % 4);
                let y: u8 = p.y.wrapping_add(i / 4);
                if y < HEIGHT {
                    assert(x < WIDTH);
                    let ghost row0 = self.board@[y as int];
                    self.board[y as usize] = self.board[y as usize] | (1u8 << x);
                    proof {
                        assert forall|xx: int, yy: int|
                            0 <= xx < WIDTH && 0 <= yy < HEIGHT implies #[trigger] row_bit(self.board@[yy], xx) == (row_bit(b0@[yy], xx)
                                || exists|j: int| 0 <= j < i + 1 && #[trigger] sbit(p.shape, j) && p.cx(j) == xx && p.cy(j) == yy) by {
                            if yy == y {
                                lemma_row_bit_set(row0, x, xx as u8);
                            }
                            if xx == x && yy == y {
                                assert(sbit(p.shape, i as int) && p.cx(i as int) == xx && p.cy(i as int) == yy);
                            }
                        }
                    }
                } else {
                    proof {
                        assert forall|xx: int, yy: int|
                            0 <= xx < WIDTH && 0 <= yy < HEIGHT implies #[trigger] row_bit(self.board@[yy], xx) == (row_bit(b0@[yy], xx)
                                || exists|j: int| 0 <= j < i + 1 && #[trigger] sbit(p.shape, j) && p.cx(j) == xx && p.cy(j) == yy) by {
                            if exists|j: int| 0 <= j < i + 1 && #[trigger] sbit(p.shape, j) && p.cx(j) == xx && p.cy(j) == yy {
                                let j = choose|j: int| 0 <= j < i + 1 && #[trigger] sbit(p.shape, j) && p.cx(j) == xx && p.cy(j) == yy;
                                assert(j != i);
                            }
                        }
                    }
                }
            } else {
                proof {
                    let sh = p.shape;
                    assert((sh >> ii) & 1u16 == 0u16 ==> !((sh >> ii) & 1u16 == 1u16)) by (bit_vector);
                    assert forall|xx: int, yy: int|
                        0 <= xx < WIDTH && 0 <= yy < HEIGHT implies #[trigger] row_bit(self.board@[yy], xx) == (row_bit(b0@[yy], xx)
                            || exists|j: int| 0 <= j < i + 1 && #[trigger] sbit(p.shape, j) && p.cx(j) == xx && p.cy(j) == yy) by {
                        if exists|j: int| 0 <= j < i + 1 && #[trigger] sbit(p.shape, j) && p.cx(j) == xx && p.cy(j) == yy {
                            let j = choose|j: int| 0 <= j < i + 1 && #[trigger] sbit(p.shape, j) && p.cx(j) == xx && p.cy(j) == yy;
                            assert(j != i);
                        }
                    }
                }
            }
            i = i + 1;
        }
    }
}

impl Tetris {
    /// Removes every full row, letting the rows above fall down, and adds
    /// the square of the number of removed rows to the score.
    pub fn clear_lines(&mut self)
        requires
            old(self).score <= SCORE_ROOM,
        ensures
            final(self).board@ == empty_rows(full_rows(old(self).board@)) + kept_rows(old(self).board@),
            final(self).score == old(self).score + full_rows(old(self).board@) * full_rows(old(self).board@),
            final(self).current == old(self).current,
    {
        let ghost b0 = self.board@;
        let mut cleared: u32 = 0;
        let mut y: usize = 0;
        while y < 9
            invariant
                y <= 9,
                self.score == old(self).score,
                self.current == old(self).current,
                b0 == old(self).board@,
                b0.len() == 9,
                cleared == full_rows(b0.subrange(0, y as int)),
                cleared <= y,
                self.board@.subrange(0, y as int) == empty_rows(full_rows(b0.subrange(0, y as int))) + kept_rows(
                    b0.subrange(0, y as int),
                ),
                self.board@.subrange(y as int, 9) == b0.subrange(y as int, 9),
            decreases 9 - y,
        {
            let ghost pre = self.board@;
            let ghost c = full_rows(b0.subrange(0, y as int));
            let ghost k = kept_rows(b0.subrange(0, y as int));
            assert(b0.subrange(0, y + 1).drop_last() =~= b0.subrange(0, y as int));
            assert(pre[y as int] == b0[y as int]) by {
                assert(pre.subrange(y as int, 9)[0] == b0.subrange(y as int, 9)[0]);
            }
            let full: bool = self.board[y] == FULL_ROW;
            if full {
                let mut y_up: usize = y;
                while y_up > 0
                    invariant
                        y_up <= y < 9,
                        self.score == old(self).score,
                        self.current == old(self).current,
                        forall|j: int| 0 <= j <= y_up ==> #[trigger] self.board@[j] == pre[j],
                        forall|j: int| y_up < j <= y ==> #[trigger] self.board@[j] == pre[j - 1],
                        forall|j: int| y < j < 9 ==> #[trigger] self.board@[j] == pre[j],
                    decreases y_up,
                {
                    self.board[y_up] = self.board[y_up - 1];
                    y_up = y_up - 1;
                }
                self.board[0] = 0;
                cleared = cleared + 1;
                proof {
                    lemma_kept_len(b0.subrange(0, y as int));
                    assert(pre.subrange(0, y as int) =~= empty_rows(c) + k);
                    assert(self.board@.subrange(0, y + 1) =~= empty_rows(c + 1) + k) by {
                        assert forall|j: int| 0 <= j < y + 1 implies #[trigger] self.board@.subrange(0, y + 1)[j] == (empty_rows(c + 1) + k)[j] by {
                            if j > 0 {
                                assert(self.board@[j] == pre[j - 1]);
                                assert(pre[j - 1] == pre.subrange(0, y as int)[j - 1]);
                            }
                        }
                    }
                    assert(self.board@.subrange(y + 1, 9) =~= b0.subrange(y + 1, 9)) by {
                        assert forall|j: int| 0 <= j < 8 - y implies #[trigger] self.board@.subrange(y + 1, 9)[j] == b0.subrange(y + 1, 9)[j] by {
                            assert(pre.subrange(y as int, 9)[j + 1] == b0.subrange(y as int, 9)[j + 1]);
                        }
                    }
                }
            } else {
                proof {
                    assert(self.board@.subrange(0, y + 1) =~= self.board@.subrange(0, y as int).push(pre[y as int]));
                    assert(empty_rows(c) + k.push(pre[y as int]) =~= (empty_rows(c) + k).push(pre[y as int]));
                    assert(self.board@.subrange(y + 1, 9) =~= b0.subrange(y + 1, 9)) by {
                        assert forall|j: int| 0 <= j < 8 - y implies #[trigger] self.board@.subrange(y + 1, 9)[j] == b0.subrange(y + 1, 9)[j] by {
                            assert(pre.subrange(y as int, 9)[j + 1] == b0.subrange(y as int, 9)[j + 1]);
                        }
                    }
                }
            }
            y = y + 1;
        }
        assert(b0.subrange(0, 9) =~= b0);
        assert(self.board@.subrange(0, 9) =~= self.board@);
        assert(cleared * cleared <= 81) by (nonlinear_arith)
            requires
                cleared <= 9,
        ;
        self.score = self.score + cleared * cleared;
    }
}

/// The bitmap rotated a quarter turn, clockwise if `cw`: bit `i` moves to
/// bit `rot_dst(i, cw)`.
pub open spec fn rotated_shape(shape: u16, cw: bool) -> u16 {
    choose|t: u16| #[trigger] is_rotation(t, shape, cw)
}

/// Whether bitmap `t` is `shape` rotated a quarter turn, clockwise if `cw`.
pub open spec fn is_rotation(t: u16, shape: u16, cw: bool) -> bool {
    forall|i: int| 0 <= i < 16 ==> #[trigger] sbit(t, rot_dst(i, cw)) == sbit(shape, i)
}

proof fn lemma_rotated_unique(shape: u16, cw: bool, t: u16)
    requires
        forall|i: int| 0 <= i < 16 ==> #[trigger] sbit(t, rot_dst(i, cw)) == sbit(shape, i),
    ensures
        rotated_shape(shape, cw) == t,
{
    assert(is_rotation(t, shape, cw));
    let r = rotated_shape(shape, cw);
    assert(is_rotation(r, shape, cw));
    assert forall|j: int| 0 <= j < 16 implies #[trigger] sbit(r, j) == sbit(t, j) by {
        let back = !cw;
        lemma_rot_inverse(j, back);
        let i = rot_dst(j, back);
        lemma_rot_inverse(i, cw);
        assert(rot_dst(i, cw) == j) by {
            lemma_rot_inverse(j, back);
            assert(!back == cw);
        }
        assert(sbit(r, rot_dst(i, cw)) == sbit(shape, i));
    }
    lemma_bits_equal(r, t);
}

/// The falling piece after input `b`: L and R move it, Select rotates it
/// clockwise and Start counter-clockwise.
pub open spec fn moved_piece(p: Piece, b: Button) -> Piece {
    match b {
        Button::L => Piece { x: ((p.x + 255) % 256) as u8, ..p },
        Button::R => Piece { x: ((p.x + 1) % 256) as u8, ..p },
        Button::Select => Piece { shape: rotated_shape(p.shape, true), ..p },
        Button::Start => Piece { shape: rotated_shape(p.shape, false), ..p },
    }
}

/// Whether `fb` shows the board of `g`: piece cells bright, settled blocks
/// dimmer, the rest dark.
pub open spec fn shows(g: Tetris, fb: Framebuffer) -> bool {
    forall|x: int, y: int|
        0 <= x < FB_WIDTH && 0 <= y < FB_HEIGHT ==> #[trigger] fb.px(x, y) == if g.current.covers(x, y) {
            PIECE_BRIGHTNESS
        } else if row_bit(g.board@[y], x) {
            BOARD_BRIGHTNESS
        } else {
            0
        }
}

impl Tetris {
    /// The game after button event `ev`: a press moves or rotates the piece.
    pub open spec fn after_event(self, ev: Option<Event>) -> Tetris {
        if ev matches Some(e) && e.pressed {
            let p = moved_piece(self.current, ev.unwrap().button);
            Tetris { current: if collides_spec(self.board, p) { self.current } else { p }, ..self }
        } else {
            self
        }
    }

    /// Puts a random piece at the top; returns whether it collides, which
    /// ends the game.
    pub fn spawn(&mut self, rng: &mut WhiteNoiseGenerator) -> (c: bool)
        ensures
            final(self).current == spawned_piece(byte_at(old(rng).lfsr, 0)),
            final(self).board == old(self).board,
            final(self).score == old(self).score,
            final(rng).lfsr == state_after(old(rng).lfsr, 1),
            c == collides_spec(final(self).board, final(self).current),
    {
        proof {
            reveal_with_fuel(state_after, 2);
        }
        let i: usize = (rng.rand8() % 7) as usize;
        self.current = Piece { shape: (PIECES[i] as u16) << 4u16, x: (WIDTH / 2) - 2, y: 255 };
        let p: Piece = self.current;
        self.collides(&p)
    }

    /// A new game with an empty board and a random piece.
    pub fn new(rng: &mut WhiteNoiseGenerator) -> (t: Tetris)
        ensures
            t.board@ == empty_rows(9),
            t.score == 0,
            t.current == spawned_piece(byte_at(old(rng).lfsr, 0)),
            t.valid(),
            final(rng).lfsr == state_after(old(rng).lfsr, 1),
    {
        let mut t = Tetris { board: [0u8; 9], current: Piece { shape: 0, x: 0, y: 0 }, score: 0 };
        let _ = t.spawn(rng);
        assert(t.board@ =~= empty_rows(9));
        proof {
            let p = t.current;
            let r = PIECES@[(byte_at(old(rng).lfsr, 0) % 7) as int];
            if t.board@ == empty_rows(9) && collides_spec(t.board, p) {
                let i = choose|i: int|
                    0 <= i < 16 && #[trigger] sbit(p.shape, i) && p.cy(i) < 128 && (p.cy(i) >= HEIGHT || p.cx(i)
                        >= WIDTH || row_bit(t.board@[p.cy(i)], p.cx(i)));
                let ii = i as u16;
                let rr = r as u16;
                assert(((rr << 4u16) >> ii) & 1u16 == 1u16 ==> 4 <= ii < 12) by (bit_vector)
                    requires
                        rr < 256,
                        ii < 16,
                ;
                assert(row_bit(0u8, p.cx(i))) by {
                    assert(t.board@[p.cy(i)] == 0u8);
                }
                let cc = p.cx(i) as u8;
                assert((0u8 >> cc) & 1u8 == 0u8) by (bit_vector);
            }
        }
        t
    }

    /// Moves or rotates the falling piece by input `but`, unless the result
    /// would collide.
    pub fn input(&mut self, but: Button)
        ensures
            final(self).board == old(self).board,
            final(self).score == old(self).score,
            final(self).current == if collides_spec(old(self).board, moved_piece(old(self).current, but)) {
                old(self).current
            } else {
                moved_piece(old(self).current, but)
            },
    {
        let mut p: Piece = self.current;
        match but {
            Button::L => {
                p.x = p.x.wrapping_sub(1);
            },
            Button::R => {
                p.x = p.x.wrapping_add(1);
            },
            Button::Select => {
                p.rotate(true);
                proof {
                    lemma_rotated_unique(self.current.shape, true, p.shape);
                }
            },
            Button::Start => {
                p.rotate(false);
                proof {
                    lemma_rotated_unique(self.current.shape, false, p.shape);
                }
            },
        }
        if !self.collides(&p) {
            self.current = p;
        }
    }

    /// Shows the board and the falling piece on the framebuffer.
    pub fn draw(&self, fb: &mut Framebuffer)
        ensures
            shows(*self, *final(fb)),
    {
        fb.clear_all();
        let mut y: u8 = 0;
        while y < HEIGHT
            invariant
                y <= HEIGHT,
                forall|a: int, b: int|
                    0 <= a < FB_WIDTH && 0 <= b < y ==> #[trigger] fb.px(a, b) == if row_bit(self.board@[b], a) {
                        BOARD_BRIGHTNESS
                    } else {
                        0
                    },
                forall|a: int, b: int| 0 <= a < FB_WIDTH && y <= b < FB_HEIGHT ==> #[trigger] fb.px(a, b) == 0,
            decreases HEIGHT - y,
        {
            let mut x: u8 = 0;
            while x < WIDTH
                invariant
                    y < HEIGHT,
                    x <= WIDTH,
                    forall|a: int, b: int|
                        0 <= a < FB_WIDTH && 0 <= b < y ==> #[trigger] fb.px(a, b) == if row_bit(self.board@[b], a) {
                            BOARD_BRIGHTNESS
                        } else {
                            0
                        },
                    forall|a: int| 0 <= a < x ==> #[trigger] fb.px(a, y as int) == if row_bit(self.board@[y as int], a) {
                        BOARD_BRIGHTNESS
                    } else {
                        0
                    },
                    forall|a: int, b: int|
                        0 <= a < FB_WIDTH && y <= b < FB_HEIGHT && !(b == y && a < x) ==> #[trigger] fb.px(a, b) == 0,
                decreases WIDTH - x,
            {
                let row: u8 = self.board[y as usize];
                assert(((row & (1u8 << x)) != 0) == ((row >> x) & 1u8 == 1u8)) by (bit_vector)
                    requires
                        x < 8,
                ;
                if row & (1u8 << x) != 0 {
                    fb.store(x as usize, y as usize, BOARD_BRIGHTNESS);
                }
                x = x + 1;
            }
            y = y + 1;
        }
        let p: Piece = self.current;
        let ghost fb1 = *fb;
        let mut i: u8 = 0;
        while i < 16
            invariant
                i <= 16,
                p == self.current,
                forall|a: int, b: int|
                    0 <= a < FB_WIDTH && 0 <= b < FB_HEIGHT ==> #[trigger] fb.px(a, b) == if exists|j: int|
                        0 <= j < i && #[trigger] sbit(p.shape, j) && p.cx(j) == a && p.cy(j) == b {
                        PIECE_BRIGHTNESS
                    } else {
                        fb1.px(a, b)
                    },
            decreases 16 - i,
        {
            let ii: u16 = i as u16;
            let shp: u16 = p.shape;
            let ghost fbi = *fb;
            if (shp >> ii) & 1u16 == 0 {
                proof {
                    assert((shp >> ii) & 1u16 == 0u16 ==> !((shp >> ii) & 1u16 == 1u16)) by (bit_vector);
                    assert forall|a: int, b: int| 0 <= a < FB_WIDTH && 0 <= b < FB_HEIGHT implies #[trigger] fb.px(a, b)
                        == if exists|j: int| 0 <= j < i + 1 && #[trigger] sbit(p.shape, j) && p.cx(j) == a && p.cy(j) == b {
                        PIECE_BRIGHTNESS
                    } else {
                        fb1.px(a, b)
                    } by {
                        if exists|j: int| 0 <= j < i + 1 && #[trigger] sbit(p.shape, j) && p.cx(j) == a && p.cy(j) == b {
                            let j = choose|j: int| 0 <= j < i + 1 && #[trigger] sbit(p.shape, j) && p.cx(j) == a && p.cy(j) == b;
                            assert(j != i);
                        }
                    }
                }
                i = i + 1;
                continue;
            }
            assert((shp >> ii) & 1u16 != 0u16 ==> (shp >> ii) & 1u16 == 1u16) by (bit_vector);
            let x: u8 = p.x.wrapping_add(i % 4);
            let y: u8 = p.y.wrapping_add(i / 4);
            if x < WIDTH && y < HEIGHT {
                fb.store(x as usize, y as usize, PIECE_BRIGHTNESS);
            }
            proof {
                assert forall|a: int, b: int| 0 <= a < FB_WIDTH && 0 <= b < FB_HEIGHT implies #[trigger] fb.px(a, b)
                    == if exists|j: int| 0 <= j < i + 1 && #[trigger] sbit(p.shape, j) && p.cx(j) == a && p.cy(j) == b {
                    PIECE_BRIGHTNESS
                } else {
                    fb1.px(a, b)
                } by {
                    if a == x && b == y {
                        assert(sbit(p.shape, i as int) && p.cx(i as int) == a && p.cy(i as int) == b);
                    } else if exists|j: int| 0 <= j < i + 1 && #[trigger] sbit(p.shape, j) && p.cx(j) == a && p.cy(j) == b {
                        let j = choose|j: int| 0 <= j < i + 1 && #[trigger] sbit(p.shape, j) && p.cx(j) == a && p.cy(j) == b;
                        if j == i {
                            assert(false);
                        }
                        assert(fbi.px(a, b) == PIECE_BRIGHTNESS);
                    }
                }
            }
            i = i + 1;
        }
    }

    /// One fall step: the piece drops one row, or, when it cannot, settles;
    /// full rows are removed and a new piece spawns. Returns the result
    /// when the new piece has no room.
    pub fn tick(&mut self, rng: &mut WhiteNoiseGenerator) -> (r: Option<GameResult>)
        requires
            old(self).valid(),
            old(self).score <= SCORE_ROOM,
        ensures
            old(self).ticked(*final(self), old(rng).lfsr, final(rng).lfsr, r),
    {
        let mut p: Piece = self.current;
        p.y = p.y.wrapping_add(1);
        if self.collides(&p) {
            self.lock();
            let ghost lb = self.board;
            self.clear_lines();
            proof {
                assert(locked(old(self).board, old(self).current, lb));
            }
            if self.spawn(rng) {
                return Some(GameResult { score: self.score });
            }
        } else {
            self.current = p;
        }
        None
    }

    /// Whether `next`, `s2` and `r` follow from one fall step of this game
    /// with register `s`.
    pub open spec fn ticked(self, next: Tetris, s: u32, s2: u32, r: Option<GameResult>) -> bool {
        let p = Piece { y: ((self.current.y + 1) % 256) as u8, ..self.current };
        if collides_spec(self.board, p) {
            exists|lb: [u8; 9]| {
                &&& locked(self.board, self.current, lb)
                &&& next.board@ == empty_rows(full_rows(lb@)) + kept_rows(lb@)
                &&& next.score == self.score + full_rows(lb@) * full_rows(lb@)
                &&& next.current == spawned_piece(byte_at(s, 0))
                &&& s2 == state_after(s, 1)
                &&& r == if collides_spec(next.board, next.current) {
                    Some(GameResult { score: next.score })
                } else {
                    None::<GameResult>
                }
            }
        } else {
            next == Tetris { current: p, ..self } && s2 == s && r is None
        }
    }
}

/// Whether `lb` is `board` with the cells of piece `cur` filled in.
pub open spec fn locked(board: [u8; 9], cur: Piece, lb: [u8; 9]) -> bool {
    forall|x: int, y: int|
        0 <= x < WIDTH && 0 <= y < HEIGHT ==> #[trigger] row_bit(lb@[y], x) == (row_bit(board@[y], x) || cur.covers(x, y))
}

proof fn lemma_row_bit_set(t: u8, c: u8, k: u8)
    requires
        c < 8,
        k < 8,
    ensures
        row_bit(t | (1u8 << c), k as int) == (row_bit(t, k as int) || k == c),
{
    assert(((t | (1u8 << c)) >> k) & 1u8 == 1u8 <==> (((t >> k) & 1u8 == 1u8) || k == c)) by (bit_vector)
        requires
            c < 8,
            k < 8,
    ;
}

/// Tetris app state: playing (with the fall timer) or showing the score.
#[derive(Debug, Clone, Copy)]
pub enum TaskState {
    Game(Ticker, Tetris),
    Score(ShowScoreTask),
}

/// The Tetris app.
#[derive(Debug, Clone, Copy)]
pub struct Task(pub TaskState);

/// Fall period in milliseconds.
pub const FALL_MILLIS: u32 = 500;

impl Task {
    /// Whether the game can take another poll: the falling piece lies in
    /// free space and the score cannot overflow.
    pub open spec fn ready(self) -> bool {
        match self.0 {
            TaskState::Game(_, g) => g.valid() && g.score <= SCORE_ROOM,
            TaskState::Score(_) => true,
        }
    }

    /// Whether the score leaves room for another poll.
    pub fn score_fits(&self) -> (b: bool)
        ensures
            b == match self.0 {
                TaskState::Game(_, g) => g.score <= SCORE_ROOM,
                TaskState::Score(_) => true,
            },
    {
        match &self.0 {
            TaskState::Game(_, g) => g.score <= SCORE_ROOM,
            TaskState::Score(_) => true,
        }
    }

    /// Whether `t` is a game started at `now` with register state `s`,
    /// leaving state `s2`, and shown on `fb`: an empty board and the first
    /// piece drawn from the next byte.
    pub open spec fn started(t: Task, now: Instant, s: u32, s2: u32, fb: Framebuffer) -> bool {
        &&& t.0 matches TaskState::Game(tk, g) && tk == Ticker::spec_every(now, 5000) && g.board@ == empty_rows(9)
            && g.score == 0 && g.current == spawned_piece(byte_at(s, 0)) && shows(g, fb)
        &&& s2 == state_after(s, 1)
    }

    /// Starts a game at `now` and shows it.
    pub fn new(now: Instant, fb: &mut Framebuffer, rng: &mut WhiteNoiseGenerator) -> (t: Task)
        ensures
            Task::started(t, now, old(rng).lfsr, final(rng).lfsr, *final(fb)),
            t.ready(),
    {
        let game = Tetris::new(rng);
        game.draw(fb);
        Task(TaskState::Game(Ticker::every(now, Duration::from_millis(FALL_MILLIS)), game))
    }

    /// Whether the outputs follow from one poll at `now`: while playing, a
    /// pressed button moves the piece and redraws, and each fall period
    /// drops the piece; when the game ends the score display starts. While
    /// showing the score, the display is polled and its result returned.
    pub open spec fn polled(
        self,
        next: Task,
        now: Instant,
        b: Buttons,
        b2: Buttons,
        fb: Framebuffer,
        fb2: Framebuffer,
        s: u32,
        s2: u32,
        f: ScoreFlasher,
        f2: ScoreFlasher,
        ret: bool,
    ) -> bool {
        match self.0 {
            TaskState::Game(tk, g) => {
                let ev = decode_event(b.signal);
                let pressed = ev matches Some(e) && e.pressed;
                let g1 = g.after_event(ev);
                &&& b2.signal == 0 && b2.state == b.state
                &&& !ret
                &&& if tk.expires_at.spec_le(now) {
                    exists|g2: Tetris, r: Option<GameResult>| {
                        &&& g1.ticked(g2, s, s2, r)
                        &&& match r {
                            Some(res) => {
                                &&& next.0 matches TaskState::Score(st) && ShowScoreTask::is_new(st, now, false, res.score, f.high_score_of(0))
                                &&& f2.recorded(f, 0, res.score, f.high_score_of(0))
                                &&& (if pressed { shows(g1, fb2) } else { fb2 == fb })
                            },
                            None => {
                                &&& next.0 == TaskState::Game(tk.spec_consumed(), g2)
                                &&& shows(g2, fb2)
                                &&& f2 == f
                            },
                        }
                    }
                } else {
                    &&& next.0 == TaskState::Game(tk, g1)
                    &&& s2 == s
                    &&& f2 == f
                    &&& if pressed { shows(g1, fb2) } else { fb2 == fb }
                }
            },
            TaskState::Score(st) => {
                &&& next.0 matches TaskState::Score(st2) && st.polled(st2, now, b, b2, fb, fb2, f, ret)
                &&& s2 == s
                &&& f2 == f
            },
        }
    }

    /// One poll of the Tetris app at `now`; returns whether it has ended.
    pub fn poll(
        &mut self,
        now: Instant,
        buttons: &mut Buttons,
        fb: &mut Framebuffer,
        rng: &mut WhiteNoiseGenerator,
        flasher: &mut ScoreFlasher,
    ) -> (ret: bool)
        requires
            old(self).ready(),
        ensures
            old(self).polled(
                *final(self),
                now,
                *old(buttons),
                *final(buttons),
                *old(fb),
                *final(fb),
                old(rng).lfsr,
                final(rng).lfsr,
                *old(flasher),
                *final(flasher),
                ret,
            ),
            final(self).0 is Game ==> final(self).0->Game_1.valid(),
    {
        let ghost old_fb = *fb;
        let ghost s0 = rng.lfsr;
        let ghost f0 = *flasher;
        match &mut self.0 {
            TaskState::Game(ticker, game) => {
                let ghost tk0 = *ticker;
                let ghost gev = game.after_event(decode_event(buttons.signal));
                if let Some(Event { pressed: true, button }) = buttons.event() {
                    game.input(button);
                    game.draw(fb);
                }
                let ghost g1 = *game;
                let ghost fb1 = *fb;
                assert(g1 == gev);
                if ticker.consume_expired(now) {
                    let res = game.tick(rng);
                    let ghost g2 = *game;
                    match res {
                        Some(r) => {
                            let st = ShowScoreTask::new(now, GameSelection::Tetris, false, r.score, flasher);
                            self.0 = TaskState::Score(st);
                            assert(g1.ticked(g2, s0, rng.lfsr, res));
                            assert(ShowScoreTask::is_new(st, now, false, r.score, f0.high_score_of(0)));
                            assert(flasher.recorded(f0, 0, r.score, f0.high_score_of(0)));
                            assert(buttons.signal == 0);
                            return false;
                        },
                        None => {
                            game.draw(fb);
                            assert(g1.ticked(g2, s0, rng.lfsr, res));
                            assert(*ticker == tk0.spec_consumed());
                        },
                    }
                }
                false
            },
            TaskState::Score(show_score_task) => show_score_task.poll(now, buttons, fb, flasher),
        }
    }
}

} // verus!
