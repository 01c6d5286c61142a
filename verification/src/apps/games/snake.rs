//! Snake on the 8 x 9 matrix, wrapping around at the edges: every
//! Maultasch eaten makes the snake two cells longer, and filling the whole
//! matrix wins.
use vstd::prelude::*;
use crate::drivers::buttons::{Button, Buttons, Event, decode_event};
use crate::drivers::flash::ScoreFlasher;
use crate::drivers::matrix::{Framebuffer, WIDTH as FB_WIDTH, HEIGHT as FB_HEIGHT, frame_duration};
use crate::time::{Duration, Instant, Ticker, wrap_i32};
use crate::util::rand::{WhiteNoiseGenerator, byte_at, next_state, lemma_pair_states_repeat, lemma_state_after_add, state_after};
use super::{GameSelection, ShowScoreTask};

verus! {

/// Brightness of the snake's head.
pub const HEAD_BRIGHTNESS: u8 = 64;

/// Brightness of the snake's body.
pub const SNAKE_BRIGHTNESS: u8 = 32;

/// Brightness of a Maultasch.
pub const MAULTASCH_BRIGHTNESS: u8 = 96;

/// Length from which a Maultasch scores the speed multiplier instead of
/// one point: twice the border of the matrix.
pub const MULTIPLIER_MIN_LENGTH: u8 = 30;

/// Step period at the start, in milliseconds.
pub const INITIAL_MILLIS: u32 = 250;

/// Step period at the start, in ticks.
pub const INITIAL_TICKS: u32 = 2500;

/// Number of cells of the matrix; a snake this long has won.
pub const CELLS: u8 = 72;

/// How many random places are tried for a new Maultasch: one for each
/// value of the register, after which the places drawn only repeat.
pub const MAULTASCH_ATTEMPTS: u64 = 0x1_0000_0000;

/// Largest speed multiplier: the period is halved at most while it stays
/// at least one frame of the matrix.
pub const MULTIPLIER_MAX: u32 = 138;

/// A direction of movement on the matrix; y grows downwards.
#[derive(Debug, PartialEq, Eq, Clone, Copy, Structural)]
pub enum Direction {
    Up,
    Right,
    Down,
    Left,
}

impl Direction {
    /// The direction a quarter turn clockwise.
    pub open spec fn spec_cw(self) -> Direction {
        match self {
            Direction::Up => Direction::Right,
            Direction::Right => Direction::Down,
            Direction::Down => Direction::Left,
            Direction::Left => Direction::Up,
        }
    }

    /// The direction a quarter turn counter-clockwise.
    pub open spec fn spec_ccw(self) -> Direction {
        match self {
            Direction::Left => Direction::Down,
            Direction::Down => Direction::Right,
            Direction::Right => Direction::Up,
            Direction::Up => Direction::Left,
        }
    }

    /// The step `(dx, dy)` of this direction.
    pub open spec fn spec_delta(self) -> (int, int) {
        match self {
            Direction::Up => (0, -1),
            Direction::Right => (1, 0),
            Direction::Down => (0, 1),
            Direction::Left => (-1, 0),
        }
    }

    /// The direction a quarter turn clockwise.
    pub fn cw(&self) -> (d: Direction)
        ensures
            d == self.spec_cw(),
    {
        match self {
            Direction::Up => Direction::Right,
            Direction::Right => Direction::Down,
            Direction::Down => Direction::Left,
            Direction::Left => Direction::Up,
        }
    }

    /// The direction a quarter turn counter-clockwise.
    pub fn ccw(&self) -> (d: Direction)
        ensures
            d == self.spec_ccw(),
    {
        match self {
            Direction::Left => Direction::Down,
            Direction::Down => Direction::Right,
            Direction::Right => Direction::Up,
            Direction::Up => Direction::Left,
        }
    }

    /// The step `(dx, dy)` of this direction.
    pub fn delta(&self) -> (d: (i32, i32))
        ensures
            d.0 == self.spec_delta().0,
            d.1 == self.spec_delta().1,
    {
        match self {
            Direction::Up => (0, -1),
            Direction::Right => (1, 0),
            Direction::Down => (0, 1),
            Direction::Left => (-1, 0),
        }
    }
}

/// A clockwise turn undoes a counter-clockwise one and back.
pub proof fn lemma_turns_undo(d: Direction)
    ensures
        d.spec_cw().spec_ccw() == d,
        d.spec_ccw().spec_cw() == d,
{
}

/// Four clockwise turns lead back to the start, and a clockwise turn
/// rotates the step `(dx, dy)` to `(-dy, dx)`.
pub proof fn lemma_cw_rotates(d: Direction)
    ensures
        d.spec_cw().spec_cw().spec_cw().spec_cw() == d,
        d.spec_cw().spec_delta() == (-d.spec_delta().1, d.spec_delta().0),
{
}

/// What occupies a cell of the field; a body cell records the direction
/// to the next cell towards the head.
#[derive(Debug, PartialEq, Eq, Clone, Copy, Structural)]
pub enum FieldState {
    Empty,
    Snake(Direction),
    SnakeHead,
    Maultasch,
}

/// The brightness that shows a cell.
pub open spec fn state_brightness(s: FieldState) -> u8 {
    match s {
        FieldState::Empty => 0,
        FieldState::Snake(_) => SNAKE_BRIGHTNESS,
        FieldState::SnakeHead => HEAD_BRIGHTNESS,
        FieldState::Maultasch => MAULTASCH_BRIGHTNESS,
    }
}

impl FieldState {
    /// The direction of a body cell.
    pub fn unwrap_dir(self) -> (d: Direction)
        requires
            self is Snake,
        ensures
            d == self->Snake_0,
    {
        match self {
            FieldState::Snake(dir) => dir,
            _ => Direction::Up,
        }
    }
}

/// A cell of the matrix.
#[derive(Debug, PartialEq, Eq, Clone, Copy, Structural)]
pub struct FbCoordinate {
    pub x: u8,
    pub y: u8,
}

/// `val` brought back into `0 .. max` after a step over an edge.
pub open spec fn wrap_coord(val: int, max: int) -> int {
    if val >= max {
        0
    } else if val < 0 {
        max - 1
    } else {
        val
    }
}

/// The place tried by attempt `n` for a Maultasch, drawing from register
/// state `s`: a column from byte `2n` and a row from byte `2n + 1`.
pub open spec fn attempt_pos(s: u32, n: nat) -> FbCoordinate {
    FbCoordinate { x: (byte_at(s, 2 * n) % 8) as u8, y: (byte_at(s, 2 * n + 1) % 9) as u8 }
}

impl FbCoordinate {
    /// Whether the cell lies on the matrix.
    pub open spec fn valid(self) -> bool {
        self.x < FB_WIDTH && self.y < FB_HEIGHT
    }

    /// The neighbouring cell in direction `dir`, wrapping around.
    pub open spec fn spec_go(self, dir: Direction) -> FbCoordinate {
        FbCoordinate {
            x: wrap_coord(self.x + dir.spec_delta().0, FB_WIDTH as int) as u8,
            y: wrap_coord(self.y + dir.spec_delta().1, FB_HEIGHT as int) as u8,
        }
    }

    /// A random cell: a column from the next byte and a row from the one
    /// after.
    pub fn random(rng: &mut WhiteNoiseGenerator) -> (c: FbCoordinate)
        ensures
            c == attempt_pos(old(rng).lfsr, 0),
            c.valid(),
            final(rng).lfsr == state_after(old(rng).lfsr, 2),
    {
        let ghost s = rng.lfsr;
        let x: u8 = rng.rand8() % FB_WIDTH as u8;
        let y: u8 = rng.rand8() % FB_HEIGHT as u8;
        proof {
            reveal_with_fuel(state_after, 3);
        }
        FbCoordinate { x, y }
    }

    /// The neighbouring cell in direction `dir`, wrapping around.
    pub fn go_dir(&self, dir: Direction) -> (c: FbCoordinate)
        requires
            self.valid(),
        ensures
            c == self.spec_go(dir),
            c.valid(),
    {
        let x: i32 = self.x as i32;
        let y: i32 = self.y as i32;
        let (dx, dy) = dir.delta();
        FbCoordinate { x: Self::wraparound(x + dx, FB_WIDTH), y: Self::wraparound(y + dy, FB_HEIGHT) }
    }

    /// Shows brightness `val` at this cell.
    pub fn set_fb(&self, fb: &mut Framebuffer, val: u8)
        requires
            self.valid(),
        ensures
            final(fb).px(self.x as int, self.y as int) == val,
            final(fb).same_except(*old(fb), self.x as int, self.y as int),
    {
        fb.store(self.x as usize, self.y as usize, val);
    }

    /// `val` brought back into `0 .. max` after a step over an edge.
    pub fn wraparound(val: i32, max: usize) -> (r: u8)
        requires
            1 <= max <= 256,
            -1 <= val <= max,
        ensures
            r == wrap_coord(val as int, max as int),
    {
        if val >= max as i32 {
            0
        } else if val < 0 {
            (max - 1) as u8
        } else {
            val as u8
        }
    }
}

/// What occupies each cell of the matrix.
#[derive(Debug, Clone, Copy)]
pub struct Field {
    pub field: [[FieldState; 8]; 9],
}

impl Field {
    /// What occupies cell `(x, y)`.
    pub open spec fn cell(self, x: int, y: int) -> FieldState {
        self.field@[y]@[x]
    }

    /// What occupies cell `c`.
    pub open spec fn at(self, c: FbCoordinate) -> FieldState {
        self.cell(c.x as int, c.y as int)
    }

    /// Whether `fb` shows this field.
    pub open spec fn shown(self, fb: Framebuffer) -> bool {
        forall|x: int, y: int|
            0 <= x < FB_WIDTH && 0 <= y < FB_HEIGHT ==> #[trigger] fb.px(x, y) == state_brightness(
                self.cell(x, y),
            )
    }

    /// Whether `next` is this field with cell `c` set to `s`.
    pub open spec fn updated(self, next: Field, c: FbCoordinate, s: FieldState) -> bool {
        forall|x: int, y: int|
            0 <= x < FB_WIDTH && 0 <= y < FB_HEIGHT ==> #[trigger] next.cell(x, y) == if x == c.x && y == c.y {
                s
            } else {
                self.cell(x, y)
            }
    }

    /// Whether every cell is empty.
    pub open spec fn all_empty(self) -> bool {
        forall|x: int, y: int| 0 <= x < FB_WIDTH && 0 <= y < FB_HEIGHT ==> #[trigger] self.cell(x, y) == FieldState::Empty
    }

    /// An empty field, shown on a cleared framebuffer.
    pub fn new(fb: &mut Framebuffer) -> (f: Field)
        ensures
            f.all_empty(),
            f.shown(*final(fb)),
    {
        fb.clear_all();
        Field { field: [[FieldState::Empty; 8]; 9] }
    }

    /// What occupies cell `c`.
    pub fn get(&self, c: FbCoordinate) -> (s: FieldState)
        requires
            c.valid(),
        ensures
            s == self.at(c),
    {
        self.field[c.y as usize][c.x as usize]
    }

    /// Sets cell `c` to `state` and shows it.
    pub fn set(&mut self, c: FbCoordinate, state: FieldState, fb: &mut Framebuffer)
        requires
            c.valid(),
        ensures
            old(self).updated(*final(self), c, state),
            final(fb).px(c.x as int, c.y as int) == state_brightness(state),
            final(fb).same_except(*old(fb), c.x as int, c.y as int),
            old(self).shown(*old(fb)) ==> final(self).shown(*final(fb)),
    {
        let y: usize = c.y as usize;
        let mut row: [FieldState; 8] = self.field[y];
        row[c.x as usize] = state;
        self.field[y] = row;
        let b: u8 = match state {
            FieldState::Empty => 0,
            FieldState::Snake(_) => SNAKE_BRIGHTNESS,
            FieldState::SnakeHead => HEAD_BRIGHTNESS,
            FieldState::Maultasch => MAULTASCH_BRIGHTNESS,
        };
        c.set_fb(fb, b);
    }

    /// Whether attempt `n` is the first to draw an empty cell.
    pub open spec fn first_empty(self, s: u32, n: nat) -> bool {
        &&& self.at(attempt_pos(s, n)) == FieldState::Empty
        &&& forall|m: nat| m < n ==> self.at(#[trigger] attempt_pos(s, m)) != FieldState::Empty
    }

    /// Whether some cell is empty.
    pub open spec fn has_empty(self) -> bool {
        exists|x: int, y: int|
            0 <= x < FB_WIDTH && 0 <= y < FB_HEIGHT && #[trigger] self.cell(x, y) == FieldState::Empty
    }

    /// Whether `c` is the first empty cell in row order.
    pub open spec fn first_empty_cell(self, c: FbCoordinate) -> bool {
        &&& c.valid()
        &&& self.at(c) == FieldState::Empty
        &&& forall|x: int, y: int|
            0 <= x < FB_WIDTH && 0 <= y < FB_HEIGHT && (y < c.y || (y == c.y && x < c.x)) ==> #[trigger] self.cell(
                x,
                y,
            ) != FieldState::Empty
    }

    /// Whether `next` and the register state `s2` follow from placing a
    /// Maultasch with register state `s`: random cells are drawn until an
    /// empty one is found, which takes the Maultasch. Should no draw ever
    /// land on an empty cell, the first empty cell in row order takes it;
    /// a full field stays as it is.
    #[verifier::opaque]
    pub open spec fn maultasch_placed(self, next: Field, s: u32, s2: u32) -> bool {
        if exists|n: nat| self.first_empty(s, n) {
            let n = choose|n: nat| self.first_empty(s, n);
            &&& self.updated(next, attempt_pos(s, n), FieldState::Maultasch)
            &&& s2 == state_after(s, 2 * n + 2)
        } else if exists|c: FbCoordinate| self.first_empty_cell(c) {
            let c = choose|c: FbCoordinate| self.first_empty_cell(c);
            &&& self.updated(next, c, FieldState::Maultasch)
            &&& s2 == state_after(s, 2 * MAULTASCH_ATTEMPTS as nat)
        } else {
            &&& next == self
            &&& s2 == s
        }
    }

    /// The first empty cell in row order, if any.
    pub fn find_empty(&self) -> (c: Option<FbCoordinate>)
        ensures
            c matches Some(c) ==> self.first_empty_cell(c),
            c is None ==> !self.has_empty(),
    {
        let mut y: u8 = 0;
        while y < FB_HEIGHT as u8
            invariant
                y <= FB_HEIGHT,
                forall|x: int, yy: int| 0 <= x < FB_WIDTH && 0 <= yy < y ==> #[trigger] self.cell(x, yy) != FieldState::Empty,
            decreases FB_HEIGHT - y,
        {
            let mut x: u8 = 0;
            while x < FB_WIDTH as u8
                invariant
                    x <= FB_WIDTH,
                    y < FB_HEIGHT,
                    forall|xx: int, yy: int|
                        0 <= xx < FB_WIDTH && 0 <= yy < FB_HEIGHT && (yy < y || (yy == y && xx < x)) ==> #[trigger] self.cell(
                            xx,
                            yy,
                        ) != FieldState::Empty,
                decreases FB_WIDTH - x,
            {
                let c = FbCoordinate { x, y };
                if self.get(c) == FieldState::Empty {
                    return Some(c);
                }
                x = x + 1;
            }
            y = y + 1;
        }
        None
    }

    /// Places a Maultasch on a random empty cell and shows it; returns
    /// whether there was an empty cell. Random cells are drawn until one is
    /// empty; after one pair of draws for each register value the places
    /// drawn only repeat, so should none of those pairs land on an empty
    /// cell, none ever would, and the first empty cell in row order is
    /// taken instead.
    pub fn gen_maultasch(&mut self, rng: &mut WhiteNoiseGenerator, fb: &mut Framebuffer) -> (placed: bool)
        ensures
            old(self).maultasch_placed(*final(self), old(rng).lfsr, final(rng).lfsr),
            placed == old(self).has_empty(),
            old(self).shown(*old(fb)) ==> final(self).shown(*final(fb)),
            !placed ==> *final(fb) == *old(fb),
            placed ==> exists|c: FbCoordinate|
                {
                    &&& c.valid()
                    &&& old(self).at(c) == FieldState::Empty
                    &&& #[trigger] old(self).updated(*final(self), c, FieldState::Maultasch)
                    &&& final(fb).px(c.x as int, c.y as int) == MAULTASCH_BRIGHTNESS
                    &&& final(fb).same_except(*old(fb), c.x as int, c.y as int)
                },
            (exists|n: nat| old(self).first_empty(old(rng).lfsr, n)) ==> ({
                let p = attempt_pos(old(rng).lfsr, choose|n: nat| old(self).first_empty(old(rng).lfsr, n));
                &&& final(fb).px(p.x as int, p.y as int) == MAULTASCH_BRIGHTNESS
                &&& final(fb).same_except(*old(fb), p.x as int, p.y as int)
            }),
    {
        reveal(Field::maultasch_placed);
        let ghost s = rng.lfsr;
        let spare = match self.find_empty() {
            None => {
                return false;
            },
            Some(c) => c,
        };
        let mut attempts: u64 = 0;
        while attempts < MAULTASCH_ATTEMPTS
            invariant
                *self == *old(self),
                *fb == *old(fb),
                s == old(rng).lfsr,
                self.first_empty_cell(spare),
                attempts <= MAULTASCH_ATTEMPTS,
                rng.lfsr == state_after(s, 2 * attempts as nat),
                forall|m: nat| m < attempts ==> self.at(#[trigger] attempt_pos(s, m)) != FieldState::Empty,
            decreases MAULTASCH_ATTEMPTS - attempts,
        {
            let pos = FbCoordinate::random(rng);
            proof {
                lemma_state_after_add(s, 2 * attempts as nat, 2);
                lemma_byte_shift(s, 2 * attempts as nat, 0);
                lemma_byte_shift(s, 2 * attempts as nat, 1);
                assert(pos == attempt_pos(s, attempts as nat));
            }
            if self.get(pos) == FieldState::Empty {
                proof {
                    assert(self.first_empty(s, attempts as nat));
                    let n = choose|n: nat| self.first_empty(s, n);
                    if n < attempts {
                    } else if n > attempts {
                        assert(self.at(attempt_pos(s, attempts as nat)) != FieldState::Empty);
                    }
                    assert(n == attempts);
                    reveal(Field::maultasch_placed);
                }
                self.set(pos, FieldState::Maultasch, fb);
                return true;
            }
            attempts = attempts + 1;
        }
        proof {
            assert forall|n: nat| !self.first_empty(s, n) by {
                lemma_pair_states_repeat(s, n);
                let m = choose|m: nat| m < 0x1_0000_0000 && #[trigger] state_after(s, 2 * m) == state_after(s, 2 * n);
                lemma_attempt_follows_state(s, m, n);
                assert(self.at(attempt_pos(s, m)) != FieldState::Empty);
            }
            assert(self.cell(spare.x as int, spare.y as int) == FieldState::Empty);
            let c = choose|c: FbCoordinate| self.first_empty_cell(c);
            lemma_first_empty_cell_unique(*self, c, spare);
        }
        let ghost f0 = *self;
        self.set(spare, FieldState::Maultasch, fb);
        proof {
            assert(!exists|n: nat| f0.first_empty(s, n));
            assert(f0.updated(*self, spare, FieldState::Maultasch));
            assert(rng.lfsr == state_after(s, 2 * MAULTASCH_ATTEMPTS as nat));
        }
        true
    }
}

/// Pairs of draws that start from the same register state give the same
/// place.
proof fn lemma_attempt_follows_state(s: u32, m: nat, n: nat)
    requires
        state_after(s, 2 * m) == state_after(s, 2 * n),
    ensures
        attempt_pos(s, m) == attempt_pos(s, n),
{
    assert(state_after(s, 2 * m + 1) == next_state(state_after(s, 2 * m)));
    assert(state_after(s, 2 * n + 1) == next_state(state_after(s, 2 * n)));
}

/// There is only one first empty cell.
proof fn lemma_first_empty_cell_unique(f: Field, a: FbCoordinate, b: FbCoordinate)
    requires
        f.first_empty_cell(a),
        f.first_empty_cell(b),
    ensures
        a == b,
{
    assert(f.cell(a.x as int, a.y as int) == FieldState::Empty);
    assert(f.cell(b.x as int, b.y as int) == FieldState::Empty);
}

/// Byte `i` after `a` bytes were drawn is byte `a + i` of the start.
proof fn lemma_byte_shift(s: u32, a: nat, i: nat)
    ensures
        byte_at(state_after(s, a), i) == byte_at(s, a + i),
{
    lemma_state_after_add(s, a, i);
}

/// A Maultasch only ever takes an empty cell.
proof fn lemma_placed_keeps(f: Field, f2: Field, s: u32, s2: u32)
    requires
        f.maultasch_placed(f2, s, s2),
    ensures
        forall|x: int, y: int|
            0 <= x < FB_WIDTH && 0 <= y < FB_HEIGHT && f.cell(x, y) != FieldState::Empty ==> #[trigger] f2.cell(x, y)
                == f.cell(x, y),
        forall|x: int, y: int|
            0 <= x < FB_WIDTH && 0 <= y < FB_HEIGHT ==> #[trigger] f2.cell(x, y) == f.cell(x, y) || f2.cell(x, y)
                == FieldState::Maultasch,
{
    reveal(Field::maultasch_placed);
    if exists|n: nat| f.first_empty(s, n) {
        let n = choose|n: nat| f.first_empty(s, n);
        assert(f.at(attempt_pos(s, n)) == FieldState::Empty);
    } else if exists|c: FbCoordinate| f.first_empty_cell(c) {
        let c = choose|c: FbCoordinate| f.first_empty_cell(c);
        assert(f.at(c) == FieldState::Empty);
    }
}

/// A snake grows by a head stepping from its last cell in direction `d`
/// onto a free cell: the last cell becomes body pointing there, and cells
/// other than free ones and the new head stay as they were.
proof fn lemma_extend_body(f0: Field, body: Seq<FbCoordinate>, f1: Field, f3: Field, d: Direction, h: FbCoordinate)
    requires
        body_ok(f0, body),
        f0.updated(f1, body.last(), FieldState::Snake(d)),
        h == body.last().spec_go(d),
        h.valid(),
        f1.at(h) == FieldState::Empty || f1.at(h) == FieldState::Maultasch,
        forall|x: int, y: int|
            0 <= x < FB_WIDTH && 0 <= y < FB_HEIGHT && f1.cell(x, y) != FieldState::Empty && !(x == h.x && y
                == h.y) ==> #[trigger] f3.cell(x, y) == f1.cell(x, y),
        f3.at(h) == FieldState::SnakeHead,
    ensures
        body_ok(f3, body.push(h)),
{
    let b2 = body.push(h);
    let n = body.len() - 1;
    assert forall|i: int| 0 <= i < body.len() implies #[trigger] f1.at(body[i]) is Snake by {
        if i < n {
            assert(body[i] != body[n]);
            assert(f0.at(body[i]) is Snake);
        }
    }
    assert forall|i: int| 0 <= i < body.len() implies body[i] != h by {
        assert(f1.at(body[i]) is Snake);
    }
    assert forall|i: int| 0 <= i < body.len() implies #[trigger] f3.at(body[i]) == f1.at(body[i]) by {
        assert(f1.at(body[i]) is Snake);
        assert(body[i] != h);
        assert(body[i].valid());
    }
    assert forall|i: int| 0 <= i < b2.len() - 1 implies f3.at(#[trigger] b2[i]) is Snake && b2[i].spec_go(
        f3.at(b2[i])->Snake_0,
    ) == b2[i + 1] by {
        assert(b2[i] == body[i]);
        assert(f3.at(body[i]) == f1.at(body[i]));
        if i < n {
            assert(body[i] != body[n]);
            assert(f1.at(body[i]) == f0.at(body[i]));
        }
    }
    assert forall|i: int, j: int| 0 <= i < j < b2.len() implies #[trigger] b2[i] != #[trigger] b2[j] by {
        if j < body.len() {
            assert(body[i] != body[j]);
        }
    }
    assert forall|i: int| 0 <= i < b2.len() implies (#[trigger] b2[i]).valid() by {
        if i < body.len() {
            assert(body[i].valid());
        }
    }
}

/// How a game ended: won by filling the matrix, or lost, with the score.
#[derive(Debug, PartialEq, Eq, Clone, Copy, Structural)]
pub struct GameResult {
    pub has_won: bool,
    pub score: u32,
}

/// Whether `body`, listed from the tail to the head, is a snake on
/// `field`: cells on the matrix, all different, each body cell pointing
/// to the next, and the last a head (or the single starting cell).
pub open spec fn body_ok(field: Field, body: Seq<FbCoordinate>) -> bool {
    &&& body.len() >= 1
    &&& forall|i: int| 0 <= i < body.len() ==> (#[trigger] body[i]).valid()
    &&& forall|i: int|
        0 <= i < body.len() - 1 ==> field.at(#[trigger] body[i]) is Snake && body[i].spec_go(
            field.at(body[i])->Snake_0,
        ) == body[i + 1]
    &&& field.at(body.last()) is Snake || field.at(body.last()) is SnakeHead
    &&& forall|i: int, j: int| 0 <= i < j < body.len() ==> #[trigger] body[i] != #[trigger] body[j]
}

/// A game of snake.
#[derive(Debug, Clone, Copy)]
pub struct Game {
    pub field: Field,
    pub dir: Direction,
    pub dir_change: i32,
    pub length: u8,
    pub length_increase: u8,
    pub score: u32,
    pub multiplier: u32,
    pub head: FbCoordinate,
    pub tail: FbCoordinate,
}

impl Game {
    /// Whether `body` is this game's snake from tail to head.
    pub open spec fn is_body(self, body: Seq<FbCoordinate>, len: int) -> bool {
        &&& body.len() == len
        &&& body_ok(self.field, body)
        &&& body[0] == self.tail
        &&& body.last() == self.head
    }

    /// Whether the game can go on: the snake, as long as `length`, lies on
    /// the field, the pending growth, speed multiplier and score are in
    /// their bounds.
    pub open spec fn wf(self) -> bool {
        &&& 1 <= self.length < CELLS
        &&& self.length_increase == 0 ==> self.length >= 2
        &&& self.length_increase <= self.length + 1
        &&& 1 <= self.multiplier <= MULTIPLIER_MAX
        &&& self.score <= MULTIPLIER_MAX * (self.length + self.length_increase)
        &&& exists|body: Seq<FbCoordinate>| #[trigger] self.is_body(body, self.length as int)
    }

    /// The state between moving the tail and moving the head: the snake is
    /// one cell shorter than `length`.
    pub open spec fn halfway(self) -> bool {
        &&& 2 <= self.length <= CELLS
        &&& self.length_increase + 1 <= self.length
        &&& 1 <= self.multiplier <= MULTIPLIER_MAX
        &&& self.score <= MULTIPLIER_MAX * (self.length + self.length_increase)
        &&& exists|body: Seq<FbCoordinate>| #[trigger] self.is_body(body, self.length - 1)
    }

    /// The start cell of the snake: left edge, middle row.
    pub open spec fn start_cell() -> FbCoordinate {
        FbCoordinate { x: 0, y: 4 }
    }

    /// Whether this is a game just started with register state `s`,
    /// leaving state `s2`: a one-cell snake heading right at the start
    /// cell, to grow by one, and a Maultasch placed.
    pub open spec fn is_new(self, s: u32, s2: u32) -> bool {
        &&& self.dir == Direction::Right
        &&& self.dir_change == 0
        &&& self.length == 1
        &&& self.length_increase == 1
        &&& self.score == 0
        &&& self.multiplier == 1
        &&& self.head == Game::start_cell()
        &&& self.tail == Game::start_cell()
        &&& exists|f1: Field|
            #[trigger] f1.maultasch_placed(self.field, s, s2) && f1.cell(0, 4) == FieldState::Snake(Direction::Right)
                && forall|x: int, y: int|
                0 <= x < FB_WIDTH && 0 <= y < FB_HEIGHT && !(x == 0 && y == 4) ==> #[trigger] f1.cell(x, y)
                    == FieldState::Empty
    }

    /// A new game drawing from `rng`, shown on a cleared framebuffer.
    pub fn new(fb: &mut Framebuffer, rng: &mut WhiteNoiseGenerator) -> (g: Game)
        ensures
            g.is_new(old(rng).lfsr, final(rng).lfsr),
            g.wf(),
            g.field.shown(*final(fb)),
    {
        let start = FbCoordinate { x: 0, y: 4 };
        let mut g = Game {
            field: Field::new(fb),
            dir: Direction::Right,
            dir_change: 0,
            length: 1,
            length_increase: 1,
            score: 0,
            multiplier: 1,
            head: start,
            tail: start,
        };
        let ghost f0 = g.field;
        g.field.set(g.head, FieldState::Snake(g.dir), fb);
        let ghost f1 = g.field;
        let ghost s = rng.lfsr;
        g.field.gen_maultasch(rng, fb);
        proof {
            lemma_placed_keeps(f1, g.field, s, rng.lfsr);
            assert(f1.cell(0, 4) == FieldState::Snake(Direction::Right));
            assert(g.field.cell(0, 4) == FieldState::Snake(Direction::Right));
            let body = seq![start];
            assert(g.is_body(body, 1));
        }
        g
    }

    /// Asks for a quarter turn clockwise at the next step.
    pub fn turn_cw(&mut self)
        requires
            old(self).dir_change < i32::MAX,
        ensures
            *final(self) == (Game { dir_change: (old(self).dir_change + 1) as i32, ..*old(self) }),
    {
        self.dir_change = self.dir_change + 1;
    }

    /// Asks for a quarter turn counter-clockwise at the next step.
    pub fn turn_ccw(&mut self)
        requires
            old(self).dir_change > i32::MIN,
        ensures
            *final(self) == (Game { dir_change: (old(self).dir_change - 1) as i32, ..*old(self) }),
    {
        self.dir_change = self.dir_change - 1;
    }

    /// Whether `next` follows from moving the tail: pending growth keeps
    /// the tail and counts the snake one longer; otherwise the tail cell is
    /// cleared and the tail follows its direction.
    pub open spec fn retreated(self, next: Game) -> bool {
        if self.length_increase > 0 {
            next == Game {
                length_increase: (self.length_increase - 1) as u8,
                length: (self.length + 1) as u8,
                ..self
            }
        } else {
            &&& self.field.updated(next.field, self.tail, FieldState::Empty)
            &&& next == Game {
                field: next.field,
                tail: self.tail.spec_go(self.field.at(self.tail)->Snake_0),
                ..self
            }
        }
    }

    /// Moves the tail; returns whether the snake now fills the matrix.
    fn retreat_tail(&mut self, fb: &mut Framebuffer) -> (won: bool)
        requires
            old(self).wf(),
        ensures
            old(self).retreated(*final(self)),
            won == (final(self).length >= CELLS),
            final(self).halfway(),
            old(self).field.shown(*old(fb)) ==> final(self).field.shown(*final(fb)),
    {
        let ghost g0 = *self;
        let ghost body = choose|body: Seq<FbCoordinate>| g0.is_body(body, g0.length as int);
        if self.length_increase > 0 {
            self.length_increase = self.length_increase - 1;
            self.length = self.length + 1;
            proof {
                assert(self.is_body(body, self.length - 1));
            }
        } else {
            proof {
                assert(body[0] == self.tail);
                assert(self.field.at(body[0]) is Snake);
            }
            let dir = self.field.get(self.tail).unwrap_dir();
            self.field.set(self.tail, FieldState::Empty, fb);
            self.tail = self.tail.go_dir(dir);
            proof {
                let b2 = body.drop_first();
                assert forall|i: int| 0 <= i < b2.len() implies #[trigger] self.field.at(b2[i]) == g0.field.at(b2[i]) by {
                    assert(body[i + 1] != body[0]);
                }
                assert forall|i: int| 0 <= i < b2.len() - 1 implies self.field.at(#[trigger] b2[i]) is Snake && b2[i].spec_go(
                    self.field.at(b2[i])->Snake_0,
                ) == b2[i + 1] by {
                    assert(body[i + 1] != body[0]);
                    assert(g0.field.at(body[i + 1]) is Snake);
                }
                assert(self.field.at(b2.last()) == g0.field.at(body.last()));
                assert forall|i: int, j: int| 0 <= i < j < b2.len() implies #[trigger] b2[i] != #[trigger] b2[j] by {
                    assert(body[i + 1] != body[j + 1]);
                }
                assert(self.is_body(b2, self.length - 1));
            }
        }
        self.length >= CELLS
    }

    /// The direction after the pending turn, and the turns left pending.
    pub open spec fn turned(self) -> (Direction, i32) {
        if self.dir_change > 0 {
            (self.dir.spec_cw(), (self.dir_change - 1) as i32)
        } else if self.dir_change < 0 {
            (self.dir.spec_ccw(), (self.dir_change + 1) as i32)
        } else {
            (self.dir, self.dir_change)
        }
    }

    /// The points a Maultasch scores: the multiplier once the snake is
    /// long, one before.
    pub open spec fn points(self) -> int {
        if self.length > MULTIPLIER_MIN_LENGTH {
            self.multiplier as int
        } else {
            1
        }
    }

    /// Whether `next`, the register state `s2` and `lost` follow from
    /// moving the head with register state `s`: one pending turn is taken,
    /// the head cell becomes body and the head steps on; running into the
    /// snake loses, a Maultasch scores, adds two cells of growth and a new
    /// Maultasch is placed, and the new cell becomes the head.
    pub open spec fn head_advanced(self, next: Game, s: u32, s2: u32, lost: bool) -> bool {
        let d = self.turned().0;
        let dc = self.turned().1;
        let h = self.head.spec_go(d);
        exists|f1: Field|
            #[trigger] self.field.updated(f1, self.head, FieldState::Snake(d)) && match f1.at(h) {
                FieldState::Empty => {
                    &&& !lost
                    &&& s2 == s
                    &&& f1.updated(next.field, h, FieldState::SnakeHead)
                    &&& next == Game { field: next.field, dir: d, dir_change: dc, head: h, ..self }
                },
                FieldState::Maultasch => {
                    &&& !lost
                    &&& exists|f2: Field|
                        #[trigger] f1.maultasch_placed(f2, s, s2) && f2.updated(next.field, h, FieldState::SnakeHead)
                    &&& next == Game {
                        field: next.field,
                        dir: d,
                        dir_change: dc,
                        head: h,
                        score: (self.score + self.points()) as u32,
                        length_increase: (self.length_increase + 2) as u8,
                        ..self
                    }
                },
                _ => {
                    &&& lost
                    &&& s2 == s
                    &&& next == Game { field: f1, dir: d, dir_change: dc, head: h, ..self }
                },
            }
    }

    /// Eating a Maultasch scores one point while the snake is at most
    /// `MULTIPLIER_MIN_LENGTH` long and the speed multiplier once it is
    /// longer; any other step of the head leaves the score as it is.
    pub proof fn lemma_maultasch_scores(self, next: Game, s: u32, s2: u32, lost: bool)
        requires
            self.head_advanced(next, s, s2, lost),
        ensures
            next.score == self.score || (self.length <= MULTIPLIER_MIN_LENGTH && next.score == (self.score + 1) as u32)
                || (self.length > MULTIPLIER_MIN_LENGTH && next.score == (self.score + self.multiplier) as u32),
            next.score != self.score ==> next.length_increase == (self.length_increase + 2) as u8 && !lost,
    {
        let d = self.turned().0;
        let f1 = choose|f1: Field| #[trigger] self.field.updated(f1, self.head, FieldState::Snake(d)) && match f1.at(
            self.head.spec_go(d),
        ) {
            FieldState::Empty => {
                &&& !lost
                &&& s2 == s
                &&& f1.updated(next.field, self.head.spec_go(d), FieldState::SnakeHead)
                &&& next == Game { field: next.field, dir: d, dir_change: self.turned().1, head: self.head.spec_go(d), ..self }
            },
            FieldState::Maultasch => {
                &&& !lost
                &&& exists|f2: Field|
                    #[trigger] f1.maultasch_placed(f2, s, s2) && f2.updated(next.field, self.head.spec_go(d), FieldState::SnakeHead)
                &&& next == Game {
                    field: next.field,
                    dir: d,
                    dir_change: self.turned().1,
                    head: self.head.spec_go(d),
                    score: (self.score + self.points()) as u32,
                    length_increase: (self.length_increase + 2) as u8,
                    ..self
                }
            },
            _ => {
                &&& lost
                &&& s2 == s
                &&& next == Game { field: f1, dir: d, dir_change: self.turned().1, head: self.head.spec_go(d), ..self }
            },
        };
    }

    /// Moves the head; returns whether it ran into the snake.
    #[verifier::rlimit(60)]
    #[verifier::spinoff_prover]
    fn advance_head(&mut self, rng: &mut WhiteNoiseGenerator, fb: &mut Framebuffer) -> (lost: bool)
        requires
            old(self).halfway(),
            old(self).length < CELLS,
        ensures
            old(self).head_advanced(*final(self), old(rng).lfsr, final(rng).lfsr, lost),
            !lost ==> final(self).wf(),
            old(self).field.shown(*old(fb)) ==> final(self).field.shown(*final(fb)),
    {
        let ghost g0 = *self;
        let ghost s = rng.lfsr;
        let ghost body = choose|body: Seq<FbCoordinate>| #[trigger] g0.is_body(body, g0.length - 1);
        if self.dir_change > 0 {
            self.dir_change = self.dir_change - 1;
            self.dir = self.dir.cw();
        } else if self.dir_change < 0 {
            self.dir_change = self.dir_change + 1;
            self.dir = self.dir.ccw();
        }
        proof {
            assert(body.last() == self.head);
            assert(self.head.valid());
        }
        self.field.set(self.head, FieldState::Snake(self.dir), fb);
        let ghost f1 = self.field;
        self.head = self.head.go_dir(self.dir);
        let h = self.head;
        match self.field.get(h) {
            FieldState::Empty => {},
            FieldState::Snake(_) | FieldState::SnakeHead => {
                return true;
            },
            FieldState::Maultasch => {
                let points: u32 = if self.length > MULTIPLIER_MIN_LENGTH {
                    self.multiplier
                } else {
                    1
                };
                self.score = self.score + points;
                self.length_increase = self.length_increase + 2;
                let ghost sg = rng.lfsr;
                self.field.gen_maultasch(rng, fb);
                proof {
                    lemma_placed_keeps(f1, self.field, sg, rng.lfsr);
                }
            },
        }
        let ghost f2 = self.field;
        self.field.set(h, FieldState::SnakeHead, fb);
        proof {
            lemma_extend_body(g0.field, body, f1, self.field, self.dir, h);
            assert(self.is_body(body.push(h), self.length as int));
        }
        false
    }

    /// Whether `next`, the register state `s2` and `r` follow from one
    /// step with register state `s`: the tail moves, a snake filling the
    /// matrix wins, then the head moves and running into the snake loses.
    pub open spec fn advanced(self, next: Game, s: u32, s2: u32, r: Option<GameResult>) -> bool {
        exists|g1: Game|
            #[trigger] self.retreated(g1) && if g1.length >= CELLS {
                &&& next == g1
                &&& s2 == s
                &&& r == Some(GameResult { has_won: true, score: g1.score })
            } else {
                exists|lost: bool|
                    #[trigger] g1.head_advanced(next, s, s2, lost) && r == if lost {
                        Some(GameResult { has_won: false, score: next.score })
                    } else {
                        None
                    }
            }
    }

    /// One step of the snake; returns the result when the game is over.
    pub fn advance(&mut self, rng: &mut WhiteNoiseGenerator, fb: &mut Framebuffer) -> (r: Option<GameResult>)
        requires
            old(self).wf(),
            old(self).field.shown(*old(fb)),
        ensures
            old(self).advanced(*final(self), old(rng).lfsr, final(rng).lfsr, r),
            r is None ==> final(self).wf(),
            final(self).field.shown(*final(fb)),
    {
        let ghost g0 = *self;
        let ghost s = rng.lfsr;
        if self.retreat_tail(fb) {
            assert(g0.retreated(*self));
            Some(GameResult { has_won: true, score: self.score })
        } else {
            let ghost g1 = *self;
            let lost = self.advance_head(rng, fb);
            assert(g0.retreated(g1));
            assert(g1.head_advanced(*self, s, rng.lfsr, lost));
            if lost {
                Some(GameResult { has_won: false, score: self.score })
            } else {
                None
            }
        }
    }
}

/// Shortest step period, in ticks: one frame of the matrix.
pub const FRAME_TICKS: u32 = 18;

/// The snake app's phase: playing (with the step clock and whether it is
/// paused) or showing the score.
#[derive(Debug, Clone, Copy)]
pub enum TaskState {
    Game(Game, Ticker, bool),
    Score(ShowScoreTask),
}

/// The snake app: Start pauses and resumes, Select doubles the speed (and
/// the multiplier) or, while paused, gives up; L and R turn.
#[derive(Debug, Clone, Copy)]
pub struct Task(pub TaskState);

impl Task {
    /// Whether the app can take a poll: a game that can go on, with a
    /// period of at least one frame whose product with the multiplier
    /// stays within the initial period.
    pub open spec fn ready(self) -> bool {
        match self.0 {
            TaskState::Game(g, clock, _) => {
                &&& g.wf()
                &&& FRAME_TICKS <= clock.duration.ticks
                &&& g.multiplier * clock.duration.ticks <= INITIAL_TICKS
            },
            TaskState::Score(_) => true,
        }
    }

    /// Whether `fb` shows the app's field while playing.
    pub open spec fn shown(self, fb: Framebuffer) -> bool {
        match self.0 {
            TaskState::Game(g, _, _) => g.field.shown(fb),
            TaskState::Score(_) => true,
        }
    }

    /// Whether `t` is a game started at `now` with register state `s`,
    /// leaving state `s2`: unpaused, with a step every 250 ms.
    pub open spec fn started(t: Task, now: Instant, s: u32, s2: u32) -> bool {
        t.0 matches TaskState::Game(g, clock, paused) && g.is_new(s, s2) && clock == Ticker::spec_every(
            now,
            INITIAL_TICKS,
        ) && !paused
    }

    /// A new game at `now`, drawing from `rng`, with a step every 250 ms.
    pub fn new(now: Instant, fb: &mut Framebuffer, rng: &mut WhiteNoiseGenerator) -> (t: Task)
        ensures
            Task::started(t, now, old(rng).lfsr, final(rng).lfsr),
            t.ready(),
            t.shown(*final(fb)),
    {
        let clock = Ticker::every(now, Duration::from_millis(INITIAL_MILLIS));
        let g = Game::new(fb, rng);
        Task(TaskState::Game(g, clock, false))
    }

    /// Whether the outputs follow from one poll at `now` with register
    /// state `s` and score store `f`: a pending event is handled first;
    /// otherwise, when the step is due, the clock moves on and an unpaused
    /// snake steps. A game that ends starts the score display, which is
    /// polled afterwards; the result tells whether it has ended.
    pub open spec fn polled(
        self,
        next: Task,
        now: Instant,
        b: Buttons,
        b2: Buttons,
        fb: Framebuffer,
        fb2: Framebuffer,
        s: u32,
        s2: u32,
        f: ScoreFlasher,
        f2: ScoreFlasher,
        ret: bool,
    ) -> bool {
        match self.0 {
            TaskState::Game(g, clock, paused) => {
                let ev = decode_event(b.signal);
                &&& b2.signal == 0
                &&& b2.state == b.state
                &&& !ret
                &&& if ev is Some {
                    let e = ev.unwrap();
                    &&& s2 == s
                    &&& if !e.pressed {
                        next == self && fb2 == fb && f2 == f
                    } else if e.button == Button::Start {
                        &&& next.0 == TaskState::Game(
                            g,
                            Ticker { expires_at: Instant { ticks: wrap_i32(now.ticks + clock.duration.ticks) as i32 }, ..clock },
                            !paused,
                        )
                        &&& fb2 == fb
                        &&& f2 == f
                    } else if e.button == Button::Select {
                        if paused {
                            &&& next.0 matches TaskState::Score(st) && ShowScoreTask::is_new(st, now, false, g.score, f.high_score_of(1))
                            &&& f2.recorded(f, 1, g.score, f.high_score_of(1))
                            &&& fb2 == fb
                        } else {
                            let nt = clock.duration.ticks / 2;
                            &&& fb2 == fb
                            &&& f2 == f
                            &&& next.0 == if nt >= FRAME_TICKS {
                                TaskState::Game(
                                    Game { multiplier: (2 * g.multiplier) as u32, ..g },
                                    Ticker { duration: Duration { ticks: nt as u32 }, ..clock },
                                    paused,
                                )
                            } else {
                                self.0
                            }
                        }
                    } else {
                        let ccw = e.button == Button::L;
                        let turns = !paused && if ccw { g.dir_change > i32::MIN } else { g.dir_change < i32::MAX };
                        &&& fb2 == fb
                        &&& f2 == f
                        &&& next.0 == TaskState::Game(
                            if turns {
                                Game { dir_change: (if ccw { g.dir_change - 1 } else { g.dir_change + 1 }) as i32, ..g }
                            } else {
                                g
                            },
                            clock,
                            paused,
                        )
                    }
                } else if clock.expires_at.spec_le(now) {
                    let clock2 = clock.spec_consumed();
                    if paused {
                        next.0 == TaskState::Game(g, clock2, paused) && fb2 == fb && f2 == f && s2 == s
                    } else {
                        exists|g2: Game, r: Option<GameResult>|
                            #[trigger] g.advanced(g2, s, s2, r) && g2.field.shown(fb2) && match r {
                                None => next.0 == TaskState::Game(g2, clock2, paused) && f2 == f,
                                Some(res) => {
                                    &&& next.0 matches TaskState::Score(st) && ShowScoreTask::is_new(
                                        st,
                                        now,
                                        res.has_won,
                                        res.score,
                                        f.high_score_of(1),
                                    )
                                    &&& f2.recorded(f, 1, res.score, f.high_score_of(1))
                                },
                            }
                    }
                } else {
                    next == self && fb2 == fb && f2 == f && s2 == s
                }
            },
            TaskState::Score(st) => {
                &&& next.0 matches TaskState::Score(st2) && st.polled(st2, now, b, b2, fb, fb2, f, ret)
                &&& s2 == s
                &&& f2 == f
            },
        }
    }

    /// One poll of the snake app at `now`; returns whether it has ended.
    pub fn poll(
        &mut self,
        now: Instant,
        buttons: &mut Buttons,
        fb: &mut Framebuffer,
        rng: &mut WhiteNoiseGenerator,
        flasher: &mut ScoreFlasher,
    ) -> (ret: bool)
        requires
            old(self).ready(),
            old(self).shown(*old(fb)),
        ensures
            old(self).polled(
                *final(self),
                now,
                *old(buttons),
                *final(buttons),
                *old(fb),
                *final(fb),
                old(rng).lfsr,
                final(rng).lfsr,
                *old(flasher),
                *final(flasher),
                ret,
            ),
            final(self).ready(),
            final(self).shown(*final(fb)),
    {
        match self.0 {
            TaskState::Game(game, clock, paused) => {
                let mut g = game;
                let mut clock = clock;
                let mut paused = paused;
                let ghost s0 = rng.lfsr;
                let ghost f0 = *flasher;
                if let Some(ev) = buttons.event() {
                    if ev.pressed {
                        match ev.button {
                            Button::Start => {
                                clock.reset(now);
                                paused = !paused;
                            },
                            Button::Select => {
                                if paused {
                                    let st = ShowScoreTask::new(now, GameSelection::Snake, false, g.score, flasher);
                                    self.0 = TaskState::Score(st);
                                    return false;
                                } else {
                                    let new_ticks: u32 = clock.duration().as_ticks() / 2;
                                    if new_ticks >= frame_ticks() {
                                        let m: u32 = g.multiplier;
                                        let d: u32 = clock.duration.ticks;
                                        assert(2 * m * (d / 2) <= m * d) by (nonlinear_arith)
                                            requires
                                                d >= 0,
                                                m >= 0,
                                        ;
                                        assert(2 * m <= MULTIPLIER_MAX) by (nonlinear_arith)
                                            requires
                                                2 * m * (d / 2) <= 2500,
                                                d / 2 >= 18,
                                        ;
                                        assert(m << 1u32 == 2 * m) by (bit_vector)
                                            requires
                                                m <= 69,
                                        ;
                                        g.multiplier = g.multiplier << 1u32;
                                        proof {
                                            assert(g.wf()) by {
                                                assert(exists|body: Seq<FbCoordinate>| #[trigger] game.is_body(body, game.length as int));
                                                let body = choose|body: Seq<FbCoordinate>| #[trigger] game.is_body(body, game.length as int);
                                                assert(g.is_body(body, g.length as int));
                                            }
                                        }
                                        clock.set_duration(Duration::from_ticks(new_ticks));
                                    }
                                }
                            },
                            Button::L => {
                                if !paused && g.dir_change > i32::MIN {
                                    g.turn_ccw();
                                    proof {
                                        let body = choose|body: Seq<FbCoordinate>| #[trigger] game.is_body(body, game.length as int);
                                        assert(g.is_body(body, g.length as int));
                                    }
                                }
                            },
                            Button::R => {
                                if !paused && g.dir_change < i32::MAX {
                                    g.turn_cw();
                                    proof {
                                        let body = choose|body: Seq<FbCoordinate>| #[trigger] game.is_body(body, game.length as int);
                                        assert(g.is_body(body, g.length as int));
                                    }
                                }
                            },
                        }
                    }
                } else if clock.consume_expired(now) {
                    if !paused {
                        let res = g.advance(rng, fb);
                        assert(game.advanced(g, s0, rng.lfsr, res));
                        match res {
                            Some(r) => {
                                let st = ShowScoreTask::new(now, GameSelection::Snake, r.has_won, r.score, flasher);
                                self.0 = TaskState::Score(st);
                                assert(ShowScoreTask::is_new(st, now, r.has_won, r.score, f0.high_score_of(1)));
                                return false;
                            },
                            None => {},
                        }
                    }
                }
                self.0 = TaskState::Game(g, clock, paused);
                false
            },
            TaskState::Score(st) => {
                let mut st = st;
                let ret = st.poll(now, buttons, fb, flasher);
                self.0 = TaskState::Score(st);
                ret
            },
        }
    }
}

/// The shortest step period in ticks: one frame of the matrix.
fn frame_ticks() -> (t: u32)
    ensures
        t == FRAME_TICKS,
{
    frame_duration().as_ticks()
}

} // verus!
