//! Four in a row for two players on a 7 x 6 board: a disc is chosen at the
//! top row, dropped into a column, and four equal discs in a line win.
use vstd::prelude::*;
use crate::drivers::buttons::{Button, Buttons, Event, decode_event};
use crate::drivers::matrix::{Framebuffer, WIDTH as FB_WIDTH, HEIGHT as FB_HEIGHT};
use crate::time::{Duration, Instant, Ticker, wrap_i32};

verus! {

/// Disc brightness of the first player.
pub const P1_BRIGHTNESS: u8 = 100;

/// Disc brightness of the second player.
pub const P2_BRIGHTNESS: u8 = 33;

/// Brightest level of the pulsing board frame.
pub const LIMIT_MAX_BRIGHTNESS: u8 = 100;

/// Brightness of winning discs while they flash.
pub const WIN_BRIGHTNESS: u8 = 150;

/// Board width.
pub const WIDTH: u8 = 7;

/// Board height.
pub const HEIGHT: u8 = 6;

/// Rows between the selection row and the board.
pub const SELECTED_DELTA: u8 = 2;

/// Column where the disc of a new turn is offered.
pub const SPAWN_X: u8 = 3;

/// Framebuffer row of the top board row.
pub const BASE_Y: usize = 2;

/// Framebuffer row of the disc being chosen.
pub const SELECTED_Y: usize = 0;

/// Delay before the first fall step of a dropped disc, in ticks.
pub const DROP_START_TICKS: u32 = 616;

/// Durations of the fall steps of a dropped disc (an accelerated fall), in
/// ticks.
pub const DROP_DURATIONS: [u8; 7] = [255, 196, 165, 145, 131, 121, 112];

/// The pulsing frame around the board.
#[derive(Debug, Clone, Copy)]
pub struct LimitAnimation {
    pub ticker: Ticker,
    pub inc: bool,
}

/// Whether framebuffer cell `(x, y)` belongs to the board frame: the column
/// right of the board and the row below it.
pub open spec fn in_frame(x: int, y: int) -> bool {
    (x == WIDTH && BASE_Y <= y < BASE_Y + HEIGHT) || (y == BASE_Y + HEIGHT && 0 <= x <= WIDTH)
}

impl LimitAnimation {
    /// The start state at `now`.
    pub open spec fn spec_new(now: Instant) -> LimitAnimation {
        LimitAnimation { ticker: Ticker::spec_every(now, 200), inc: false }
    }

    /// Starts the frame at `now`; it changes every 20 ms.
    pub fn new(now: Instant) -> (a: LimitAnimation)
        ensures
            a == LimitAnimation::spec_new(now),
    {
        LimitAnimation { ticker: Ticker::every(now, Duration::from_millis(20)), inc: false }
    }

    /// The frame after one step from frame brightness `b`: it rises from
    /// zero up to the maximum and falls back.
    pub open spec fn stepped(self, b: u8) -> (bool, u8) {
        let inc = if b == 0 { true } else if b >= LIMIT_MAX_BRIGHTNESS { false } else { self.inc };
        (inc, (if inc { b + 1 } else { b - 1 }) as u8)
    }

    /// Whether `next` and `fb2` follow from one poll at `now`.
    pub open spec fn polled(self, next: LimitAnimation, now: Instant, fb: Framebuffer, fb2: Framebuffer) -> bool {
        if self.ticker.expires_at.spec_le(now) {
            let (inc, b) = self.stepped(fb.px(WIDTH as int, BASE_Y as int));
            &&& next == LimitAnimation { ticker: self.ticker.spec_consumed(), inc }
            &&& forall|x: int, y: int|
                0 <= x < FB_WIDTH && 0 <= y < FB_HEIGHT ==> #[trigger] fb2.px(x, y) == if in_frame(x, y) {
                    b
                } else {
                    fb.px(x, y)
                }
        } else {
            next == self && fb2 == fb
        }
    }

    /// One poll of the frame at `now`.
    pub fn poll(&mut self, now: Instant, fb: &mut Framebuffer)
        ensures
            old(self).polled(*final(self), now, *old(fb), *final(fb)),
    {
        if self.ticker.consume_expired(now) {
            let mut brightness: u8 = fb.load(WIDTH as usize, BASE_Y);
            if brightness == 0 {
                self.inc = true;
            } else if brightness >= LIMIT_MAX_BRIGHTNESS {
                self.inc = false;
            }
            if self.inc {
                brightness = brightness + 1;
            } else {
                brightness = brightness - 1;
            }
            let ghost fb0 = *fb;
            let mut y: usize = BASE_Y;
            while y < BASE_Y + HEIGHT as usize
                invariant
                    BASE_Y <= y <= BASE_Y + HEIGHT,
                    forall|a: int, b: int|
                        0 <= a < FB_WIDTH && 0 <= b < FB_HEIGHT ==> #[trigger] fb.px(a, b) == if a == WIDTH && BASE_Y <= b < y {
                            brightness
                        } else {
                            fb0.px(a, b)
                        },
                decreases BASE_Y + HEIGHT - y,
            {
                fb.store(WIDTH as usize, y, brightness);
                y = y + 1;
            }
            let mut x: usize = 0;
            while x < WIDTH as usize + 1
                invariant
                    x <= WIDTH + 1,
                    forall|a: int, b: int|
                        0 <= a < FB_WIDTH && 0 <= b < FB_HEIGHT ==> #[trigger] fb.px(a, b) == if (a == WIDTH && BASE_Y <= b
                            < BASE_Y + HEIGHT) || (b == BASE_Y + HEIGHT && 0 <= a < x) {
                            brightness
                        } else {
                            fb0.px(a, b)
                        },
                decreases WIDTH + 1 - x,
            {
                fb.store(x, BASE_Y + HEIGHT as usize, brightness);
                x = x + 1;
            }
        }
    }
}

/// The flashing of the four winning discs.
#[derive(Debug, Clone, Copy)]
pub struct WinAnimation {
    pub ticker: Ticker,
    pub x: u8,
    pub y: u8,
    pub dx: i8,
    pub dy: i8,
    pub original_brightness: u8,
}

impl WinAnimation {
    /// Framebuffer column of winning disc `i`, counting back from the last.
    pub open spec fn cell_x(self, i: int) -> int {
        self.x - i * self.dx
    }

    /// Framebuffer row of winning disc `i`, counting back from the last.
    pub open spec fn cell_y(self, i: int) -> int {
        self.y - i * self.dy
    }

    /// Whether the four discs lie on the framebuffer.
    pub open spec fn valid(self) -> bool {
        &&& -1 <= self.dx <= 1 && 0 <= self.dy <= 1
        &&& forall|i: int| 0 <= i < 4 ==> 0 <= #[trigger] self.cell_x(i) < FB_WIDTH && 0 <= self.cell_y(i) < FB_HEIGHT
    }

    /// The animation of the four discs ending at `(x, y)` in direction
    /// `(dx, dy)`, started at `now`.
    pub open spec fn spec_new(now: Instant, x: u8, y: u8, dx: i8, dy: i8, original_brightness: u8) -> WinAnimation {
        WinAnimation { ticker: Ticker::spec_every(now, 5000), x, y, dx, dy, original_brightness }
    }

    /// Starts flashing the four discs at `now`, every 500 ms.
    pub fn new(now: Instant, x: u8, y: u8, dx: i8, dy: i8, original_brightness: u8) -> (a: WinAnimation)
        ensures
            a == WinAnimation::spec_new(now, x, y, dx, dy, original_brightness),
    {
        WinAnimation { ticker: Ticker::every(now, Duration::from_millis(500)), x, y, dx, dy, original_brightness }
    }

    /// Whether `next` and `fb2` follow from one poll at `now`: each period
    /// the four discs switch between the win brightness and the player's.
    pub open spec fn polled(self, next: WinAnimation, now: Instant, fb: Framebuffer, fb2: Framebuffer) -> bool {
        if self.ticker.expires_at.spec_le(now) {
            let b = if fb.px(self.x as int, self.y as int) == self.original_brightness {
                WIN_BRIGHTNESS
            } else {
                self.original_brightness
            };
            &&& next == WinAnimation { ticker: self.ticker.spec_consumed(), ..self }
            &&& forall|x: int, y: int|
                0 <= x < FB_WIDTH && 0 <= y < FB_HEIGHT ==> #[trigger] fb2.px(x, y) == if exists|i: int|
                    0 <= i < 4 && #[trigger] self.cell_x(i) == x && self.cell_y(i) == y {
                    b
                } else {
                    fb.px(x, y)
                }
        } else {
            next == self && fb2 == fb
        }
    }

    /// One poll of the flashing at `now`.
    pub fn poll(&mut self, now: Instant, fb: &mut Framebuffer)
        requires
            old(self).valid(),
        ensures
            old(self).polled(*final(self), now, *old(fb), *final(fb)),
            final(self).valid(),
    {
        let ghost s0 = *self;
        if self.ticker.consume_expired(now) {
            assert(self.cell_x(0) == s0.cell_x(0) && self.cell_y(0) == s0.cell_y(0));
            assert(forall|i: int| #[trigger] self.cell_x(i) == s0.cell_x(i) && self.cell_y(i) == s0.cell_y(i));
            assert(self.valid());
            let brightness: u8 = if fb.load(self.x as usize, self.y as usize) == self.original_brightness {
                WIN_BRIGHTNESS
            } else {
                self.original_brightness
            };
            let ghost fb0 = *fb;
            let mut i: i8 = 0;
            while i < 4
                invariant
                    0 <= i <= 4,
                    self.valid(),
                    s0.valid(),
                    self.x == s0.x && self.y == s0.y && self.dx == s0.dx && self.dy == s0.dy,
                    forall|a: int, b: int|
                        0 <= a < FB_WIDTH && 0 <= b < FB_HEIGHT ==> #[trigger] fb.px(a, b) == if exists|j: int|
                            0 <= j < i && #[trigger] s0.cell_x(j) == a && s0.cell_y(j) == b {
                            brightness
                        } else {
                            fb0.px(a, b)
                        },
                decreases 4 - i,
            {
                assert(0 <= self.cell_x(i as int) < FB_WIDTH && 0 <= self.cell_y(i as int) < FB_HEIGHT);
                let (dx, dy) = (self.dx, self.dy);
                assert(-4 <= i * dx <= 4 && -4 <= i * dy <= 4) by (nonlinear_arith)
                    requires
                        0 <= i < 4,
                        -1 <= dx <= 1,
                        -1 <= dy <= 1,
                ;
                let cx: i16 = self.x as i16 - (i as i16) * (dx as i16);
                let cy: i16 = self.y as i16 - (i as i16) * (dy as i16);
                fb.store(cx as usize, cy as usize, brightness);
                proof {
                    assert forall|a: int, b: int| 0 <= a < FB_WIDTH && 0 <= b < FB_HEIGHT implies #[trigger] fb.px(a, b)
                        == if exists|j: int| 0 <= j < i + 1 && #[trigger] s0.cell_x(j) == a && s0.cell_y(j) == b {
                        brightness
                    } else {
                        fb0.px(a, b)
                    } by {
                        if a == cx && b == cy {
                            assert(s0.cell_x(i as int) == a && s0.cell_y(i as int) == b);
                        } else if exists|j: int| 0 <= j < i + 1 && #[trigger] s0.cell_x(j) == a && s0.cell_y(j) == b {
                            let j = choose|j: int| 0 <= j < i + 1 && #[trigger] s0.cell_x(j) == a && s0.cell_y(j) == b;
                            assert(j != i);
                        }
                    }
                }
                i = i + 1;
            }
        }
    }
}

/// How a finished game ended.
#[derive(Debug, Clone, Copy)]
pub enum GameResult {
    Won(WinAnimation),
    Remis,
}

/// The fall of a dropped disc: when the next step is due and how many
/// rows the disc has fallen.
#[derive(Debug, Clone, Copy)]
pub struct DropAnimation {
    pub next_instant: Instant,
    pub delta_y: u8,
}

impl DropAnimation {
    /// The fall of a disc dropped at `now`.
    pub open spec fn spec_new(now: Instant) -> DropAnimation {
        DropAnimation { next_instant: Instant { ticks: wrap_i32(now.ticks + DROP_START_TICKS) as i32 }, delta_y: 0 }
    }

    /// Starts the fall at `now`.
    pub fn new(now: Instant) -> (a: DropAnimation)
        ensures
            a == DropAnimation::spec_new(now),
    {
        DropAnimation { next_instant: now.add_duration(Duration::from_ticks(DROP_START_TICKS)), delta_y: 0 }
    }

    /// Whether `next`, `fb2` and `done` follow from one poll at `now` for
    /// the disc falling in the selected column of `game`: when a step is
    /// due the disc moves one row down; the fall is done when it reaches
    /// the column's top, otherwise the next step is due after the next
    /// duration.
    pub open spec fn polled(
        self,
        game: Game,
        next: DropAnimation,
        now: Instant,
        fb: Framebuffer,
        fb2: Framebuffer,
        done: bool,
    ) -> bool {
        if self.next_instant.spec_le(now) {
            let d = self.delta_y + 1;
            let x = game.selected as int;
            &&& done == (d >= game.top(x) + SELECTED_DELTA)
            &&& next.delta_y == d
            &&& next.next_instant == if done {
                self.next_instant
            } else {
                Instant { ticks: wrap_i32(self.next_instant.ticks + DROP_DURATIONS@[d]) as i32 }
            }
            &&& moved(fb, fb2, x, SELECTED_Y + self.delta_y, x, SELECTED_Y + d, game.spec_brightness())
        } else {
            !done && next == self && fb2 == fb
        }
    }

    /// Whether the disc is still above the top of the selected column of
    /// `game`.
    pub open spec fn falling(self, game: Game) -> bool {
        &&& game.wf()
        &&& game.top(game.selected as int) < HEIGHT
        &&& self.delta_y < game.top(game.selected as int) + SELECTED_DELTA
    }

    /// One poll of the fall at `now`; returns whether the disc has landed.
    pub fn poll(&mut self, game: &Game, now: Instant, fb: &mut Framebuffer) -> (done: bool)
        requires
            old(self).falling(*game),
        ensures
            old(self).polled(*game, *final(self), now, *old(fb), *final(fb), done),
            !done ==> final(self).falling(*game),
    {
        if self.next_instant.le(&now) {
            let x: usize = game.selected as usize;
            fb.store(x, SELECTED_Y + self.delta_y as usize, 0);
            self.delta_y = self.delta_y + 1;
            fb.store(x, SELECTED_Y + self.delta_y as usize, game.current_player_brightness());
            if self.delta_y >= game.top_y[x] + SELECTED_DELTA {
                return true;
            }
            self.next_instant.add_assign(Duration::from_ticks(DROP_DURATIONS[self.delta_y as usize] as u32));
        }
        false
    }
}

/// Whether `fb2` is `fb` with the disc moved: `(x0, y0)` turned off, then
/// `(x1, y1)` set to `b`.
pub open spec fn moved(fb: Framebuffer, fb2: Framebuffer, x0: int, y0: int, x1: int, y1: int, b: u8) -> bool {
    forall|x: int, y: int|
        0 <= x < FB_WIDTH && 0 <= y < FB_HEIGHT ==> #[trigger] fb2.px(x, y) == if x == x1 && y == y1 {
            b
        } else if x == x0 && y == y0 {
            0
        } else {
            fb.px(x, y)
        }
}

/// Column `k` steps left of `start`, wrapping around.
pub open spec fn col_left(start: int, k: int) -> int {
    (start - k) % (WIDTH as int)
}

/// Column `k` steps right of `start`, wrapping around.
pub open spec fn col_right(start: int, k: int) -> int {
    (start + k) % (WIDTH as int)
}

/// Column step of search direction `k`: along a row, along a column, and
/// the two diagonals.
pub open spec fn dir_x(k: int) -> int {
    if k == 1 {
        0
    } else if k == 3 {
        -1
    } else {
        1
    }
}

/// Row step of search direction `k`.
pub open spec fn dir_y(k: int) -> int {
    if k == 0 {
        0
    } else {
        1
    }
}

/// The smaller of `a` and `b`.
pub open spec fn min_int(a: int, b: int) -> int {
    if a <= b {
        a
    } else {
        b
    }
}

/// How many steps of `d` lead from `pos` to the last place in
/// `0 .. size`; a step of zero never leaves, counted as `WIDTH`.
pub open spec fn edge(pos: int, d: int, size: int) -> int {
    if d > 0 {
        size - 1 - pos
    } else if d < 0 {
        pos
    } else {
        WIDTH as int
    }
}

/// Steps from board cell `(x, y)` back against direction `k` to the
/// board's edge.
pub open spec fn back_steps(x: int, y: int, k: int) -> int {
    min_int(edge(x, -dir_x(k), WIDTH as int), edge(y, -dir_y(k), HEIGHT as int))
}

/// Board column where the line through `(x, y)` in direction `k` starts.
pub open spec fn line_start_x(x: int, y: int, k: int) -> int {
    x - back_steps(x, y, k) * dir_x(k)
}

/// Board row where the line through `(x, y)` in direction `k` starts.
pub open spec fn line_start_y(x: int, y: int, k: int) -> int {
    y - back_steps(x, y, k) * dir_y(k)
}

/// Number of board cells on the line through `(x, y)` in direction `k`.
pub open spec fn line_len(x: int, y: int, k: int) -> int {
    let sx = line_start_x(x, y, k);
    let sy = line_start_y(x, y, k);
    min_int(edge(sx, dir_x(k), WIDTH as int), edge(sy, dir_y(k), HEIGHT as int)) + 1
}

/// Framebuffer column of cell `i` of that line.
pub open spec fn line_x(x: int, y: int, k: int, i: int) -> int {
    line_start_x(x, y, k) + i * dir_x(k)
}

/// Framebuffer row of cell `i` of that line.
pub open spec fn line_y(x: int, y: int, k: int, i: int) -> int {
    BASE_Y + line_start_y(x, y, k) + i * dir_y(k)
}

/// Whether cells `i - 3 ..= i` of that line all show brightness `p`.
pub open spec fn four_at(fb: Framebuffer, x: int, y: int, k: int, p: u8, i: int) -> bool {
    &&& 3 <= i
    &&& forall|j: int| i - 3 <= j <= i ==> #[trigger] fb.px(line_x(x, y, k, j), line_y(x, y, k, j)) == p
}

/// Whether no four cells in a row of that line show brightness `p`.
pub open spec fn no_four(fb: Framebuffer, x: int, y: int, k: int, p: u8) -> bool {
    forall|i: int| 0 <= i < line_len(x, y, k) ==> !#[trigger] four_at(fb, x, y, k, p, i)
}

/// Whether the `t`-th of four cells in a line through board cell `(x, y)`
/// with step `(a, b)`, of which `(x, y)` is the `s`-th, lies on the board
/// and shows brightness `p`.
pub open spec fn disc_in_line(fb: Framebuffer, x: int, y: int, a: int, b: int, s: int, t: int, p: u8) -> bool {
    let cx = x + (t - s) * a;
    let cy = y + (t - s) * b;
    &&& 0 <= cx < WIDTH
    &&& 0 <= cy < HEIGHT
    &&& fb.px(cx, BASE_Y + cy) == p
}

/// `i * d` for a step `d` of at most one.
proof fn lemma_scale(i: int, d: int)
    requires
        -1 <= d <= 1,
    ensures
        i * d == if d == 1 {
            i
        } else if d == -1 {
            -i
        } else {
            0
        },
{
    if d == 1 {
        assert(i * d == i) by (nonlinear_arith)
            requires
                d == 1,
        ;
    } else if d == -1 {
        assert(i * d == -i) by (nonlinear_arith)
            requires
                d == -1,
        ;
    } else {
        assert(i * d == 0) by (nonlinear_arith)
            requires
                d == 0,
        ;
    }
}

/// The line through a board cell starts on the board and holds at least
/// that cell.
proof fn lemma_line_start(x: int, y: int, k: int)
    requires
        0 <= x < WIDTH,
        0 <= y < HEIGHT,
        0 <= k < 4,
    ensures
        0 <= line_start_x(x, y, k) < WIDTH,
        0 <= line_start_y(x, y, k) < HEIGHT,
        1 <= line_len(x, y, k) <= WIDTH,
        0 <= back_steps(x, y, k) <= WIDTH,
{
    lemma_scale(back_steps(x, y, k), dir_x(k));
    lemma_scale(back_steps(x, y, k), dir_y(k));
}

/// The cells of a line through a board cell lie on the board.
proof fn lemma_line_on_board(x: int, y: int, k: int, i: int)
    requires
        0 <= x < WIDTH,
        0 <= y < HEIGHT,
        0 <= k < 4,
        0 <= i < line_len(x, y, k),
    ensures
        0 <= line_x(x, y, k, i) < WIDTH,
        BASE_Y <= line_y(x, y, k, i) < BASE_Y + HEIGHT,
{
    lemma_scale(back_steps(x, y, k), dir_x(k));
    lemma_scale(back_steps(x, y, k), dir_y(k));
    lemma_scale(i, dir_x(k));
    lemma_scale(i, dir_y(k));
}

/// Counting `t` cells back from cell `i` of a line along its direction
/// gives cell `i - t`.
proof fn lemma_line_back(x: int, y: int, k: int, i: int, t: int)
    requires
        0 <= k < 4,
    ensures
        line_x(x, y, k, i) - t * dir_x(k) == line_x(x, y, k, i - t),
        line_y(x, y, k, i) - t * dir_y(k) == line_y(x, y, k, i - t),
{
    lemma_scale(i, dir_x(k));
    lemma_scale(i, dir_y(k));
    lemma_scale(t, dir_x(k));
    lemma_scale(t, dir_y(k));
    lemma_scale(i - t, dir_x(k));
    lemma_scale(i - t, dir_y(k));
}

/// The step `(dx, dy)` of search direction `k`.
fn direction(k: u8) -> (d: (i8, i8))
    requires
        k < 4,
    ensures
        d.0 == dir_x(k as int),
        d.1 == dir_y(k as int),
{
    if k == 0 {
        (1, 0)
    } else if k == 1 {
        (0, 1)
    } else if k == 2 {
        (1, 1)
    } else {
        (-1, 1)
    }
}

/// `edge` on small values.
fn edge_steps(pos: i8, d: i8, size: i8) -> (e: i8)
    requires
        -1 <= d <= 1,
        0 <= pos < size <= WIDTH,
    ensures
        e == edge(pos as int, d as int, size as int),
{
    if d > 0 {
        size - 1 - pos
    } else if d < 0 {
        pos
    } else {
        WIDTH as i8
    }
}

/// `i * d` for a step `d` of at most one.
fn scale(i: i8, d: i8) -> (r: i8)
    requires
        -1 <= d <= 1,
        -100 <= i <= 100,
    ensures
        r == i * d,
{
    proof {
        lemma_scale(i as int, d as int);
    }
    if d == 1 {
        i
    } else if d == -1 {
        -i
    } else {
        0
    }
}

/// The state of a game: the height of each column's top disc (`HEIGHT`
/// for an empty column), the selected column and whose turn it is.
#[derive(Debug, Clone, Copy)]
pub struct Game {
    pub top_y: [u8; 7],
    pub selected: u8,
    pub p1_turn: bool,
}

impl Game {
    /// Whether the selection lies on the board and no column overflows.
    pub open spec fn wf(self) -> bool {
        &&& self.selected < WIDTH
        &&& forall|i: int| 0 <= i < WIDTH ==> #[trigger] self.top_y@[i] <= HEIGHT
    }

    /// The height of the top disc of column `c`.
    pub open spec fn top(self, c: int) -> int {
        self.top_y@[c] as int
    }

    /// Whether some column has room for a disc.
    pub open spec fn has_open(self) -> bool {
        exists|c: int| 0 <= c < WIDTH && #[trigger] self.top(c) > 0
    }

    /// Whether `c` is the first column with room, going `k` steps from
    /// the selection to the left.
    pub open spec fn left_open(self, c: int) -> bool {
        exists|k: int|
            1 <= k <= WIDTH && c == #[trigger] col_left(self.selected as int, k) && self.top(c) > 0
                && forall|j: int| 1 <= j < k ==> self.top(#[trigger] col_left(self.selected as int, j)) == 0
    }

    /// Whether `c` is the first column with room, going from the
    /// selection to the right.
    pub open spec fn right_open(self, c: int) -> bool {
        exists|k: int|
            1 <= k <= WIDTH && c == #[trigger] col_right(self.selected as int, k) && self.top(c) > 0
                && forall|j: int| 1 <= j < k ==> self.top(#[trigger] col_right(self.selected as int, j)) == 0
    }

    /// Whether `next` and `fb2` follow from moving the selection left: the
    /// first column with room to the left is selected and shown there.
    pub open spec fn went_left(self, next: Game, fb: Framebuffer, fb2: Framebuffer) -> bool {
        &&& next.top_y == self.top_y
        &&& next.p1_turn == self.p1_turn
        &&& self.left_open(next.selected as int)
        &&& moved(
            fb,
            fb2,
            self.selected as int,
            SELECTED_Y as int,
            next.selected as int,
            SELECTED_Y as int,
            self.spec_brightness(),
        )
    }

    /// Whether `next` and `fb2` follow from moving the selection right:
    /// the first column with room to the right is selected and shown
    /// there.
    pub open spec fn went_right(self, next: Game, fb: Framebuffer, fb2: Framebuffer) -> bool {
        &&& next.top_y == self.top_y
        &&& next.p1_turn == self.p1_turn
        &&& self.right_open(next.selected as int)
        &&& moved(
            fb,
            fb2,
            self.selected as int,
            SELECTED_Y as int,
            next.selected as int,
            SELECTED_Y as int,
            self.spec_brightness(),
        )
    }

    /// Whether `next` is this game with a disc added to the selected
    /// column.
    pub open spec fn dropped(self, next: Game) -> bool {
        &&& next.selected == self.selected
        &&& next.p1_turn == self.p1_turn
        &&& next.top_y@ == self.top_y@.update(self.selected as int, (self.top_y@[self.selected as int] - 1) as u8)
    }

    /// The brightness of the current player's discs.
    pub open spec fn spec_brightness(self) -> u8 {
        if self.p1_turn { P1_BRIGHTNESS } else { P2_BRIGHTNESS }
    }

    /// Whether this is the start of a game: empty board, middle column,
    /// first player.
    pub open spec fn is_start(self) -> bool {
        &&& self.top_y@ == seq![HEIGHT; 7]
        &&& self.selected == SPAWN_X
        &&& self.p1_turn
    }

    /// A new game, shown on a cleared framebuffer.
    pub fn new(fb: &mut Framebuffer) -> (g: Game)
        ensures
            g.is_start(),
            g.wf(),
            forall|x: int, y: int|
                0 <= x < FB_WIDTH && 0 <= y < FB_HEIGHT ==> #[trigger] final(fb).px(x, y) == if x == SPAWN_X && y
                    == SELECTED_Y {
                    P1_BRIGHTNESS
                } else {
                    0
                },
    {
        let game = Game { top_y: [HEIGHT; 7], selected: SPAWN_X, p1_turn: true };
        assert(game.top_y@ =~= seq![HEIGHT; 7]);
        fb.clear_all();
        game.draw_selected(fb);
        game
    }

    /// The brightness of the current player's discs.
    pub fn current_player_brightness(&self) -> (b: u8)
        ensures
            b == self.spec_brightness(),
    {
        if self.p1_turn {
            P1_BRIGHTNESS
        } else {
            P2_BRIGHTNESS
        }
    }

    /// Turns the selected disc off.
    pub fn clear_selected(&self, fb: &mut Framebuffer)
        requires
            self.selected < WIDTH,
        ensures
            final(fb).px(self.selected as int, SELECTED_Y as int) == 0,
            final(fb).same_except(*old(fb), self.selected as int, SELECTED_Y as int),
    {
        fb.store(self.selected as usize, SELECTED_Y, 0);
    }

    /// Shows the selected disc in the current player's brightness.
    pub fn draw_selected(&self, fb: &mut Framebuffer)
        requires
            self.selected < WIDTH,
        ensures
            final(fb).px(self.selected as int, SELECTED_Y as int) == self.spec_brightness(),
            final(fb).same_except(*old(fb), self.selected as int, SELECTED_Y as int),
    {
        fb.store(self.selected as usize, SELECTED_Y, self.current_player_brightness());
    }

    /// Drops the selected disc: its column grows by one; the returned
    /// animation shows the fall, starting at `now`.
    pub fn drop(&mut self, now: Instant) -> (a: DropAnimation)
        requires
            old(self).wf(),
            old(self).top(old(self).selected as int) > 0,
        ensures
            final(self).wf(),
            old(self).dropped(*final(self)),
            a == DropAnimation::spec_new(now),
    {
        let sel: usize = self.selected as usize;
        self.top_y[sel] = self.top_y[sel] - 1;
        DropAnimation::new(now)
    }

    /// Moves the selection left to the next column with room, wrapping
    /// around.
    pub fn move_left(&mut self, fb: &mut Framebuffer)
        requires
            old(self).wf(),
            old(self).has_open(),
        ensures
            final(self).wf(),
            old(self).went_left(*final(self), *old(fb), *final(fb)),
    {
        let ghost g0 = *self;
        let ghost fb0 = *fb;
        let ghost start = self.selected as int;
        self.clear_selected(fb);
        let ghost mut k: int = 0;
        loop
            invariant_except_break
                0 <= k < WIDTH,
                forall|j: int| 1 <= j <= k ==> g0.top(#[trigger] col_left(start, j)) == 0,
            invariant
                g0.wf(),
                g0.has_open(),
                self.top_y == g0.top_y,
                self.p1_turn == g0.p1_turn,
                self.selected < WIDTH,
                self.selected == col_left(start, k),
                start == g0.selected,
                fb.px(start, SELECTED_Y as int) == 0,
                fb.same_except(fb0, start, SELECTED_Y as int),
            ensures
                1 <= k <= WIDTH,
                self.top_y == g0.top_y,
                self.p1_turn == g0.p1_turn,
                self.selected < WIDTH,
                self.selected == col_left(start, k),
                g0.top(self.selected as int) > 0,
                forall|j: int| 1 <= j < k ==> g0.top(#[trigger] col_left(start, j)) == 0,
                fb.px(start, SELECTED_Y as int) == 0,
                fb.same_except(fb0, start, SELECTED_Y as int),
            decreases WIDTH - k,
        {
            if self.selected <= 0 {
                self.selected = WIDTH - 1;
            } else {
                self.selected = self.selected - 1;
            }
            proof {
                k = k + 1;
            }
            if self.top_y[self.selected as usize] > 0 {
                break;
            }
            proof {
                if k == WIDTH {
                    let c = choose|c: int| 0 <= c < WIDTH && #[trigger] g0.top(c) > 0;
                    let j = if (start - c) % 7 == 0 { 7 } else { (start - c) % 7 };
                    assert(col_left(start, j) == c);
                    assert(false);
                }
            }
        }
        proof {
            assert(g0.left_open(self.selected as int));
        }
        self.draw_selected(fb);
    }

    /// Moves the selection right to the next column with room, wrapping
    /// around; returns `true`, leaving the selection cleared, when every
    /// column is full.
    pub fn move_right_test(&mut self, fb: &mut Framebuffer) -> (full: bool)
        requires
            old(self).wf(),
        ensures
            final(self).wf(),
            final(self).top_y == old(self).top_y,
            final(self).p1_turn == old(self).p1_turn,
            full == !old(self).has_open(),
            !full ==> old(self).went_right(*final(self), *old(fb), *final(fb)),
            full ==> final(self).selected == old(self).selected && final(fb).px(
                old(self).selected as int,
                SELECTED_Y as int,
            ) == 0 && final(fb).same_except(*old(fb), old(self).selected as int, SELECTED_Y as int),
    {
        let ghost g0 = *self;
        let ghost fb0 = *fb;
        let ghost start = self.selected as int;
        let selected_start: u8 = self.selected;
        self.clear_selected(fb);
        let ghost mut k: int = 0;
        loop
            invariant_except_break
                0 <= k < WIDTH,
                forall|j: int| 1 <= j <= k ==> g0.top(#[trigger] col_right(start, j)) == 0,
            invariant
                g0 == *old(self),
                fb0 == *old(fb),
                g0.wf(),
                self.top_y == g0.top_y,
                self.p1_turn == g0.p1_turn,
                self.selected < WIDTH,
                self.selected == col_right(start, k),
                start == g0.selected,
                selected_start == start,
                fb.px(start, SELECTED_Y as int) == 0,
                fb.same_except(fb0, start, SELECTED_Y as int),
            ensures
                1 <= k <= WIDTH,
                self.top_y == g0.top_y,
                self.p1_turn == g0.p1_turn,
                self.selected < WIDTH,
                self.selected == col_right(start, k),
                g0.top(self.selected as int) > 0,
                forall|j: int| 1 <= j < k ==> g0.top(#[trigger] col_right(start, j)) == 0,
                fb.px(start, SELECTED_Y as int) == 0,
                fb.same_except(fb0, start, SELECTED_Y as int),
            decreases WIDTH - k,
        {
            if self.selected >= WIDTH - 1 {
                self.selected = 0;
            } else {
                self.selected = self.selected + 1;
            }
            proof {
                k = k + 1;
            }
            if self.top_y[self.selected as usize] > 0 {
                break;
            } else if self.selected == selected_start {
                proof {
                    assert(k == WIDTH);
                    assert forall|c: int| 0 <= c < WIDTH implies #[trigger] g0.top(c) == 0 by {
                        let j = if (c - start) % 7 == 0 { 7 } else { (c - start) % 7 };
                        assert(col_right(start, j) == c);
                    }
                }
                return true;
            }
        }
        proof {
            assert(g0.right_open(self.selected as int));
        }
        self.draw_selected(fb);
        false
    }

    /// Moves the selection right to the next column with room, wrapping
    /// around.
    pub fn move_right(&mut self, fb: &mut Framebuffer)
        requires
            old(self).wf(),
            old(self).has_open(),
        ensures
            final(self).wf(),
            old(self).went_right(*final(self), *old(fb), *final(fb)),
    {
        let _ = self.move_right_test(fb);
    }

    /// Whether the lines through the last disc dropped, the top disc of
    /// the selected column, in directions before `k` hold no four discs
    /// of the current player.
    pub open spec fn no_win_before(self, fb: Framebuffer, k: int) -> bool {
        let x = self.selected as int;
        forall|k2: int| 0 <= k2 < k ==> #[trigger] no_four(fb, x, self.top(x), k2, self.spec_brightness())
    }

    /// Whether the current player has no four discs in a line through the
    /// last disc dropped.
    pub open spec fn no_win(self, fb: Framebuffer) -> bool {
        self.no_win_before(fb, 4)
    }

    /// Whether `a` flashes the first four discs in a row of the current
    /// player found through the last disc dropped: searching the
    /// directions in order and each line from its start, the four ending
    /// at cell `i` of direction `k`.
    pub open spec fn is_first_win(self, fb: Framebuffer, now: Instant, a: WinAnimation) -> bool {
        let x = self.selected as int;
        let y = self.top(x);
        let p = self.spec_brightness();
        exists|k: int, i: int|
            0 <= k < 4 && 0 <= i < line_len(x, y, k) && #[trigger] four_at(fb, x, y, k, p, i) && (forall|j: int|
                0 <= j < i ==> !#[trigger] four_at(fb, x, y, k, p, j)) && self.no_win_before(fb, k) && a
                == WinAnimation::spec_new(
                now,
                line_x(x, y, k, i) as u8,
                line_y(x, y, k, i) as u8,
                dir_x(k) as i8,
                dir_y(k) as i8,
                p,
            )
    }

    /// Four discs of the current player in a straight line through the
    /// last disc dropped win, whichever way the line runs: along a row
    /// `(1, 0)`, down a column `(0, 1)`, or along either diagonal `(1, 1)`
    /// and `(-1, 1)`. Here the last disc is the `s`-th of the four, and the
    /// `t`-th lies `t - s` steps of `(a, b)` away from it.
    pub proof fn lemma_line_of_four_wins(self, fb: Framebuffer, a: int, b: int, s: int)
        requires
            self.wf(),
            self.top(self.selected as int) < HEIGHT,
            (a == 1 && b == 0) || (a == 0 && b == 1) || (a == 1 && b == 1) || (a == -1 && b == 1),
            0 <= s < 4,
            forall|t: int|
                0 <= t < 4 ==> #[trigger] disc_in_line(
                    fb,
                    self.selected as int,
                    self.top(self.selected as int),
                    a,
                    b,
                    s,
                    t,
                    self.spec_brightness(),
                ),
        ensures
            !self.no_win(fb),
    {
        let x = self.selected as int;
        let y = self.top(x);
        let p = self.spec_brightness();
        let k: int = if a == 1 && b == 0 {
            0
        } else if a == 0 {
            1
        } else if a == 1 {
            2
        } else {
            3
        };
        assert(dir_x(k) == a && dir_y(k) == b);
        let bs = back_steps(x, y, k);
        let i = bs - s + 3;
        lemma_line_start(x, y, k);
        lemma_scale(bs, a);
        lemma_scale(bs, b);
        lemma_scale(s, a);
        lemma_scale(s, b);
        lemma_scale(3 - s, a);
        lemma_scale(3 - s, b);
        let c0x = x + (0 - s) * a;
        let c0y = y + (0 - s) * b;
        let c3x = x + (3 - s) * a;
        let c3y = y + (3 - s) * b;
        assert(disc_in_line(fb, x, y, a, b, s, 0, p));
        assert(disc_in_line(fb, x, y, a, b, s, 3, p));
        assert(0 <= c0x < WIDTH && 0 <= c0y < HEIGHT && 0 <= c3x < WIDTH && 0 <= c3y < HEIGHT);
        assert(bs >= s);
        assert(i < line_len(x, y, k));
        assert forall|j: int| i - 3 <= j <= i implies #[trigger] fb.px(line_x(x, y, k, j), line_y(x, y, k, j)) == p by {
            let t = j - bs + s;
            lemma_scale(j, a);
            lemma_scale(j, b);
            lemma_scale(t - s, a);
            lemma_scale(t - s, b);
            assert(line_x(x, y, k, j) == x + (t - s) * a);
            assert(line_y(x, y, k, j) == BASE_Y + y + (t - s) * b);
            assert(disc_in_line(fb, x, y, a, b, s, t, p));
        }
        assert(four_at(fb, x, y, k, p, i));
        assert(!no_four(fb, x, y, k, p));
    }

    /// Looks for four discs of the current player in a line through the
    /// last disc dropped; when found, returns the flashing of them,
    /// started at `now`.
    pub fn check_win(&self, now: Instant, fb: &Framebuffer) -> (r: Option<WinAnimation>)
        requires
            self.wf(),
            self.top(self.selected as int) < HEIGHT,
        ensures
            match r {
                Some(a) => self.is_first_win(*fb, now, a) && a.valid() && !self.no_win(*fb),
                None => self.no_win(*fb),
            },
    {
        let ghost gx = self.selected as int;
        let ghost gy = self.top(gx);
        let x: i8 = self.selected as i8;
        let y: i8 = self.top_y[self.selected as usize] as i8;
        let p: u8 = self.current_player_brightness();
        let mut k: u8 = 0;
        while k < 4
            invariant
                0 <= k <= 4,
                self.wf(),
                gx == x && gy == y,
                gx == self.selected,
                gy == self.top(gx),
                0 <= y < HEIGHT,
                p == self.spec_brightness(),
                self.no_win_before(*fb, k as int),
            decreases 4 - k,
        {
            let (dx, dy) = direction(k);
            proof {
                lemma_line_start(gx, gy, k as int);
            }
            let back_x: i8 = edge_steps(x, -dx, WIDTH as i8);
            let back_y: i8 = edge_steps(y, -dy, HEIGHT as i8);
            let back: i8 = if back_x <= back_y { back_x } else { back_y };
            let sx: i8 = x - scale(back, dx);
            let sy: i8 = y - scale(back, dy);
            let len_x: i8 = edge_steps(sx, dx, WIDTH as i8);
            let len_y: i8 = edge_steps(sy, dy, HEIGHT as i8);
            let len: i8 = (if len_x <= len_y { len_x } else { len_y }) + 1;
            let ghost kk = k as int;
            let mut consecutive: i8 = 0;
            let mut i: i8 = 0;
            while i < len
                invariant
                    0 <= kk < 4,
                    kk == k,
                    0 <= gx < WIDTH,
                    0 <= gy < HEIGHT,
                    dx == dir_x(kk) && dy == dir_y(kk),
                    sx == line_start_x(gx, gy, kk),
                    sy == line_start_y(gx, gy, kk),
                    len == line_len(gx, gy, kk),
                    0 <= i <= len,
                    0 <= consecutive <= i,
                    consecutive < 4,
                    forall|j: int| i - consecutive <= j < i ==> #[trigger] fb.px(line_x(gx, gy, kk, j), line_y(gx, gy, kk, j)) == p,
                    i - consecutive >= 1 ==> fb.px(line_x(gx, gy, kk, i - consecutive - 1), line_y(gx, gy, kk, i - consecutive - 1)) != p,
                    forall|j: int| 0 <= j < i ==> !#[trigger] four_at(*fb, gx, gy, kk, p, j),
                    self.no_win_before(*fb, kk),
                    gx == self.selected,
                    gy == self.top(gx),
                    p == self.spec_brightness(),
                decreases len - i,
            {
                proof {
                    lemma_line_on_board(gx, gy, kk, i as int);
                }
                let cx: i8 = sx + scale(i, dx);
                let cy: i8 = BASE_Y as i8 + sy + scale(i, dy);
                if fb.load(cx as usize, cy as usize) == p {
                    consecutive = consecutive + 1;
                    if consecutive >= 4 {
                        let a = WinAnimation::new(now, cx as u8, cy as u8, dx, dy, p);
                        proof {
                            assert(four_at(*fb, gx, gy, kk, p, i as int));
                            assert(self.is_first_win(*fb, now, a));
                            assert(!no_four(*fb, gx, gy, kk, p));
                            assert forall|t: int| 0 <= t < 4 implies 0 <= #[trigger] a.cell_x(t) < FB_WIDTH && 0
                                <= a.cell_y(t) < FB_HEIGHT by {
                                lemma_line_back(gx, gy, kk, i as int, t);
                                lemma_line_on_board(gx, gy, kk, i - t);
                            }
                        }
                        return Some(a);
                    }
                    proof {
                        if four_at(*fb, gx, gy, kk, p, i as int) {
                            let j = i - consecutive;
                            assert(fb.px(line_x(gx, gy, kk, j), line_y(gx, gy, kk, j)) == p);
                        }
                    }
                } else {
                    proof {
                        assert(!four_at(*fb, gx, gy, kk, p, i as int));
                    }
                    consecutive = 0;
                }
                i = i + 1;
            }
            k = k + 1;
        }
        None
    }

    /// Whether `r`, `next` and `fb2` follow from ending the turn at `now`:
    /// four discs in a row win, flashing from `now`; otherwise the other
    /// player gets the first column with room right of `SPAWN_X - 1`, and
    /// with no room left the game is a draw.
    pub open spec fn turn_ended(
        self,
        now: Instant,
        fb: Framebuffer,
        r: Option<GameResult>,
        next: Game,
        fb2: Framebuffer,
    ) -> bool {
        if !self.no_win(fb) {
            &&& r matches Some(GameResult::Won(a)) && self.is_first_win(fb, now, a) && a.valid()
            &&& next == self
            &&& fb2 == fb
        } else {
            let g1 = Game { p1_turn: !self.p1_turn, selected: (SPAWN_X - 1) as u8, ..self };
            if self.has_open() {
                &&& r is None
                &&& g1.went_right(next, fb, fb2)
            } else {
                &&& r == Some(GameResult::Remis)
                &&& next == g1
                &&& fb2.px(g1.selected as int, SELECTED_Y as int) == 0
                &&& fb2.same_except(fb, g1.selected as int, SELECTED_Y as int)
            }
        }
    }

    /// Ends the turn after a disc has landed, at `now`: returns the result
    /// when the game is over, otherwise hands over to the other player.
    pub fn next_player(&mut self, now: Instant, fb: &mut Framebuffer) -> (r: Option<GameResult>)
        requires
            old(self).wf(),
            old(self).top(old(self).selected as int) < HEIGHT,
        ensures
            final(self).wf(),
            old(self).turn_ended(now, *old(fb), r, *final(self), *final(fb)),
    {
        if let Some(a) = self.check_win(now, fb) {
            Some(GameResult::Won(a))
        } else {
            self.p1_turn = !self.p1_turn;
            self.selected = SPAWN_X - 1;
            let ghost g1 = *self;
            proof {
                assert(g1.has_open() == old(self).has_open()) by {
                    if old(self).has_open() {
                        let c = choose|c: int| 0 <= c < WIDTH && #[trigger] old(self).top(c) > 0;
                        assert(g1.top(c) > 0);
                    }
                    if g1.has_open() {
                        let c = choose|c: int| 0 <= c < WIDTH && #[trigger] g1.top(c) > 0;
                        assert(old(self).top(c) > 0);
                    }
                }
            }
            if self.move_right_test(fb) {
                Some(GameResult::Remis)
            } else {
                None
            }
        }
    }
}

/// The app's phase: playing, with a disc perhaps falling, or over.
#[derive(Debug, Clone, Copy)]
pub enum TaskState {
    Game(Game, Option<DropAnimation>),
    Score(GameResult),
}

/// The four-in-a-row app: the game and the pulsing board frame.
#[derive(Debug, Clone, Copy)]
pub struct Task {
    pub state: TaskState,
    pub limit_animation: LimitAnimation,
}

/// Whether signal byte `signal` reports Start or Select being pressed.
pub open spec fn start_pressed(signal: u8) -> bool {
    decode_event(signal) matches Some(e) && e.pressed && (e.button == Button::Start || e.button
        == Button::Select)
}

/// Whether `next`, `fb2`, the event slot `b2` and `ret` follow from one
/// poll at `now` of the game phase `state`, after the frame was drawn
/// into `fb`.
pub open spec fn state_polled(
    state: TaskState,
    next: TaskState,
    now: Instant,
    b: Buttons,
    b2: Buttons,
    fb: Framebuffer,
    fb2: Framebuffer,
    ret: bool,
) -> bool {
    &&& b2.signal == 0
    &&& b2.state == b.state
    &&& match state {
        TaskState::Game(g, Some(a)) => {
            &&& !ret
            &&& exists|a2: DropAnimation, fbd: Framebuffer, done: bool|
                #[trigger] a.polled(g, a2, now, fb, fbd, done) && if done {
                    exists|r: Option<GameResult>, g2: Game|
                        #[trigger] g.turn_ended(now, fbd, r, g2, fb2) && next == match r {
                            Some(res) => TaskState::Score(res),
                            None => TaskState::Game(g2, None),
                        }
                } else {
                    next == TaskState::Game(g, Some(a2)) && fb2 == fbd
                }
        },
        TaskState::Game(g, None) => {
            let ev = decode_event(b.signal);
            &&& !ret
            &&& if ev matches Some(e) && e.pressed {
                let btn = ev.unwrap().button;
                if btn == Button::Start || btn == Button::Select {
                    exists|g2: Game|
                        #[trigger] g.dropped(g2) && next == TaskState::Game(g2, Some(DropAnimation::spec_new(now)))
                            && fb2 == fb
                } else if btn == Button::L {
                    exists|g2: Game| #[trigger] g.went_left(g2, fb, fb2) && next == TaskState::Game(g2, None)
                } else {
                    exists|g2: Game| #[trigger] g.went_right(g2, fb, fb2) && next == TaskState::Game(g2, None)
                }
            } else {
                next == state && fb2 == fb
            }
        },
        TaskState::Score(res) => {
            &&& ret == start_pressed(b.signal)
            &&& if ret {
                next == state && fb2 == fb
            } else {
                match res {
                    GameResult::Won(a) => exists|a2: WinAnimation|
                        #[trigger] a.polled(a2, now, fb, fb2) && next == TaskState::Score(GameResult::Won(a2)),
                    GameResult::Remis => next == state && fb2 == fb,
                }
            }
        },
    }
}

impl Task {
    /// Whether the app can take a poll: the selected column has room, a
    /// falling disc is above its column's top, and winning discs lie on
    /// the framebuffer.
    pub open spec fn ready(self) -> bool {
        match self.state {
            TaskState::Game(g, None) => g.wf() && g.top(g.selected as int) > 0,
            TaskState::Game(g, Some(a)) => a.falling(g),
            TaskState::Score(GameResult::Won(a)) => a.valid(),
            TaskState::Score(GameResult::Remis) => true,
        }
    }

    /// Whether `t` is a game started at `now` and shown on `fb`: an empty
    /// board and only the first player's disc lit.
    pub open spec fn started(t: Task, now: Instant, fb: Framebuffer) -> bool {
        &&& t.state matches TaskState::Game(g, None) && g.is_start()
        &&& t.limit_animation == LimitAnimation::spec_new(now)
        &&& forall|x: int, y: int|
            0 <= x < FB_WIDTH && 0 <= y < FB_HEIGHT ==> #[trigger] fb.px(x, y) == if x == SPAWN_X && y == SELECTED_Y {
                P1_BRIGHTNESS
            } else {
                0
            }
    }

    /// A new game at `now`, shown on a cleared framebuffer.
    pub fn new(now: Instant, fb: &mut Framebuffer) -> (t: Task)
        ensures
            t.ready(),
            Task::started(t, now, *final(fb)),
    {
        let game = Game::new(fb);
        Task { state: TaskState::Game(game, None), limit_animation: LimitAnimation::new(now) }
    }

    /// Whether the outputs follow from one poll at `now`: the frame steps,
    /// then the game phase takes its turn; the result tells whether the
    /// app has ended.
    pub open spec fn polled(
        self,
        next: Task,
        now: Instant,
        b: Buttons,
        b2: Buttons,
        fb: Framebuffer,
        fb2: Framebuffer,
        ret: bool,
    ) -> bool {
        exists|fb1: Framebuffer|
            #[trigger] self.limit_animation.polled(next.limit_animation, now, fb, fb1) && state_polled(
                self.state,
                next.state,
                now,
                b,
                b2,
                fb1,
                fb2,
                ret,
            )
    }

    /// One poll of the app at `now`; returns whether the player has left
    /// the finished game.
    pub fn poll(&mut self, now: Instant, buttons: &mut Buttons, fb: &mut Framebuffer) -> (ret: bool)
        requires
            old(self).ready(),
        ensures
            old(self).polled(*final(self), now, *old(buttons), *final(buttons), *old(fb), *final(fb), ret),
            final(self).ready(),
    {
        let ghost s0 = *self;
        let ghost b0 = *buttons;
        self.limit_animation.poll(now, fb);
        let ghost fb1 = *fb;
        assert(s0.limit_animation.polled(self.limit_animation, now, *old(fb), fb1));
        match self.state {
            TaskState::Game(game, Some(anim)) => {
                let mut game = game;
                let mut anim = anim;
                buttons.discard_events();
                let ghost a0 = anim;
                if anim.poll(&game, now, fb) {
                    let ghost fbd = *fb;
                    let ghost g0 = game;
                    let r = game.next_player(now, fb);
                    proof {
                        assert(a0.polled(g0, anim, now, fb1, fbd, true));
                        assert(g0.turn_ended(now, fbd, r, game, *fb));
                    }
                    match r {
                        Some(res) => {
                            self.state = TaskState::Score(res);
                        },
                        None => {
                            self.state = TaskState::Game(game, None);
                        },
                    }
                } else {
                    self.state = TaskState::Game(game, Some(anim));
                    proof {
                        assert(a0.polled(game, anim, now, fb1, *fb, false));
                    }
                }
                assert(state_polled(s0.state, self.state, now, b0, *buttons, fb1, *fb, false));
                assert(s0.limit_animation.polled(self.limit_animation, now, *old(fb), fb1));
                assert(s0.polled(*self, now, b0, *buttons, *old(fb), *fb, false));
                false
            },
            TaskState::Game(game, None) => {
                let mut game = game;
                let ghost g0 = game;
                if let Some(Event { pressed: true, button }) = buttons.event() {
                    match button {
                        Button::Start | Button::Select => {
                            let a = game.drop(now);
                            self.state = TaskState::Game(game, Some(a));
                            proof {
                                assert(g0.dropped(game));
                            }
                        },
                        Button::L => {
                            game.move_left(fb);
                            self.state = TaskState::Game(game, None);
                            proof {
                                assert(g0.went_left(game, fb1, *fb));
                            }
                        },
                        Button::R => {
                            game.move_right(fb);
                            self.state = TaskState::Game(game, None);
                            proof {
                                assert(g0.went_right(game, fb1, *fb));
                            }
                        },
                    }
                }
                assert(state_polled(s0.state, self.state, now, b0, *buttons, fb1, *fb, false));
                assert(s0.limit_animation.polled(self.limit_animation, now, *old(fb), fb1));
                assert(s0.polled(*self, now, b0, *buttons, *old(fb), *fb, false));
                false
            },
            TaskState::Score(res) => {
                let ev = buttons.event();
                if let Some(Event { pressed: true, button }) = ev {
                    if button == Button::Start || button == Button::Select {
                        assert(state_polled(s0.state, self.state, now, b0, *buttons, fb1, *fb, true));
                        assert(s0.limit_animation.polled(self.limit_animation, now, *old(fb), fb1));
                        return true;
                    }
                }
                if let GameResult::Won(a) = res {
                    let mut a = a;
                    let ghost a0 = a;
                    a.poll(now, fb);
                    self.state = TaskState::Score(GameResult::Won(a));
                    proof {
                        assert(a0.polled(a, now, fb1, *fb));
                    }
                }
                assert(state_polled(s0.state, self.state, now, b0, *buttons, fb1, *fb, false));
                assert(s0.limit_animation.polled(self.limit_animation, now, *old(fb), fb1));
                assert(s0.polled(*self, now, b0, *buttons, *old(fb), *fb, false));
                false
            },
        }
    }
}

} // verus!
