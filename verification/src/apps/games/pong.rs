//! Pong for two players: paddles at the top and bottom row, the ball speeds
//! up with every hit, the first player to miss eight balls loses.
use vstd::prelude::*;
use crate::drivers::buttons::{Button, Buttons, Event, decode_event};
use crate::drivers::matrix::{Framebuffer, WIDTH, HEIGHT};
use crate::time::{Duration, Instant, wrap_i32};

verus! {

/// Brightness of the miss counters while playing.
pub const SCORE_BRIGHTNESS: u8 = 16;

/// Brightness of the miss counters after the game.
pub const END_SCORE_BRIGHTNESS: u8 = 32;

/// Brightness of the paddles.
pub const PADDLE_BRIGHTNESS: u8 = 32;

/// Brightness of the ball.
pub const BALL_BRIGHTNESS: u8 = 96;

/// Pause after a miss, in ticks (1.5 s).
pub const RESET_PAUSE_TICKS: u32 = 15000;

/// Ball period at the start of a rally, in ticks (200 ms).
pub const INITIAL_TICKS: u32 = 2000;

/// Shortest ball period: one frame of the matrix.
pub const FRAME_TICKS: u32 = 18;

/// Time the final score stays, in ticks (5 s).
pub const SCORE_SHOW_TICKS: u32 = 50000;

/// Paddle length.
pub const PADDLE_LEN: i8 = 3;

/// How far a paddle may stick out over the side.
pub const PADDLE_OVERSHOOT: i8 = 1;

/// Leftmost paddle position.
pub const PADDLE_X_MIN: i8 = -1;

/// Rightmost paddle position.
pub const PADDLE_X_MAX: i8 = 6;

/// Paddle position at the start of a rally.
pub const PADDLE_X_INITIAL: i8 = 2;

/// Misses that end the game.
pub const SCORE_MAX: u8 = 8;

/// The ball: position and direction.
#[derive(Debug, Clone, Copy, PartialEq, Eq, Structural)]
pub struct Ball {
    pub x: i8,
    pub y: i8,
    pub x_dir: i8,
    pub y_dir: i8,
}

impl Ball {
    /// The ball in the centre, moving vertically in direction `y_dir`.
    pub open spec fn spec_with_y_dir(y_dir: i8) -> Ball {
        Ball { x: 3, y: 4, x_dir: 0, y_dir }
    }

    /// Whether the ball lies on the matrix and cannot leave it with its next
    /// move: at a side it does not move outward, and in the top or bottom
    /// row it moves toward that edge.
    pub open spec fn on_screen(self) -> bool {
        &&& 0 <= self.x < WIDTH
        &&& 0 <= self.y < HEIGHT
        &&& -1 <= self.x_dir <= 1
        &&& (self.y_dir == 1 || self.y_dir == -1)
        &&& self.x == 0 ==> self.x_dir != 1
        &&& self.x == WIDTH - 1 ==> self.x_dir != -1
        &&& self.y == 0 ==> self.y_dir == -1
        &&& self.y == HEIGHT - 1 ==> self.y_dir == 1
    }

    /// The ball in the centre, moving vertically in direction `y_dir`.
    pub fn with_y_dir(y_dir: i8) -> (b: Ball)
        ensures
            b == Ball::spec_with_y_dir(y_dir),
    {
        Ball { x: (WIDTH as i8 - 1) / 2, y: (HEIGHT as i8 - 1) / 2, x_dir: 0, y_dir }
    }

    /// The ball in the centre, moving down.
    pub fn new() -> (b: Ball)
        ensures
            b == Ball::spec_with_y_dir(1),
    {
        Self::with_y_dir(1)
    }

    /// The ball after one move: it bounces off the sides.
    pub open spec fn spec_advanced(self) -> Ball {
        let xd = if self.x == 0 || self.x == WIDTH - 1 { -self.x_dir } else { self.x_dir as int };
        Ball { x: (self.x + xd) as i8, y: (self.y + self.y_dir) as i8, x_dir: xd as i8, y_dir: self.y_dir }
    }

    /// Moves the ball one step.
    pub fn advance(&mut self)
        requires
            -1 <= old(self).x_dir <= 1,
            -1 <= old(self).y_dir <= 1,
            0 <= old(self).x < WIDTH,
            0 <= old(self).y < HEIGHT,
        ensures
            *final(self) == old(self).spec_advanced(),
    {
        if self.x == 0 || self.x == WIDTH as i8 - 1 {
            self.x_dir = -self.x_dir;
        }
        self.x = self.x + self.x_dir;
        self.y = self.y + self.y_dir;
    }

    /// Shows the ball.
    pub fn draw(&self, fb: &mut Framebuffer)
        requires
            0 <= self.x < WIDTH,
            0 <= self.y < HEIGHT,
        ensures
            final(fb).px(self.x as int, self.y as int) == BALL_BRIGHTNESS,
            final(fb).same_except(*old(fb), self.x as int, self.y as int),
    {
        fb.store(self.x as usize, self.y as usize, BALL_BRIGHTNESS);
    }
}

/// The outcome of a ball reaching a paddle row.
#[derive(Debug, PartialEq, Eq, Clone, Copy, Structural)]
pub enum CollideResult {
    Missed,
    Hit,
    NoCollision,
}

impl CollideResult {
    /// This outcome, or the one computed by `f` when there was none.
    pub fn or<F: FnOnce() -> CollideResult>(self, f: F) -> (r: CollideResult)
        requires
            self == CollideResult::NoCollision ==> f.requires(()),
        ensures
            self != CollideResult::NoCollision ==> r == self,
            self == CollideResult::NoCollision ==> f.ensures((), r),
    {
        if self == CollideResult::NoCollision {
            f()
        } else {
            self
        }
    }
}

/// A player: the paddle at the top row if `top`, else at the bottom row,
/// and the number of missed balls.
#[derive(Debug, Clone, Copy, PartialEq, Eq, Structural)]
pub struct Player {
    pub misses: u8,
    pub paddle_x: i8,
    pub top: bool,
}

impl Player {
    /// The paddle row.
    pub open spec fn spec_paddle_y(self) -> i8 {
        if self.top { 0 } else { (HEIGHT - 1) as i8 }
    }

    /// The paddle row.
    pub fn paddle_y(&self) -> (y: i8)
        ensures
            y == self.spec_paddle_y(),
    {
        if self.top { 0 } else { HEIGHT as i8 - 1 }
    }

    /// The row of the miss counter.
    pub open spec fn spec_score_row(self) -> int {
        if self.top { 5 } else { 3 }
    }

    /// Whether the paddle lies in its allowed range.
    pub open spec fn in_range(self) -> bool {
        PADDLE_X_MIN <= self.paddle_x <= PADDLE_X_MAX
    }

    /// Whether the paddle covers column `x`.
    pub open spec fn covers(self, x: int) -> bool {
        self.paddle_x <= x < self.paddle_x + PADDLE_LEN
    }

    /// A player at the top (`top`) or bottom, without misses and the
    /// paddle in the middle.
    pub fn new(top: bool) -> (p: Player)
        ensures
            p == (Player { misses: 0, paddle_x: PADDLE_X_INITIAL, top }),
    {
        Player { misses: 0, paddle_x: (WIDTH as i8 - PADDLE_LEN) / 2, top }
    }

    /// The player and ball after the ball reaches this player's row: hit
    /// when a paddle cell is under it (the outer cells deflect it
    /// sideways), else missed, counted, and a new ball moving away from
    /// this player.
    pub open spec fn spec_collide(self, ball: Ball) -> (Player, Ball, CollideResult) {
        if ball.y == self.spec_paddle_y() {
            let delta = ball.x - self.paddle_x;
            if 0 <= delta < PADDLE_LEN {
                let xd: i8 = if delta == 0 { -1i8 } else if delta == PADDLE_LEN - 1 { 1i8 } else { 0i8 };
                (self, Ball { x_dir: xd, y_dir: (-ball.y_dir) as i8, ..ball }, CollideResult::Hit)
            } else {
                (
                    Player { misses: (self.misses + 1) as u8, ..self },
                    Ball::spec_with_y_dir(if self.top { 1i8 } else { -1i8 }),
                    CollideResult::Missed,
                )
            }
        } else {
            (self, ball, CollideResult::NoCollision)
        }
    }

    /// Checks the ball against this player's paddle.
    pub fn collide_ball(&mut self, ball: &mut Ball) -> (r: CollideResult)
        requires
            old(self).misses < u8::MAX,
            -8 <= old(ball).x <= 8,
            -1 <= old(ball).y_dir <= 1,
            old(self).in_range(),
        ensures
            (*final(self), *final(ball), r) == old(self).spec_collide(*old(ball)),
    {
        if ball.y == self.paddle_y() {
            let delta: i8 = ball.x - self.paddle_x;
            if 0 <= delta && delta <= PADDLE_LEN - 1 {
                ball.x_dir = if delta == 0 {
                    -1
                } else if delta == PADDLE_LEN - 1 {
                    1
                } else {
                    0
                };
                ball.y_dir = -ball.y_dir;
                CollideResult::Hit
            } else {
                *ball = Ball::with_y_dir(if self.top { 1 } else { -1 });
                self.misses = self.misses + 1;
                CollideResult::Missed
            }
        } else {
            CollideResult::NoCollision
        }
    }

    /// Moves the paddle by `val`, kept within its range.
    pub fn move_paddle(&mut self, val: i8)
        requires
            old(self).in_range(),
            -1 <= val <= 1,
        ensures
            final(self).misses == old(self).misses,
            final(self).top == old(self).top,
            final(self).paddle_x == if old(self).paddle_x + val < PADDLE_X_MIN {
                PADDLE_X_MIN as int
            } else if old(self).paddle_x + val > PADDLE_X_MAX {
                PADDLE_X_MAX as int
            } else {
                old(self).paddle_x + val
            },
            final(self).in_range(),
    {
        let v: i8 = self.paddle_x + val;
        self.paddle_x = if v < PADDLE_X_MIN {
            PADDLE_X_MIN
        } else if v > PADDLE_X_MAX {
            PADDLE_X_MAX
        } else {
            v
        };
    }

    /// Puts the paddle back to the middle.
    pub fn reset_paddle(&mut self)
        ensures
            *final(self) == (Player { paddle_x: PADDLE_X_INITIAL, ..*old(self) }),
    {
        self.paddle_x = (WIDTH as i8 - PADDLE_LEN) / 2;
    }

    /// Shows the paddle cells that lie on the matrix.
    pub fn draw_paddle(&self, fb: &mut Framebuffer)
        requires
            self.in_range(),
        ensures
            forall|x: int, y: int|
                0 <= x < WIDTH && 0 <= y < HEIGHT ==> #[trigger] final(fb).px(x, y) == if y == self.spec_paddle_y()
                    && self.covers(x) {
                    PADDLE_BRIGHTNESS
                } else {
                    old(fb).px(x, y)
                },
    {
        let row: usize = self.paddle_y() as usize;
        let mut x: i8 = self.paddle_x;
        while x < self.paddle_x + PADDLE_LEN
            invariant
                self.paddle_x <= x <= self.paddle_x + PADDLE_LEN,
                self.in_range(),
                row == self.spec_paddle_y(),
                forall|a: int, b: int|
                    0 <= a < WIDTH && 0 <= b < HEIGHT ==> #[trigger] fb.px(a, b) == if b == row && self.paddle_x <= a < x {
                        PADDLE_BRIGHTNESS
                    } else {
                        old(fb).px(a, b)
                    },
            decreases self.paddle_x + PADDLE_LEN - x,
        {
            if x >= 0 && (x as usize) < WIDTH {
                fb.store(x as usize, row, PADDLE_BRIGHTNESS);
            }
            x = x + 1;
        }
    }

    /// Shows the miss counter: one lit cell per miss.
    pub fn draw_score(&self, fb: &mut Framebuffer, brightness: u8)
        ensures
            forall|x: int, y: int|
                0 <= x < WIDTH && 0 <= y < HEIGHT ==> #[trigger] final(fb).px(x, y) == if y == self.spec_score_row() && x
                    < self.misses {
                    brightness
                } else {
                    old(fb).px(x, y)
                },
    {
        let row: usize = if self.top { (HEIGHT + 1) / 2 } else { (HEIGHT - 2) / 2 };
        let mut x: usize = 0;
        while x < WIDTH && x < self.misses as usize
            invariant
                x <= WIDTH,
                x <= self.misses,
                row == self.spec_score_row(),
                forall|a: int, b: int|
                    0 <= a < WIDTH && 0 <= b < HEIGHT ==> #[trigger] fb.px(a, b) == if b == row && a < x {
                        brightness
                    } else {
                        old(fb).px(a, b)
                    },
            decreases WIDTH - x,
        {
            fb.store(x, row, brightness);
            x = x + 1;
        }
    }
}

/// The playing field: ball and both players.
#[derive(Debug, Clone, Copy, PartialEq, Eq, Structural)]
pub struct Game {
    pub ball: Ball,
    pub top: Player,
    pub bottom: Player,
}

/// The pong ball period after a hit: 31/32 of the previous one, but at
/// least one matrix frame.
pub open spec fn sped_up(ticks: u32) -> u32 {
    let t = 31 * ticks / 32;
    (if t >= FRAME_TICKS { t } else { FRAME_TICKS as int }) as u32
}

/// A hit speeds the ball up by a 32nd: the new period is the largest
/// whole number of ticks not above 31/32 of the old one, but never less
/// than one matrix frame, so a period above one frame always shrinks.
pub proof fn lemma_hit_speeds_up(t: u32)
    ensures
        FRAME_TICKS <= sped_up(t),
        t > FRAME_TICKS ==> sped_up(t) < t,
        sped_up(t) > FRAME_TICKS ==> 32 * sped_up(t) <= 31 * t < 32 * (sped_up(t) + 1),
        sped_up(t) == FRAME_TICKS ==> 31 * t < 32 * (FRAME_TICKS + 1),
{
}

impl Game {
    /// Whether the game is in a playable state: the ball stays on the
    /// matrix, the paddles in range, and nobody has lost yet.
    pub open spec fn wf(self) -> bool {
        &&& self.ball.on_screen()
        &&& self.top.in_range() && self.bottom.in_range()
        &&& self.top.top && !self.bottom.top
        &&& self.top.misses < SCORE_MAX && self.bottom.misses < SCORE_MAX
    }

    /// Whether the game is over or playable.
    pub open spec fn settled(self) -> bool {
        &&& self.ball.on_screen()
        &&& self.top.in_range() && self.bottom.in_range()
        &&& self.top.top && !self.bottom.top
        &&& self.top.misses <= SCORE_MAX && self.bottom.misses <= SCORE_MAX
    }

    /// The start of a game: ball in the centre moving down, paddles in the
    /// middle, no misses.
    pub open spec fn spec_new() -> Game {
        Game {
            ball: Ball::spec_with_y_dir(1),
            top: Player { misses: 0, paddle_x: PADDLE_X_INITIAL, top: true },
            bottom: Player { misses: 0, paddle_x: PADDLE_X_INITIAL, top: false },
        }
    }

    /// A new game.
    pub fn new() -> (g: Game)
        ensures
            g == Game::spec_new(),
            g.wf(),
    {
        Game { ball: Ball::new(), top: Player::new(true), bottom: Player::new(false) }
    }

    /// The game after one ball step, and the outcome: the ball is checked
    /// against the top then the bottom paddle; after a miss both paddles
    /// return to the middle, otherwise the ball moves.
    pub open spec fn spec_advance(self) -> (Game, CollideResult) {
        let (t1, b1, r1) = self.top.spec_collide(self.ball);
        let (bo1, b2, r2) = self.bottom.spec_collide(b1);
        let (top, bottom, ball, res) = if r1 != CollideResult::NoCollision {
            (t1, self.bottom, b1, r1)
        } else {
            (t1, bo1, b2, r2)
        };
        if res == CollideResult::Missed {
            (
                Game {
                    ball,
                    top: Player { paddle_x: PADDLE_X_INITIAL, ..top },
                    bottom: Player { paddle_x: PADDLE_X_INITIAL, ..bottom },
                },
                res,
            )
        } else {
            (Game { ball: ball.spec_advanced(), top, bottom }, res)
        }
    }

    /// One ball step.
    pub fn advance(&mut self) -> (r: CollideResult)
        requires
            old(self).wf(),
        ensures
            (*final(self), r) == old(self).spec_advance(),
            final(self).settled(),
            r != CollideResult::Missed ==> final(self).wf(),
    {
        let mut res: CollideResult = self.top.collide_ball(&mut self.ball);
        if res == CollideResult::NoCollision {
            res = self.bottom.collide_ball(&mut self.ball);
        }
        if res == CollideResult::Missed {
            self.top.reset_paddle();
            self.bottom.reset_paddle();
        } else {
            self.ball.advance();
        }
        res
    }

    /// Whether one player has missed eight balls.
    pub fn has_ended(&self) -> (b: bool)
        ensures
            b == (self.top.misses == SCORE_MAX || self.bottom.misses == SCORE_MAX),
    {
        self.top.misses == SCORE_MAX || self.bottom.misses == SCORE_MAX
    }

    /// The brightness of pixel `(x, y)` when only the miss counters are
    /// shown, in `brightness`.
    pub open spec fn score_px(self, x: int, y: int, brightness: u8) -> u8 {
        if (y == 5 && x < self.top.misses) || (y == 3 && x < self.bottom.misses) {
            brightness
        } else {
            0
        }
    }

    /// Shows only the miss counters.
    pub fn draw_score(&self, fb: &mut Framebuffer, brightness: u8)
        requires
            self.top.top && !self.bottom.top,
        ensures
            forall|x: int, y: int|
                0 <= x < WIDTH && 0 <= y < HEIGHT ==> #[trigger] final(fb).px(x, y) == self.score_px(x, y, brightness),
    {
        fb.clear_all();
        self.top.draw_score(fb, brightness);
        self.bottom.draw_score(fb, brightness);
    }

    /// The brightness of pixel `(x, y)` in the game view: ball, then
    /// paddles, then the dim miss counters.
    pub open spec fn view_px(self, x: int, y: int) -> u8 {
        if x == self.ball.x && y == self.ball.y {
            BALL_BRIGHTNESS
        } else if (y == 0 && self.top.covers(x)) || (y == HEIGHT - 1 && self.bottom.covers(x)) {
            PADDLE_BRIGHTNESS
        } else {
            self.score_px(x, y, SCORE_BRIGHTNESS)
        }
    }

    /// Shows the game.
    pub fn draw(&self, fb: &mut Framebuffer)
        requires
            self.settled(),
        ensures
            forall|x: int, y: int| 0 <= x < WIDTH && 0 <= y < HEIGHT ==> #[trigger] final(fb).px(x, y) == self.view_px(x, y),
    {
        self.draw_score(fb, SCORE_BRIGHTNESS);
        self.top.draw_paddle(fb);
        self.bottom.draw_paddle(fb);
        self.ball.draw(fb);
    }
}

/// Pong app state: playing (with the time of the next ball step and the
/// ball period) or showing the result until a deadline.
#[derive(Debug, Clone, Copy)]
pub enum TaskState {
    Game(Game, Instant, Duration),
    Score(Instant),
}

/// The pong app.
#[derive(Debug, Clone, Copy)]
pub struct Task(pub TaskState);

/// Whether `fb` shows game `g`.
pub open spec fn shows(g: Game, fb: Framebuffer) -> bool {
    forall|x: int, y: int| 0 <= x < WIDTH && 0 <= y < HEIGHT ==> #[trigger] fb.px(x, y) == g.view_px(x, y)
}

/// The game after a paddle button: Start and Select move the top paddle
/// left and right, L and R the bottom paddle.
pub open spec fn moved(g: Game, b: Button) -> Game {
    let clamp = |v: int| (if v < PADDLE_X_MIN { PADDLE_X_MIN as int } else if v > PADDLE_X_MAX { PADDLE_X_MAX as int } else { v }) as i8;
    match b {
        Button::Start => Game { top: Player { paddle_x: clamp(g.top.paddle_x - 1), ..g.top }, ..g },
        Button::Select => Game { top: Player { paddle_x: clamp(g.top.paddle_x + 1), ..g.top }, ..g },
        Button::L => Game { bottom: Player { paddle_x: clamp(g.bottom.paddle_x - 1), ..g.bottom }, ..g },
        Button::R => Game { bottom: Player { paddle_x: clamp(g.bottom.paddle_x + 1), ..g.bottom }, ..g },
    }
}

impl Task {
    /// Whether the app can take a poll: a playable game with a period
    /// between one frame and the initial period.
    pub open spec fn ready(self) -> bool {
        match self.0 {
            TaskState::Game(g, _, d) => g.wf() && FRAME_TICKS <= d.ticks <= INITIAL_TICKS,
            TaskState::Score(_) => true,
        }
    }

    /// Whether `t` is a game started at `now` and shown on `fb`: the first
    /// ball comes after the reset pause.
    pub open spec fn started(t: Task, now: Instant, fb: Framebuffer) -> bool {
        t.0 matches TaskState::Game(g, ni, d) && g == Game::spec_new() && ni.ticks == wrap_i32(now.ticks
            + RESET_PAUSE_TICKS) && d.ticks == INITIAL_TICKS && shows(g, fb)
    }

    /// A new game at `now`, shown, with the first ball after the reset
    /// pause.
    pub fn new(now: Instant, fb: &mut Framebuffer) -> (t: Task)
        ensures
            t.ready(),
            Task::started(t, now, *final(fb)),
    {
        let game = Game::new();
        game.draw(fb);
        Task(TaskState::Game(game, now.add_duration(Duration::from_ticks(RESET_PAUSE_TICKS)), Duration::from_ticks(INITIAL_TICKS)))
    }

    /// Whether the outputs follow from one poll at `now`: while playing, a
    /// pressed button moves a paddle and redraws; when the next ball step
    /// is due the ball moves, a hit speeds it up, a miss pauses and resets
    /// the speed, and the eighth miss of a player ends the game, showing
    /// the counters for five seconds. The result tells whether that time
    /// is over.
    pub open spec fn polled(
        self,
        next: Task,
        now: Instant,
        b: Buttons,
        b2: Buttons,
        fb: Framebuffer,
        fb2: Framebuffer,
        ret: bool,
    ) -> bool {
        match self.0 {
            TaskState::Game(g, ni, d) => {
                let ev = decode_event(b.signal);
                let pressed = ev matches Some(e) && e.pressed;
                let g1 = if pressed { moved(g, ev.unwrap().button) } else { g };
                let (g2, res) = g1.spec_advance();
                &&& b2.signal == 0 && b2.state == b.state
                &&& !ret
                &&& if ni.spec_le(now) {
                    if res == CollideResult::Missed && (g2.top.misses == SCORE_MAX || g2.bottom.misses == SCORE_MAX) {
                        &&& next.0 == TaskState::Score(Instant { ticks: wrap_i32(now.ticks + SCORE_SHOW_TICKS) as i32 })
                        &&& forall|x: int, y: int|
                            0 <= x < WIDTH && 0 <= y < HEIGHT ==> #[trigger] fb2.px(x, y) == g2.score_px(x, y, END_SCORE_BRIGHTNESS)
                    } else {
                        let d2 = if res == CollideResult::Missed {
                            INITIAL_TICKS
                        } else if res == CollideResult::Hit {
                            sped_up(d.ticks)
                        } else {
                            d.ticks
                        };
                        let step = if res == CollideResult::Missed { RESET_PAUSE_TICKS } else { d2 };
                        &&& next.0 == TaskState::Game(
                            g2,
                            Instant { ticks: wrap_i32(ni.ticks + step) as i32 },
                            Duration { ticks: d2 },
                        )
                        &&& shows(g2, fb2)
                    }
                } else {
                    &&& next.0 == TaskState::Game(g1, ni, d)
                    &&& if pressed { shows(g1, fb2) } else { fb2 == fb }
                }
            },
            TaskState::Score(deadline) => next == self && b2 == b && fb2 == fb && ret == deadline.spec_le(now),
        }
    }

    /// One poll of the pong app at `now`; returns whether it has ended.
    pub fn poll(&mut self, now: Instant, buttons: &mut Buttons, fb: &mut Framebuffer) -> (ret: bool)
        requires
            old(self).ready(),
        ensures
            old(self).polled(*final(self), now, *old(buttons), *final(buttons), *old(fb), *final(fb), ret),
            final(self).ready(),
    {
        match &mut self.0 {
            TaskState::Game(game, next_instant, duration) => {
                if let Some(Event { pressed: true, button }) = buttons.event() {
                    match button {
                        Button::Start => game.top.move_paddle(-1),
                        Button::Select => game.top.move_paddle(1),
                        Button::L => game.bottom.move_paddle(-1),
                        Button::R => game.bottom.move_paddle(1),
                    }
                    game.draw(fb);
                }
                if next_instant.le(&now) {
                    let step: Duration = match game.advance() {
                        CollideResult::Missed => {
                            if game.has_ended() {
                                game.draw_score(fb, END_SCORE_BRIGHTNESS);
                                self.0 = TaskState::Score(now.add_duration(Duration::from_ticks(SCORE_SHOW_TICKS)));
                                return false;
                            } else {
                                *duration = Duration::from_ticks(INITIAL_TICKS);
                                Duration::from_ticks(RESET_PAUSE_TICKS)
                            }
                        },
                        CollideResult::Hit => {
                            let dur: u32 = duration.as_ticks();
                            assert((dur << 5u32) == 32 * dur) by (bit_vector)
                                requires
                                    dur <= 2000,
                            ;
                            let diff: u32 = (dur << 5u32) - dur;
                            let scaled: u32 = diff >> 5u32;
                            assert(scaled == diff / 32) by (bit_vector)
                                requires
                                    scaled == diff >> 5u32,
                            ;
                            *duration = Duration::from_ticks(scaled).max(Duration::from_ticks(FRAME_TICKS));
                            *duration
                        },
                        CollideResult::NoCollision => *duration,
                    };
                    next_instant.add_assign(step);
                    game.draw(fb);
                }
                false
            },
            TaskState::Score(deadline) => deadline.le(&now),
        }
    }
}

} // verus!
