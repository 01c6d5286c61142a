//! The game app: choosing a game, running it, and showing the score.
pub mod four_in_a_row;
pub mod pong;
pub mod snake;
pub mod tetris;

use vstd::prelude::*;
use crate::drivers::buttons::{Button, Buttons, Event, decode_event};
use crate::drivers::flash::ScoreFlasher;
use crate::drivers::matrix::Framebuffer;
use crate::drivers::ws2812::Color;
use crate::time::{Duration, Instant, Ticker};
use crate::util::itoa::{decimal, utoa10};
use crate::util::rand::{WhiteNoiseGenerator, byte_at, state_after};
use crate::util::text::{TextScroller, TEXT_BRIGHTNESS, scrolled, text_duration};
use crate::util::ws2812::{FilteredWs2812, Tables, black};

verus! {

/// Greeting after a won game.
pub const WON_TEXT: [u8; 23] = [72, 101, 114, 122, 108, 105, 99, 104, 101, 110, 32, 71, 108, 130, 99, 107, 119, 117, 110, 115, 99, 104, 33];

/// Greeting after a lost game.
pub const GAME_OVER_TEXT: [u8; 10] = [71, 97, 109, 101, 32, 79, 118, 101, 114, 33];

/// Label before the high score; its tail from byte 5 labels the score.
pub const HIGH_SCORE_TEXT: [u8; 13] = [32, 72, 105, 103, 104, 32, 83, 99, 111, 114, 101, 58, 32];

/// Name of the Tetris game.
pub const TETRIS_NAME: [u8; 7] = [32, 84, 101, 116, 114, 105, 115];

/// Name of the Snake game.
pub const SNAKE_NAME: [u8; 6] = [32, 83, 110, 97, 107, 101];

/// Name of the Pong game.
pub const PONG_NAME: [u8; 5] = [32, 80, 111, 110, 103];

/// Name of the Four in a Row game.
pub const FOUR_IN_A_ROW_NAME: [u8; 14] = [32, 70, 111, 117, 114, 32, 73, 110, 32, 65, 32, 82, 111, 119];

/// A copy of `a` as a vector.
pub fn bytes_to_vec(a: &[u8]) -> (v: Vec<u8>)
    ensures
        v@ == a@,
{
    let mut v: Vec<u8> = Vec::new();
    let mut i: usize = 0;
    while i < a.len()
        invariant
            i <= a.len(),
            v@ == a@.subrange(0, i as int),
        decreases a.len() - i,
    {
        v.push(a[i]);
        i = i + 1;
        assert(v@ =~= a@.subrange(0, i as int));
    }
    v
}

/// The stages of the score display.
#[derive(Debug, PartialEq, Eq, Clone, Copy, Structural)]
pub enum ShowScoreTaskState {
    Greeter,
    ScoreText,
    Score,
    HighScoreText,
    HighScore,
}

/// The stage after `s`: greeter, then score label, score, high score label
/// and high score, repeating from the score label.
pub open spec fn next_stage(s: ShowScoreTaskState) -> ShowScoreTaskState {
    match s {
        ShowScoreTaskState::Greeter => ShowScoreTaskState::ScoreText,
        ShowScoreTaskState::ScoreText => ShowScoreTaskState::Score,
        ShowScoreTaskState::Score => ShowScoreTaskState::HighScoreText,
        ShowScoreTaskState::HighScoreText => ShowScoreTaskState::HighScore,
        ShowScoreTaskState::HighScore => ShowScoreTaskState::ScoreText,
    }
}

/// After the greeting the display cycles through its four stages.
pub proof fn lemma_stages_cycle(s: ShowScoreTaskState)
    requires
        s != ShowScoreTaskState::Greeter,
    ensures
        next_stage(next_stage(next_stage(next_stage(s)))) == s,
        next_stage(s) != ShowScoreTaskState::Greeter,
{
}

/// Score display state.
#[derive(Debug, Clone, Copy)]
pub struct ShowScoreTask {
    pub ticker: Option<Ticker>,
    pub scroller: TextScroller,
    pub state: ShowScoreTaskState,
    pub has_won: bool,
    pub score: u32,
    pub high_score: u32,
}

/// Whether `e` is a press of `b`.
pub open spec fn is_press(e: Option<Event>, b: Button) -> bool {
    e == Some(Event { button: b, pressed: true })
}

impl ShowScoreTask {
    /// The text scrolled in the current stage.
    pub open spec fn spec_text(self) -> Seq<u8> {
        match self.state {
            ShowScoreTaskState::Greeter => if self.has_won { WON_TEXT@ } else { GAME_OVER_TEXT@ },
            ShowScoreTaskState::ScoreText => HIGH_SCORE_TEXT@.subrange(5, HIGH_SCORE_TEXT@.len() as int),
            ShowScoreTaskState::Score => decimal(self.score as nat),
            ShowScoreTaskState::HighScoreText => HIGH_SCORE_TEXT@,
            ShowScoreTaskState::HighScore => decimal(self.high_score as nat),
        }
    }

    /// The brightness of the current stage: the greeting of a won game is
    /// twice as bright.
    pub open spec fn spec_brightness(self) -> u8 {
        if self.state == ShowScoreTaskState::Greeter && self.has_won {
            (2 * TEXT_BRIGHTNESS) as u8
        } else {
            TEXT_BRIGHTNESS
        }
    }

    /// Whether `t` is the start state of a score display at `now` for a
    /// game that ended with `score`, the stored high score being `hs`.
    pub open spec fn is_new(t: ShowScoreTask, now: Instant, has_won: bool, score: u32, hs: u32) -> bool {
        t == ShowScoreTask {
            ticker: Some(Ticker::spec_every(now, 750)),
            scroller: TextScroller::spec_new(),
            state: ShowScoreTaskState::Greeter,
            has_won,
            score,
            high_score: hs,
        }
    }

    /// Starts the score display of `game` at `now`: records `score` as the
    /// new high score if it is one, and keeps the previous high score for
    /// the display.
    pub fn new(now: Instant, game: GameSelection, has_won: bool, score: u32, flasher: &mut ScoreFlasher) -> (t: ShowScoreTask)
        requires
            game == GameSelection::Tetris || game == GameSelection::Snake,
        ensures
            ShowScoreTask::is_new(t, now, has_won, score, old(flasher).high_score_of(game.spec_high_score_index())),
            final(flasher).recorded(
                *old(flasher),
                game.spec_high_score_index(),
                score,
                old(flasher).high_score_of(game.spec_high_score_index()),
            ),
    {
        let high_score: u32 = flasher.new_high_score(game.high_score_index(), score);
        ShowScoreTask {
            ticker: Some(Ticker::every(now, text_duration())),
            scroller: TextScroller::new(),
            state: ShowScoreTaskState::Greeter,
            has_won,
            score,
            high_score,
        }
    }

    /// The display after stage `s` has been completed.
    pub open spec fn spec_next_state(self) -> ShowScoreTask {
        ShowScoreTask { scroller: TextScroller::spec_new(), state: next_stage(self.state), ..self }
    }

    /// Moves on to the next stage.
    pub fn next_state(&mut self)
        ensures
            *final(self) == old(self).spec_next_state(),
    {
        self.scroller = TextScroller::new();
        self.state = match self.state {
            ShowScoreTaskState::Greeter => ShowScoreTaskState::ScoreText,
            ShowScoreTaskState::ScoreText => ShowScoreTaskState::Score,
            ShowScoreTaskState::Score => ShowScoreTaskState::HighScoreText,
            ShowScoreTaskState::HighScoreText => ShowScoreTaskState::HighScore,
            ShowScoreTaskState::HighScore => ShowScoreTaskState::ScoreText,
        };
    }

    /// The text of the current stage.
    pub fn text(&self) -> (t: Vec<u8>)
        ensures
            t@ == self.spec_text(),
    {
        match self.state {
            ShowScoreTaskState::Greeter => {
                if self.has_won {
                    bytes_to_vec(&WON_TEXT)
                } else {
                    bytes_to_vec(&GAME_OVER_TEXT)
                }
            },
            ShowScoreTaskState::ScoreText => {
                let mut v: Vec<u8> = Vec::new();
                let mut i: usize = 5;
                while i < HIGH_SCORE_TEXT.len()
                    invariant
                        5 <= i <= HIGH_SCORE_TEXT@.len(),
                        v@ == HIGH_SCORE_TEXT@.subrange(5, i as int),
                    decreases HIGH_SCORE_TEXT@.len() - i,
                {
                    v.push(HIGH_SCORE_TEXT[i]);
                    i = i + 1;
                    assert(v@ =~= HIGH_SCORE_TEXT@.subrange(5, i as int));
                }
                v
            },
            ShowScoreTaskState::Score => digits_vec(self.score),
            ShowScoreTaskState::HighScoreText => bytes_to_vec(&HIGH_SCORE_TEXT),
            ShowScoreTaskState::HighScore => digits_vec(self.high_score),
        }
    }

    /// The brightness of the current stage.
    pub fn brightness(&self) -> (b: u8)
        ensures
            b == self.spec_brightness(),
    {
        if self.state == ShowScoreTaskState::Greeter && self.has_won {
            2 * TEXT_BRIGHTNESS
        } else {
            TEXT_BRIGHTNESS
        }
    }

    /// The display after a button event `ev`: Start or Select skips the
    /// greeting, and later stops the display after the current stage.
    pub open spec fn handled(self, ev: Option<Event>) -> ShowScoreTask {
        if is_press(ev, Button::Start) || is_press(ev, Button::Select) {
            if self.state == ShowScoreTaskState::Greeter {
                self.spec_next_state()
            } else {
                ShowScoreTask { ticker: None, ..self }
            }
        } else {
            self
        }
    }

    /// Whether `next`, `b2` and `fb2` follow from one poll at `now`: the
    /// pending event is taken and handled, and each text period scrolls the
    /// stage's text by one column, moving on to the next stage at its end.
    /// The result tells whether the display has stopped and the high score
    /// has been written.
    pub open spec fn polled(
        self,
        next: ShowScoreTask,
        now: Instant,
        b: Buttons,
        b2: Buttons,
        fb: Framebuffer,
        fb2: Framebuffer,
        flasher: ScoreFlasher,
        ret: bool,
    ) -> bool {
        let t1 = self.handled(decode_event(b.signal));
        let tick = t1.ticker matches Some(t) && t.expires_at.spec_le(now);
        let text = t1.spec_text();
        let s1 = t1.scroller.stepped(text);
        &&& b2.signal == 0
        &&& b2.state == b.state
        &&& if tick {
            let t2 = ShowScoreTask { ticker: Some(t1.ticker.unwrap().spec_consumed()), scroller: s1, ..t1 };
            &&& scrolled(fb, fb2, t1.scroller, text, t1.spec_brightness())
            &&& next == if s1.pos >= text.len() { t2.spec_next_state() } else { t2 }
        } else {
            next == t1 && fb2 == fb
        }
        &&& ret == (!flasher.dirty && next.ticker is None)
    }

    /// One poll of the score display at `now`.
    pub fn poll(&mut self, now: Instant, buttons: &mut Buttons, fb: &mut Framebuffer, flasher: &ScoreFlasher) -> (ret: bool)
        ensures
            old(self).polled(*final(self), now, *old(buttons), *final(buttons), *old(fb), *final(fb), *flasher, ret),
    {
        match buttons.event() {
            Some(Event { button: Button::Start, pressed: true }) | Some(Event { button: Button::Select, pressed: true }) => {
                if self.state == ShowScoreTaskState::Greeter {
                    self.next_state();
                } else {
                    self.ticker = None;
                }
            },
            _ => {},
        }
        let tick: bool = match &mut self.ticker {
            Some(t) => t.consume_expired(now),
            None => false,
        };
        if tick {
            let text: Vec<u8> = self.text();
            let brightness: u8 = self.brightness();
            if self.scroller.advance_brightness(text.as_slice(), brightness, fb) {
                self.next_state();
            }
        }
        flasher.poll() && self.ticker.is_none()
    }
}

/// The decimal digits of `v` as a vector.
pub fn digits_vec(v: u32) -> (d: Vec<u8>)
    ensures
        d@ == decimal(v as nat),
{
    let mut buf: [u8; 10] = [0u8; 10];
    let n: usize = utoa10(v, &mut buf);
    let mut d: Vec<u8> = Vec::new();
    let mut i: usize = 0;
    while i < n
        invariant
            i <= n <= 10,
            buf@.subrange(0, n as int) == decimal(v as nat),
            d@ == buf@.subrange(0, i as int),
        decreases n - i,
    {
        d.push(buf[i]);
        i = i + 1;
        assert(d@ =~= buf@.subrange(0, i as int));
    }
    d
}

/// The games to choose from.
#[derive(Debug, PartialEq, Eq, Clone, Copy, Structural)]
pub enum GameSelection {
    Tetris,
    Snake,
    Pong,
    FourInARow,
}

/// The position of a game in the selection cycle.
pub open spec fn selection_index(g: GameSelection) -> int {
    match g {
        GameSelection::Tetris => 0,
        GameSelection::Snake => 1,
        GameSelection::Pong => 2,
        GameSelection::FourInARow => 3,
    }
}

impl GameSelection {
    /// The first game, Tetris.
    pub fn new() -> (g: GameSelection)
        ensures
            g == GameSelection::Tetris,
    {
        GameSelection::Tetris
    }

    /// Selects the next game of the cycle Tetris, Snake, Pong, Four in a Row.
    pub fn next(&mut self)
        ensures
            selection_index(*final(self)) == (selection_index(*old(self)) + 1) % 4,
    {
        *self = match self {
            GameSelection::Tetris => GameSelection::Snake,
            GameSelection::Snake => GameSelection::Pong,
            GameSelection::Pong => GameSelection::FourInARow,
            GameSelection::FourInARow => GameSelection::Tetris,
        }
    }

    /// Selects the previous game of the cycle.
    pub fn prev(&mut self)
        ensures
            selection_index(*final(self)) == (selection_index(*old(self)) + 3) % 4,
    {
        *self = match self {
            GameSelection::Snake => GameSelection::Tetris,
            GameSelection::Pong => GameSelection::Snake,
            GameSelection::FourInARow => GameSelection::Pong,
            GameSelection::Tetris => GameSelection::FourInARow,
        }
    }

    /// The name shown for the game.
    pub open spec fn spec_name(self) -> Seq<u8> {
        match self {
            GameSelection::Tetris => TETRIS_NAME@,
            GameSelection::Snake => SNAKE_NAME@,
            GameSelection::Pong => PONG_NAME@,
            GameSelection::FourInARow => FOUR_IN_A_ROW_NAME@,
        }
    }

    /// The name shown for the game.
    pub fn to_str(self) -> (s: Vec<u8>)
        ensures
            s@ == self.spec_name(),
    {
        match self {
            GameSelection::Tetris => bytes_to_vec(&TETRIS_NAME),
            GameSelection::Snake => bytes_to_vec(&SNAKE_NAME),
            GameSelection::Pong => bytes_to_vec(&PONG_NAME),
            GameSelection::FourInARow => bytes_to_vec(&FOUR_IN_A_ROW_NAME),
        }
    }

    /// The high score slot of the game.
    pub open spec fn spec_high_score_index(self) -> usize {
        match self {
            GameSelection::Snake => 1,
            _ => 0,
        }
    }

    /// The high score slot of the game; only Tetris and Snake keep one.
    pub fn high_score_index(self) -> (i: usize)
        requires
            self == GameSelection::Tetris || self == GameSelection::Snake,
        ensures
            i == self.spec_high_score_index(),
            i < 2,
    {
        match self {
            GameSelection::Snake => 1,
            _ => 0,
        }
    }
}

/// Stepping forward then back through the selection returns to the
/// same game.
pub proof fn lemma_selection_next_prev(g: GameSelection, h: GameSelection, k: GameSelection)
    requires
        selection_index(h) == (selection_index(g) + 1) % 4,
        selection_index(k) == (selection_index(h) + 3) % 4,
    ensures
        k == g,
{
}

/// The random colour of a button LED, drawn from byte `0` and the hue table.
pub open spec fn random_led(hue: [u8; 256], s: u32) -> Color {
    let ang = byte_at(s, 0) as int;
    Color { r: hue@[(ang + 85) % 256], g: hue@[ang % 256], b: hue@[(ang + 170) % 256] }
}

/// The colour of a button LED and the register state after
/// `set_ws2812_led_random` with register state `s`.
pub open spec fn led_update(led: Color, enabled: bool, s: u32, hue: [u8; 256]) -> (Color, u32) {
    if !enabled {
        (black(), s)
    } else if led == black() {
        (random_led(hue, s), state_after(s, 1))
    } else {
        (led, s)
    }
}

/// Lights `led` in a random colour while `enabled` (keeping a colour it
/// already has), and darkens it otherwise.
pub fn set_ws2812_led_random(led: &mut Color, enabled: bool, noisegen: &mut WhiteNoiseGenerator, hue: &[u8; 256])
    ensures
        *final(led) == if !enabled {
            black()
        } else if *old(led) == black() {
            random_led(*hue, old(noisegen).lfsr)
        } else {
            *old(led)
        },
        final(noisegen).lfsr == if enabled && *old(led) == black() {
            state_after(old(noisegen).lfsr, 1)
        } else {
            old(noisegen).lfsr
        },
{
    if enabled {
        if *led == Color::new(0, 0, 0) {
            let ang: usize = noisegen.rand8() as usize;
            led.set_r(hue[(ang + 85) % 256]);
            led.set_g(hue[ang % 256]);
            led.set_b(hue[(ang + 170) % 256]);
        }
    } else {
        *led = Color::new(0, 0, 0);
    }
}

/// A running game.
#[derive(Debug, Clone, Copy)]
pub enum Game {
    Tetris(tetris::Task),
    Snake(snake::Task),
    Pong(pong::Task),
    FourInARow(four_in_a_row::Task),
}

impl Game {
    /// Whether the game can take a poll. Tetris is only polled while its
    /// score leaves room, which `poll` checks.
    pub open spec fn ready(self) -> bool {
        match self {
            Game::Tetris(t) => t.0 matches tetris::TaskState::Game(_, g) ==> g.valid(),
            Game::Snake(t) => t.ready(),
            Game::Pong(t) => t.ready(),
            Game::FourInARow(t) => t.ready(),
        }
    }

    /// Whether `fb` shows the game where the game relies on it.
    pub open spec fn shown(self, fb: Framebuffer) -> bool {
        match self {
            Game::Snake(t) => t.shown(fb),
            _ => true,
        }
    }

    /// Whether `g` is the game `selection` started at `now` with register
    /// state `s`, leaving state `s2`, and shown on `fb`.
    pub open spec fn started(g: Game, selection: GameSelection, now: Instant, s: u32, s2: u32, fb: Framebuffer) -> bool {
        match selection {
            GameSelection::Tetris => g matches Game::Tetris(t) && tetris::Task::started(t, now, s, s2, fb),
            GameSelection::Snake => g matches Game::Snake(t) && snake::Task::started(t, now, s, s2) && t.shown(fb),
            GameSelection::Pong => g matches Game::Pong(t) && pong::Task::started(t, now, fb) && s2 == s,
            GameSelection::FourInARow => g matches Game::FourInARow(t) && four_in_a_row::Task::started(t, now, fb)
                && s2 == s,
        }
    }

    /// Starts the selected game at `now`.
    pub fn from_selection(
        selection: GameSelection,
        now: Instant,
        fb: &mut Framebuffer,
        rng: &mut WhiteNoiseGenerator,
    ) -> (g: Game)
        ensures
            Game::started(g, selection, now, old(rng).lfsr, final(rng).lfsr, *final(fb)),
            g.ready(),
            g.shown(*final(fb)),
    {
        match selection {
            GameSelection::Tetris => Game::Tetris(tetris::Task::new(now, fb, rng)),
            GameSelection::Snake => Game::Snake(snake::Task::new(now, fb, rng)),
            GameSelection::Pong => Game::Pong(pong::Task::new(now, fb)),
            GameSelection::FourInARow => Game::FourInARow(four_in_a_row::Task::new(now, fb)),
        }
    }

    /// Whether the outputs follow from one poll at `now`: the running game
    /// is polled; a Tetris game whose score leaves no room stands still.
    pub open spec fn polled(
        self,
        next: Game,
        now: Instant,
        b: Buttons,
        b2: Buttons,
        fb: Framebuffer,
        fb2: Framebuffer,
        s: u32,
        s2: u32,
        f: ScoreFlasher,
        f2: ScoreFlasher,
        ret: bool,
    ) -> bool {
        match self {
            Game::Tetris(t) => next matches Game::Tetris(t2) && if t.ready() {
                t.polled(t2, now, b, b2, fb, fb2, s, s2, f, f2, ret)
            } else {
                t2 == t && b2 == b && fb2 == fb && s2 == s && f2 == f && !ret
            },
            Game::Snake(t) => next matches Game::Snake(t2) && t.polled(t2, now, b, b2, fb, fb2, s, s2, f, f2, ret),
            Game::Pong(t) => next matches Game::Pong(t2) && t.polled(t2, now, b, b2, fb, fb2, ret) && s2 == s && f2
                == f,
            Game::FourInARow(t) => next matches Game::FourInARow(t2) && t.polled(t2, now, b, b2, fb, fb2, ret)
                && s2 == s && f2 == f,
        }
    }

    /// One poll of the running game at `now`; returns whether it has
    /// ended.
    pub fn poll(
        &mut self,
        now: Instant,
        buttons: &mut Buttons,
        fb: &mut Framebuffer,
        rng: &mut WhiteNoiseGenerator,
        flasher: &mut ScoreFlasher,
    ) -> (ret: bool)
        requires
            old(self).ready(),
            old(self).shown(*old(fb)),
        ensures
            old(self).polled(
                *final(self),
                now,
                *old(buttons),
                *final(buttons),
                *old(fb),
                *final(fb),
                old(rng).lfsr,
                final(rng).lfsr,
                *old(flasher),
                *final(flasher),
                ret,
            ),
            final(self).ready(),
            final(self).shown(*final(fb)),
    {
        match self {
            Game::Tetris(task) => {
                if task.score_fits() {
                    task.poll(now, buttons, fb, rng, flasher)
                } else {
                    false
                }
            },
            Game::Snake(task) => task.poll(now, buttons, fb, rng, flasher),
            Game::Pong(task) => task.poll(now, buttons, fb),
            Game::FourInARow(task) => task.poll(now, buttons, fb),
        }
    }
}

/// Whether `next`, `fb2`, `s2` and `ret` follow from handling event `ev`
/// at `now` while choosing `sel`, with ticker `tk` and scroller `sc` after
/// the scroll step and framebuffer `fb`: a pressed button restarts the
/// name; Start starts the game, Select and R step through the games, L
/// leaves the app.
pub open spec fn chosen(
    sel: GameSelection,
    tk: Ticker,
    sc: TextScroller,
    ev: Option<Event>,
    next: GameTask,
    now: Instant,
    fb: Framebuffer,
    fb2: Framebuffer,
    s: u32,
    s2: u32,
    ret: bool,
) -> bool {
    if ev matches Some(e) && e.pressed {
        let btn = ev.unwrap().button;
        let sc2 = TextScroller::spec_new();
        if btn == Button::Start {
            &&& !ret
            &&& next matches GameTask::Started(g) && Game::started(g, sel, now, s, s2, fb2)
        } else if btn == Button::L {
            ret && next == GameTask::Selecting(sel, tk, sc2) && fb2 == fb && s2 == s
        } else {
            let step: int = if btn == Button::Select { 1 } else { 3 };
            &&& !ret
            &&& next matches GameTask::Selecting(sel2, tk2, sc3) && selection_index(sel2) == (selection_index(sel)
                + step) % 4 && tk2 == tk && sc3 == sc2
            &&& fb2 == fb
            &&& s2 == s
        }
    } else {
        !ret && next == GameTask::Selecting(sel, tk, sc) && fb2 == fb && s2 == s
    }
}

/// Whether the outputs follow from one poll at `now` while choosing
/// `sel` with ticker `tk` and scroller `sc`: each text period scrolls the
/// name (starting over at its end), then the pending event is handled.
pub open spec fn selecting_polled(
    sel: GameSelection,
    tk: Ticker,
    sc: TextScroller,
    next: GameTask,
    now: Instant,
    b: Buttons,
    b2: Buttons,
    fb: Framebuffer,
    fb2: Framebuffer,
    s: u32,
    s2: u32,
    f: ScoreFlasher,
    f2: ScoreFlasher,
    ret: bool,
) -> bool {
    &&& b2.signal == 0
    &&& b2.state == b.state
    &&& f2 == f
    &&& exists|fb1: Framebuffer|
        #[trigger] name_scrolled(sel, tk, sc, now, fb, fb1) && chosen(
            sel,
            ticked(tk, now),
            name_scroller(sel, tk, sc, now),
            decode_event(b.signal),
            next,
            now,
            fb1,
            fb2,
            s,
            s2,
            ret,
        )
}

/// The ticker after a poll at `now`: one period on when it ran out.
pub open spec fn ticked(tk: Ticker, now: Instant) -> Ticker {
    if tk.expires_at.spec_le(now) {
        tk.spec_consumed()
    } else {
        tk
    }
}

/// The scroller of the name of `sel` after a poll at `now`: one step on
/// when the ticker ran out, starting over at the end of the name.
pub open spec fn name_scroller(sel: GameSelection, tk: Ticker, sc: TextScroller, now: Instant) -> TextScroller {
    let name = sel.spec_name();
    if tk.expires_at.spec_le(now) {
        if sc.stepped(name).pos >= name.len() {
            TextScroller::spec_new()
        } else {
            sc.stepped(name)
        }
    } else {
        sc
    }
}

/// Whether `fb1` follows from `fb` by scrolling the name of `sel` one step
/// when the ticker ran out at `now`.
pub open spec fn name_scrolled(sel: GameSelection, tk: Ticker, sc: TextScroller, now: Instant, fb: Framebuffer, fb1: Framebuffer) -> bool {
    if tk.expires_at.spec_le(now) {
        scrolled(fb, fb1, sc, sel.spec_name(), TEXT_BRIGHTNESS)
    } else {
        fb1 == fb
    }
}

/// The game app's phase: choosing a game (its name scrolling by) or
/// playing it.
#[derive(Debug, Clone, Copy)]
pub enum GameTask {
    Selecting(GameSelection, Ticker, TextScroller),
    Started(Game),
}

impl GameTask {
    /// Choosing, starting with Tetris, at `now`.
    pub open spec fn spec_new(now: Instant) -> GameTask {
        GameTask::Selecting(GameSelection::Tetris, Ticker::spec_every(now, 750), TextScroller::spec_new())
    }

    /// Starts choosing at `now`.
    pub fn new(now: Instant) -> (t: GameTask)
        ensures
            t == GameTask::spec_new(now),
    {
        GameTask::Selecting(GameSelection::new(), Ticker::every(now, text_duration()), TextScroller::new())
    }

    /// Whether the phase can take a poll.
    pub open spec fn ready(self) -> bool {
        match self {
            GameTask::Selecting(..) => true,
            GameTask::Started(g) => g.ready(),
        }
    }

    /// Whether `fb` shows the running game where it relies on it.
    pub open spec fn shown(self, fb: Framebuffer) -> bool {
        match self {
            GameTask::Selecting(..) => true,
            GameTask::Started(g) => g.shown(fb),
        }
    }

    /// Whether the outputs follow from one poll at `now`: while choosing,
    /// each text period scrolls the name (starting over at its end); a
    /// pressed button restarts the name: Start starts the game, Select and
    /// R step through the games, L leaves the app (the result is `true`).
    /// A running game is polled.
    pub open spec fn polled(
        self,
        next: GameTask,
        now: Instant,
        b: Buttons,
        b2: Buttons,
        fb: Framebuffer,
        fb2: Framebuffer,
        s: u32,
        s2: u32,
        f: ScoreFlasher,
        f2: ScoreFlasher,
        ret: bool,
    ) -> bool {
        match self {
            GameTask::Selecting(sel, tk, sc) => selecting_polled(sel, tk, sc, next, now, b, b2, fb, fb2, s, s2, f, f2, ret),
            GameTask::Started(g) => next matches GameTask::Started(g2) && g.polled(
                g2,
                now,
                b,
                b2,
                fb,
                fb2,
                s,
                s2,
                f,
                f2,
                ret,
            ),
        }
    }

    /// One poll of the phase at `now`; returns whether the player left.
    pub fn poll(
        &mut self,
        now: Instant,
        buttons: &mut Buttons,
        fb: &mut Framebuffer,
        rng: &mut WhiteNoiseGenerator,
        flasher: &mut ScoreFlasher,
    ) -> (ret: bool)
        requires
            old(self).ready(),
            old(self).shown(*old(fb)),
        ensures
            old(self).polled(
                *final(self),
                now,
                *old(buttons),
                *final(buttons),
                *old(fb),
                *final(fb),
                old(rng).lfsr,
                final(rng).lfsr,
                *old(flasher),
                *final(flasher),
                ret,
            ),
            final(self).ready(),
            final(self).shown(*final(fb)),
    {
        let ghost t0 = *self;
        let ghost b0 = *buttons;
        let ghost s0 = rng.lfsr;
        let ghost f0 = *flasher;
        let ghost fb0 = *fb;
        match *self {
            GameTask::Selecting(sel, ticker, scroller) => {
                assert(t0 == GameTask::Selecting(sel, ticker, scroller));
                let mut ticker = ticker;
                let mut scroller = scroller;
                if ticker.consume_expired(now) {
                    let text: Vec<u8> = sel.to_str();
                    if scroller.advance(text.as_slice(), fb) {
                        scroller = TextScroller::new();
                    }
                }
                let ghost fb1 = *fb;
                assert(name_scrolled(sel, t0->Selecting_1, t0->Selecting_2, now, fb0, fb1));
                assert(ticker == ticked(t0->Selecting_1, now));
                assert(scroller == name_scroller(sel, t0->Selecting_1, t0->Selecting_2, now));
                let mut selection: GameSelection = sel;
                if let Some(Event { pressed: true, button }) = buttons.event() {
                    match button {
                        Button::Start => {
                            let g = Game::from_selection(selection, now, fb, rng);
                            *self = GameTask::Started(g);
                            assert(chosen(sel, ticker, scroller, decode_event(b0.signal), *self, now, fb1, *fb, s0, rng.lfsr, false));
                            return false;
                        },
                        Button::Select => {
                            selection.next();
                        },
                        Button::L => {
                            *self = GameTask::Selecting(selection, ticker, TextScroller::new());
                            assert(chosen(sel, ticker, scroller, decode_event(b0.signal), *self, now, fb1, *fb, s0, rng.lfsr, true));
                            return true;
                        },
                        Button::R => {
                            selection.prev();
                        },
                    }
                    *self = GameTask::Selecting(selection, ticker, TextScroller::new());
                } else {
                    *self = GameTask::Selecting(sel, ticker, scroller);
                }
                assert(chosen(sel, ticker, scroller, decode_event(b0.signal), *self, now, fb1, *fb, s0, rng.lfsr, false));
                false
            },
            GameTask::Started(game) => {
                let mut game = game;
                let r = game.poll(now, buttons, fb, rng, flasher);
                *self = GameTask::Started(game);
                r
            },
        }
    }
}

/// Button LEDs refresh period, in ticks (10 ms).
pub const LED_TICKS: u32 = 100;

/// The game app: the chosen or running game, and the button LEDs, which
/// light up in a random colour while their button is held.
#[derive(Debug, Clone, Copy)]
pub struct Task {
    pub game: GameTask,
    pub ws2812_ticker: Ticker,
}

/// The chain targets with the four button LEDs updated for the buttons
/// held in `b`, drawing from register state `s`, and the state after.
pub open spec fn button_leds(target: [Color; 6], b: Buttons, s: u32, hue: [u8; 256]) -> (Seq<Color>, u32) {
    let (c0, s1) = led_update(target@[0], b.state.0@[Button::L.spec_index()], s, hue);
    let (c2, s2) = led_update(target@[2], b.state.0@[Button::Start.spec_index()], s1, hue);
    let (c3, s3) = led_update(target@[3], b.state.0@[Button::Select.spec_index()], s2, hue);
    let (c5, s4) = led_update(target@[5], b.state.0@[Button::R.spec_index()], s3, hue);
    (target@.update(0, c0).update(2, c2).update(3, c3).update(5, c5), s4)
}

impl Task {
    /// Whether the app can take a poll.
    pub open spec fn ready(self) -> bool {
        self.game.ready()
    }

    /// Whether `fb` shows the running game where it relies on it.
    pub open spec fn shown(self, fb: Framebuffer) -> bool {
        self.game.shown(fb)
    }

    /// Whether `t` and `w2` are the app started at `now` on chain `w`:
    /// choosing, the LEDs between the buttons dark.
    pub open spec fn started(t: Task, now: Instant, w: FilteredWs2812, w2: FilteredWs2812) -> bool {
        &&& t.game == GameTask::spec_new(now)
        &&& t.ws2812_ticker == Ticker::spec_every(now, LED_TICKS)
        &&& w2 == FilteredWs2812 { target: w2.target, ..w }
        &&& w2.target@ == w.target@.update(1, black()).update(4, black())
    }

    /// Starts the app at `now`, darkening the LEDs between the buttons.
    pub fn new(now: Instant, ws2812: &mut FilteredWs2812) -> (t: Task)
        ensures
            Task::started(t, now, *old(ws2812), *final(ws2812)),
            t.ready(),
    {
        let leds = ws2812.target_mut();
        let mut target: [Color; 6] = *leds;
        target[1] = Color::new(0, 0, 0);
        target[4] = Color::new(0, 0, 0);
        *leds = target;
        Task { game: GameTask::new(now), ws2812_ticker: Ticker::every(now, Duration::from_millis(10)) }
    }

    /// Whether the outputs follow from one poll at `now`: when the LED
    /// period has run out, the button LEDs are updated and, if the chain
    /// took the previous frame, the filter steps and the period moves on;
    /// then the game phase is polled.
    pub open spec fn polled(
        self,
        next: Task,
        now: Instant,
        b: Buttons,
        b2: Buttons,
        fb: Framebuffer,
        fb2: Framebuffer,
        w: FilteredWs2812,
        w2: FilteredWs2812,
        s: u32,
        s2: u32,
        f: ScoreFlasher,
        f2: ScoreFlasher,
        tables: Tables,
        ret: bool,
    ) -> bool {
        let due = self.ws2812_ticker.expires_at.spec_le(now);
        let leds = button_leds(w.target, b, s, tables.hue);
        let s1 = if due { leds.1 } else { s };
        &&& if due {
            exists|w1: FilteredWs2812|
                #[trigger] w1.tried_update(w2) && w1 == FilteredWs2812 { target: w1.target, ..w } && w1.target@ == leds.0
                    && next.ws2812_ticker == if w.pending {
                    self.ws2812_ticker
                } else {
                    self.ws2812_ticker.spec_consumed()
                }
        } else {
            w2 == w && next.ws2812_ticker == self.ws2812_ticker
        }
        &&& self.game.polled(next.game, now, b, b2, fb, fb2, s1, s2, f, f2, ret)
    }

    /// One poll of the app at `now`; returns whether the player left it.
    pub fn poll(
        &mut self,
        now: Instant,
        buttons: &mut Buttons,
        fb: &mut Framebuffer,
        ws2812: &mut FilteredWs2812,
        rng: &mut WhiteNoiseGenerator,
        flasher: &mut ScoreFlasher,
        tables: &Tables,
    ) -> (ret: bool)
        requires
            old(self).ready(),
            old(self).shown(*old(fb)),
        ensures
            old(self).polled(
                *final(self),
                now,
                *old(buttons),
                *final(buttons),
                *old(fb),
                *final(fb),
                *old(ws2812),
                *final(ws2812),
                old(rng).lfsr,
                final(rng).lfsr,
                *old(flasher),
                *final(flasher),
                *tables,
                ret,
            ),
            final(self).ready(),
            final(self).shown(*final(fb)),
    {
        let ghost w0 = *ws2812;
        let ghost s0 = rng.lfsr;
        let ghost tk0 = self.ws2812_ticker;
        if self.ws2812_ticker.expired(now) {
            let leds = ws2812.target_mut();
            let mut target: [Color; 6] = *leds;
            let mut c: Color = target[0];
            set_ws2812_led_random(&mut c, buttons.get(Button::L), rng, &tables.hue);
            target[0] = c;
            let mut c: Color = target[2];
            set_ws2812_led_random(&mut c, buttons.get(Button::Start), rng, &tables.hue);
            target[2] = c;
            let mut c: Color = target[3];
            set_ws2812_led_random(&mut c, buttons.get(Button::Select), rng, &tables.hue);
            target[3] = c;
            let mut c: Color = target[5];
            set_ws2812_led_random(&mut c, buttons.get(Button::R), rng, &tables.hue);
            target[5] = c;
            *leds = target;
            let ghost w1 = *ws2812;
            assert(w1.target@ == button_leds(w0.target, *buttons, s0, tables.hue).0);
            if ws2812.try_update() {
                self.ws2812_ticker.consume_next();
            }
            assert(w1.tried_update(*ws2812));
        }
        self.game.poll(now, buttons, fb, rng, flasher)
    }
}

} // verus!
