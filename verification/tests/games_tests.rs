use card25::apps::games::four_in_a_row as fiar;
use card25::apps::games::pong;
use card25::apps::games::tetris;
use card25::apps::games::{
    digits_vec, set_ws2812_led_random, Game, GameSelection, GameTask, ShowScoreTask, ShowScoreTaskState,
    Task,
};
use card25::apps::Main;
use card25::drivers::buttons::{Button, Buttons};
use card25::drivers::flash::ScoreFlasher;
use card25::drivers::matrix::Framebuffer;
use card25::drivers::ws2812::Color;
use card25::time::Instant;
use card25::util::rand::WhiteNoiseGenerator;
use card25::util::text::TEXT_BRIGHTNESS;
use card25::util::ws2812::{FilteredWs2812, Tables};

fn press(b: Button) -> u8 {
    128 + 4 + b.index() as u8
}

#[test]
fn selection_cycles() {
    let mut g = GameSelection::new();
    assert_eq!(g, GameSelection::Tetris);
    g.next();
    assert_eq!(g, GameSelection::Snake);
    assert_eq!(g.to_str(), b" Snake".to_vec());
    assert_eq!(g.high_score_index(), 1);
    g.prev();
    g.prev();
    assert_eq!(g, GameSelection::FourInARow);
    assert_eq!(g.to_str(), b" Four In A Row".to_vec());
}

#[test]
fn selection_next_prev_law() {
    for start in [GameSelection::Tetris, GameSelection::Snake, GameSelection::Pong, GameSelection::FourInARow] {
        let mut g = start;
        g.next();
        g.prev();
        assert_eq!(g, start);
    }
}

#[test]
fn score_display_texts() {
    assert_eq!(digits_vec(0), b"0".to_vec());
    assert_eq!(digits_vec(1234), b"1234".to_vec());
    let mut flasher = ScoreFlasher::new([7, u32::MAX]);
    let mut t = ShowScoreTask::new(Instant::from_ticks(0), GameSelection::Tetris, true, 42, &mut flasher);
    assert_eq!(t.high_score, 7);
    assert_eq!(flasher.scores, [42, u32::MAX]);
    assert_eq!(t.text(), b"Herzlichen Gl\x82ckwunsch!".to_vec());
    assert_eq!(t.brightness(), 2 * TEXT_BRIGHTNESS);
    t.next_state();
    assert_eq!(t.state, ShowScoreTaskState::ScoreText);
    assert_eq!(t.text(), b" Score: ".to_vec());
    assert_eq!(t.brightness(), TEXT_BRIGHTNESS);
    t.next_state();
    assert_eq!(t.text(), b"42".to_vec());
    t.next_state();
    assert_eq!(t.text(), b" High Score: ".to_vec());
    t.next_state();
    assert_eq!(t.text(), b"7".to_vec());
    t.next_state();
    assert_eq!(t.state, ShowScoreTaskState::ScoreText);
}

#[test]
fn score_display_stops_on_start() {
    let mut flasher = ScoreFlasher::new([u32::MAX, u32::MAX]);
    let mut t = ShowScoreTask::new(Instant::from_ticks(0), GameSelection::Snake, false, 3, &mut flasher);
    let mut buttons = Buttons::new();
    let mut fb = Framebuffer::new();
    assert_eq!(t.text(), b"Game Over!".to_vec());
    buttons.signal = press(Button::Start);
    assert!(!t.poll(Instant::from_ticks(1), &mut buttons, &mut fb, &flasher));
    assert_eq!(t.state, ShowScoreTaskState::ScoreText);
    buttons.signal = press(Button::Start);
    assert!(!t.poll(Instant::from_ticks(2), &mut buttons, &mut fb, &flasher));
    flasher.mark_written();
    assert!(t.poll(Instant::from_ticks(3), &mut buttons, &mut fb, &flasher));
}

#[test]
fn button_led_colours() {
    let mut hue = [0u8; 256];
    for (i, h) in hue.iter_mut().enumerate() {
        *h = i as u8;
    }
    let mut rng = WhiteNoiseGenerator::new();
    let mut led = Color::new(0, 0, 0);
    set_ws2812_led_random(&mut led, true, &mut rng, &hue);
    // The first byte is 182.
    assert_eq!(led, Color::new(((182 + 85) % 256) as u8, 182, ((182 + 170) % 256) as u8));
    let lfsr = rng.lfsr;
    set_ws2812_led_random(&mut led, true, &mut rng, &hue);
    assert_eq!(rng.lfsr, lfsr);
    set_ws2812_led_random(&mut led, false, &mut rng, &hue);
    assert_eq!(led, Color::new(0, 0, 0));
}

#[test]
fn tetris_spawns_and_moves() {
    let mut rng = WhiteNoiseGenerator::new();
    let mut t = tetris::Tetris::new(&mut rng);
    // Byte 182 picks piece 182 % 7 = 0, the bar.
    assert_eq!(t.current.shape, (tetris::PIECES[0] as u16) << 4);
    assert_eq!(t.current.x, 2);
    t.input(Button::L);
    assert_eq!(t.current.x, 1);
    t.input(Button::R);
    t.input(Button::R);
    assert_eq!(t.current.x, 3);
    let mut fb = Framebuffer::new();
    assert_eq!(t.tick(&mut rng), None);
    t.draw(&mut fb);
    // The bar lies in the lower row of its bitmap, one row down after the
    // tick.
    assert_eq!(t.current.y, 0);
    assert_eq!(fb.load(3, 1), tetris::PIECE_BRIGHTNESS);
    assert_eq!(fb.load(3, 0), 0);
    assert_eq!(t.score, 0);
}

#[test]
fn tetris_rotate_back_law() {
    for shape in [0x00f0u16, 0x0660, 0x0e40, 0x1234] {
        let mut p = tetris::Piece { shape, x: 0, y: 0 };
        p.rotate(true);
        p.rotate(false);
        assert_eq!(p.shape, shape);
    }
}

#[test]
fn tetris_clears_full_rows() {
    let mut rng = WhiteNoiseGenerator::new();
    let mut t = tetris::Tetris::new(&mut rng);
    t.board = [0, 0, 0, 0, 0, 0, 0, 0x0f, tetris::FULL_ROW];
    t.clear_lines();
    assert_eq!(t.board, [0, 0, 0, 0, 0, 0, 0, 0, 0x0f]);
    assert_eq!(t.score, 1);
}

#[test]
fn pong_ball_and_paddles() {
    let mut g = pong::Game::new();
    assert_eq!(g.ball, pong::Ball { x: 3, y: 4, x_dir: 0, y_dir: 1 });
    for _ in 0..4 {
        assert_eq!(g.advance(), pong::CollideResult::NoCollision);
    }
    assert_eq!(g.ball.y, 8);
    assert_eq!(g.advance(), pong::CollideResult::Hit);
    assert_eq!(g.ball.y_dir, -1);
    g.bottom.move_paddle(10);
    assert_eq!(g.bottom.paddle_x, pong::PADDLE_X_MAX);
    g.bottom.move_paddle(-20);
    assert_eq!(g.bottom.paddle_x, pong::PADDLE_X_MIN);
    assert!(!g.has_ended());
}

#[test]
fn pong_miss_counts() {
    let mut g = pong::Game::new();
    g.bottom.paddle_x = pong::PADDLE_X_MAX;
    for _ in 0..4 {
        g.advance();
    }
    assert_eq!(g.advance(), pong::CollideResult::Missed);
    assert_eq!(g.bottom.misses, 1);
    assert_eq!(g.bottom.paddle_x, pong::PADDLE_X_INITIAL);
    assert_eq!(g.ball.y_dir, -1);
}

#[test]
fn four_in_a_row_moves_and_drops() {
    let mut fb = Framebuffer::new();
    let mut g = fiar::Game::new(&mut fb);
    assert_eq!(g.selected, fiar::SPAWN_X);
    assert_eq!(fb.load(3, fiar::SELECTED_Y), fiar::P1_BRIGHTNESS);
    g.move_left(&mut fb);
    assert_eq!(g.selected, 2);
    assert_eq!(fb.load(3, fiar::SELECTED_Y), 0);
    assert_eq!(fb.load(2, fiar::SELECTED_Y), fiar::P1_BRIGHTNESS);
    g.top_y[1] = 0;
    g.move_left(&mut fb);
    assert_eq!(g.selected, 0);
    g.move_left(&mut fb);
    assert_eq!(g.selected, 6);
    g.move_right(&mut fb);
    assert_eq!(g.selected, 0);
    let mut a = g.drop(Instant::from_ticks(0));
    assert_eq!(g.top_y[0], 5);
    let mut steps = 0;
    let mut t = 616;
    loop {
        let done = a.poll(&g, Instant::from_ticks(t), &mut fb);
        steps += 1;
        if done {
            break;
        }
        t += fiar::DROP_DURATIONS[a.delta_y as usize] as i32;
    }
    assert_eq!(steps, 7);
    assert_eq!(fb.load(0, fiar::BASE_Y + 5), fiar::P1_BRIGHTNESS);
    assert!(g.next_player(Instant::from_ticks(t), &mut fb).is_none());
    assert!(!g.p1_turn);
    assert_eq!(g.selected, 3);
    assert_eq!(fb.load(3, fiar::SELECTED_Y), fiar::P2_BRIGHTNESS);
}

#[test]
fn four_in_a_row_finds_a_line() {
    let mut fb = Framebuffer::new();
    let mut g = fiar::Game::new(&mut fb);
    for x in 1..5 {
        fb.store(x, fiar::BASE_Y + 5, fiar::P1_BRIGHTNESS);
    }
    g.selected = 2;
    g.top_y[2] = 5;
    match g.check_win(Instant::from_ticks(0), &fb) {
        Some(a) => {
            assert_eq!((a.x, a.y, a.dx, a.dy), (4, (fiar::BASE_Y + 5) as u8, 1, 0));
            assert_eq!(a.original_brightness, fiar::P1_BRIGHTNESS);
        },
        None => panic!("four in a row not found"),
    }
    g.p1_turn = false;
    assert!(g.check_win(Instant::from_ticks(0), &fb).is_none());
}

#[test]
fn four_in_a_row_diagonal_and_draw() {
    let mut fb = Framebuffer::new();
    let mut g = fiar::Game::new(&mut fb);
    for i in 0..4usize {
        fb.store(6 - i, fiar::BASE_Y + 2 + i, fiar::P1_BRIGHTNESS);
    }
    g.selected = 4;
    g.top_y[4] = 4;
    match g.check_win(Instant::from_ticks(0), &fb) {
        Some(a) => assert_eq!((a.dx, a.dy), (-1, 1)),
        None => panic!("diagonal not found"),
    }
    let mut fb = Framebuffer::new();
    let mut g = fiar::Game::new(&mut fb);
    g.top_y = [0, 0, 0, 0, 0, 0, 0];
    assert!(matches!(g.next_player(Instant::from_ticks(0), &mut fb), Some(fiar::GameResult::Remis)));
}

#[test]
fn four_in_a_row_task() {
    let mut fb = Framebuffer::new();
    let mut buttons = Buttons::new();
    let mut t = fiar::Task::new(Instant::from_ticks(0), &mut fb);
    buttons.signal = press(Button::R);
    assert!(!t.poll(Instant::from_ticks(1), &mut buttons, &mut fb));
    assert!(matches!(t.state, fiar::TaskState::Game(g, None) if g.selected == 4));
    buttons.signal = press(Button::Start);
    assert!(!t.poll(Instant::from_ticks(2), &mut buttons, &mut fb));
    assert!(matches!(t.state, fiar::TaskState::Game(_, Some(_))));
    // The frame pulses after 20 ms.
    assert!(!t.poll(Instant::from_ticks(200), &mut buttons, &mut fb));
    assert_eq!(fb.load(fiar::WIDTH as usize, fiar::BASE_Y), 1);
}

#[test]
fn game_app_selects_and_starts() {
    let mut fb = Framebuffer::new();
    let mut buttons = Buttons::new();
    let mut rng = WhiteNoiseGenerator::new();
    let mut flasher = ScoreFlasher::new([u32::MAX, u32::MAX]);
    let mut g = GameTask::new(Instant::from_ticks(0));
    buttons.signal = press(Button::Select);
    assert!(!g.poll(Instant::from_ticks(1), &mut buttons, &mut fb, &mut rng, &mut flasher));
    assert!(matches!(g, GameTask::Selecting(GameSelection::Snake, _, _)));
    buttons.signal = press(Button::R);
    g.poll(Instant::from_ticks(2), &mut buttons, &mut fb, &mut rng, &mut flasher);
    buttons.signal = press(Button::R);
    g.poll(Instant::from_ticks(3), &mut buttons, &mut fb, &mut rng, &mut flasher);
    assert!(matches!(g, GameTask::Selecting(GameSelection::FourInARow, _, _)));
    buttons.signal = press(Button::Start);
    assert!(!g.poll(Instant::from_ticks(4), &mut buttons, &mut fb, &mut rng, &mut flasher));
    assert!(matches!(g, GameTask::Started(Game::FourInARow(_))));
}

#[test]
fn game_app_left_leaves() {
    let mut fb = Framebuffer::new();
    let mut buttons = Buttons::new();
    let mut rng = WhiteNoiseGenerator::new();
    let mut flasher = ScoreFlasher::new([u32::MAX, u32::MAX]);
    let mut g = GameTask::new(Instant::from_ticks(0));
    buttons.signal = press(Button::L);
    assert!(g.poll(Instant::from_ticks(1), &mut buttons, &mut fb, &mut rng, &mut flasher));
}

#[test]
fn game_app_button_leds() {
    let tables = Tables { hue: [9; 256], sin: [0; 128] };
    let mut w = FilteredWs2812::new();
    w.target_mut()[1] = Color::new(5, 5, 5);
    let mut t = Task::new(Instant::from_ticks(0), &mut w);
    assert_eq!(w.target[1], Color::new(0, 0, 0));
    let mut fb = Framebuffer::new();
    let mut buttons = Buttons::new();
    buttons.state.0[Button::L.index()] = true;
    let mut rng = WhiteNoiseGenerator::new();
    let mut flasher = ScoreFlasher::new([u32::MAX, u32::MAX]);
    assert!(!t.poll(Instant::from_ticks(100), &mut buttons, &mut fb, &mut w, &mut rng, &mut flasher, &tables));
    assert_eq!(w.target[0], Color::new(9, 9, 9));
    assert_eq!(w.target[2], Color::new(0, 0, 0));
    assert_eq!(w.output[0], Color::new(1, 1, 1));
    assert_eq!(t.ws2812_ticker.expires_at.as_ticks(), 200);
}

#[test]
fn main_switches_apps() {
    let tables = Tables { hue: [0; 256], sin: [0; 128] };
    let mut rng = WhiteNoiseGenerator::new();
    let mut m = Main::new(Instant::from_ticks(0), &mut rng);
    assert!(matches!(m, Main::Animations(_)));
    let mut fb = Framebuffer::new();
    let mut w = FilteredWs2812::new();
    let mut buttons = Buttons::new();
    let mut flasher = ScoreFlasher::new([u32::MAX, u32::MAX]);
    buttons.signal = press(Button::Start);
    m.poll(Instant::from_ticks(1), &mut buttons, &mut fb, &mut w, &mut rng, &mut flasher, &tables);
    assert!(matches!(m, Main::Games(_)));
    buttons.signal = press(Button::L);
    m.poll(Instant::from_ticks(2), &mut buttons, &mut fb, &mut w, &mut rng, &mut flasher, &tables);
    assert!(matches!(m, Main::Animations(_)));
}

#[test]
fn pong_task_runs() {
    let mut fb = Framebuffer::new();
    let mut buttons = Buttons::new();
    let mut t = pong::Task::new(Instant::from_ticks(0), &mut fb);
    buttons.signal = press(Button::L);
    assert!(!t.poll(Instant::from_ticks(1), &mut buttons, &mut fb));
    assert!(matches!(t.0, pong::TaskState::Game(g, _, _) if g.bottom.paddle_x == pong::PADDLE_X_INITIAL - 1));
}

#[test]
fn tetris_task_runs() {
    let mut fb = Framebuffer::new();
    let mut buttons = Buttons::new();
    let mut rng = WhiteNoiseGenerator::new();
    let mut flasher = ScoreFlasher::new([u32::MAX, u32::MAX]);
    let mut t = tetris::Task::new(Instant::from_ticks(0), &mut fb, &mut rng);
    assert!(t.score_fits());
    assert!(!t.poll(Instant::from_ticks(5000), &mut buttons, &mut fb, &mut rng, &mut flasher));
    assert!(matches!(t.0, tetris::TaskState::Game(_, g) if g.current.y == 0));
}

#[test]
fn tetris_piece_bounds() {
    let p = tetris::Piece { shape: 0x0660, x: 0, y: 0 };
    assert_eq!(p._bounds(), ((1, 2), (1, 2)));
    let p = tetris::Piece { shape: 0x00f0, x: 0, y: 0 };
    assert_eq!(p._bounds(), ((0, 3), (1, 1)));
    let p = tetris::Piece { shape: 0, x: 0, y: 0 };
    assert_eq!(p._bounds(), ((4, 0), (4, 0)));
}
