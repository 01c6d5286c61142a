use card25::apps::games::snake::{
    Direction, FbCoordinate, Field, FieldState, Game, GameResult, Task, TaskState, CELLS, HEAD_BRIGHTNESS,
    MAULTASCH_BRIGHTNESS, SNAKE_BRIGHTNESS,
};
use card25::drivers::buttons::Buttons;
use card25::drivers::flash::ScoreFlasher;
use card25::drivers::matrix::Framebuffer;
use card25::time::Instant;
use card25::util::rand::WhiteNoiseGenerator;

#[test]
fn direction_turns() {
    assert_eq!(Direction::Up.cw(), Direction::Right);
    assert_eq!(Direction::Up.ccw(), Direction::Left);
    assert_eq!(Direction::Left.delta(), (-1, 0));
    assert_eq!(Direction::Down.delta(), (0, 1));
}

#[test]
fn turns_undo_law() {
    for d in [Direction::Up, Direction::Right, Direction::Down, Direction::Left] {
        assert_eq!(d.cw().ccw(), d);
        assert_eq!(d.ccw().cw(), d);
        assert_eq!(d.cw().cw().cw().cw(), d);
        let (dx, dy) = d.delta();
        assert_eq!(d.cw().delta(), (-dy, dx));
    }
}

#[test]
fn coordinates_wrap_around() {
    let c = FbCoordinate { x: 0, y: 0 };
    assert_eq!(c.go_dir(Direction::Left), FbCoordinate { x: 7, y: 0 });
    assert_eq!(c.go_dir(Direction::Up), FbCoordinate { x: 0, y: 8 });
    let c = FbCoordinate { x: 7, y: 8 };
    assert_eq!(c.go_dir(Direction::Right), FbCoordinate { x: 0, y: 8 });
    assert_eq!(c.go_dir(Direction::Down), FbCoordinate { x: 7, y: 0 });
    assert_eq!(FbCoordinate::wraparound(9, 9), 0);
    assert_eq!(FbCoordinate::wraparound(-1, 9), 8);
    assert_eq!(FbCoordinate::wraparound(4, 9), 4);
    assert_eq!(FieldState::Snake(Direction::Down).unwrap_dir(), Direction::Down);
}

#[test]
fn random_cell_from_two_bytes() {
    let mut rng = WhiteNoiseGenerator::new();
    // The first bytes are 182 and 219.
    assert_eq!(FbCoordinate::random(&mut rng), FbCoordinate { x: 182 % 8, y: 219 % 9 });
}

#[test]
fn field_shows_its_cells() {
    let mut fb = Framebuffer::new_filled(7);
    let mut f = Field::new(&mut fb);
    assert_eq!(fb.load(3, 3), 0);
    let c = FbCoordinate { x: 2, y: 5 };
    f.set(c, FieldState::SnakeHead, &mut fb);
    assert_eq!(f.get(c), FieldState::SnakeHead);
    assert_eq!(fb.load(2, 5), HEAD_BRIGHTNESS);
    f.set(c, FieldState::Empty, &mut fb);
    assert_eq!(fb.load(2, 5), 0);
}

#[test]
fn maultasch_takes_first_empty_cell() {
    let mut fb = Framebuffer::new();
    let mut f = Field::new(&mut fb);
    let first = FbCoordinate { x: 182 % 8, y: 219 % 9 };
    f.set(first, FieldState::Snake(Direction::Up), &mut fb);
    let mut rng = WhiteNoiseGenerator::new();
    assert!(f.gen_maultasch(&mut rng, &mut fb));
    // The first draw hits the snake; the second pair of bytes decides.
    let second = FbCoordinate { x: 104 % 8, y: 163 % 9 };
    assert_eq!(f.get(second), FieldState::Maultasch);
    assert_eq!(fb.load(second.x as usize, second.y as usize), MAULTASCH_BRIGHTNESS);
    assert_eq!(f.get(first), FieldState::Snake(Direction::Up));
}

#[test]
fn maultasch_finds_last_empty_cell() {
    let mut fb = Framebuffer::new();
    let mut f = Field::new(&mut fb);
    let free = FbCoordinate { x: 5, y: 7 };
    for y in 0..9u8 {
        for x in 0..8u8 {
            let c = FbCoordinate { x, y };
            if c != free {
                f.set(c, FieldState::Snake(Direction::Left), &mut fb);
            }
        }
    }
    assert_eq!(f.find_empty(), Some(free));
    let mut rng = WhiteNoiseGenerator::new();
    assert!(f.gen_maultasch(&mut rng, &mut fb));
    assert_eq!(f.get(free), FieldState::Maultasch);
    assert_eq!(fb.load(5, 7), MAULTASCH_BRIGHTNESS);
    assert_eq!(f.find_empty(), None);
}

#[test]
fn maultasch_on_full_field() {
    let mut fb = Framebuffer::new();
    let mut f = Field::new(&mut fb);
    for y in 0..9u8 {
        for x in 0..8u8 {
            f.set(FbCoordinate { x, y }, FieldState::Snake(Direction::Up), &mut fb);
        }
    }
    let before = fb.clone();
    let mut rng = WhiteNoiseGenerator::new();
    let lfsr = rng.lfsr;
    assert!(!f.gen_maultasch(&mut rng, &mut fb));
    assert_eq!(rng.lfsr, lfsr);
    assert_eq!(fb.0, before.0);
    assert_eq!(f.get(FbCoordinate { x: 3, y: 3 }), FieldState::Snake(Direction::Up));
}

#[test]
fn new_game_and_first_step() {
    let mut fb = Framebuffer::new();
    let mut rng = WhiteNoiseGenerator::new();
    let mut g = Game::new(&mut fb, &mut rng);
    assert_eq!(g.head, FbCoordinate { x: 0, y: 4 });
    assert_eq!(g.length, 1);
    assert_eq!(g.field.get(g.head), FieldState::Snake(Direction::Right));
    assert_eq!(fb.load(0, 4), SNAKE_BRIGHTNESS);
    assert_eq!(g.field.get(FbCoordinate { x: 6, y: 3 }), FieldState::Maultasch);
    assert_eq!(g.advance(&mut rng, &mut fb), None);
    assert_eq!(g.length, 2);
    assert_eq!(g.head, FbCoordinate { x: 1, y: 4 });
    assert_eq!(g.tail, FbCoordinate { x: 0, y: 4 });
    assert_eq!(fb.load(1, 4), HEAD_BRIGHTNESS);
    assert_eq!(g.advance(&mut rng, &mut fb), None);
    assert_eq!(g.tail, FbCoordinate { x: 1, y: 4 });
    assert_eq!(g.field.get(FbCoordinate { x: 0, y: 4 }), FieldState::Empty);
    assert_eq!(fb.load(0, 4), 0);
}

#[test]
fn turning_and_eating() {
    let mut fb = Framebuffer::new();
    let mut rng = WhiteNoiseGenerator::new();
    let mut g = Game::new(&mut fb, &mut rng);
    g.field.set(FbCoordinate { x: 0, y: 3 }, FieldState::Maultasch, &mut fb);
    g.turn_ccw();
    assert_eq!(g.dir_change, -1);
    assert_eq!(g.advance(&mut rng, &mut fb), None);
    assert_eq!(g.dir, Direction::Up);
    assert_eq!(g.dir_change, 0);
    assert_eq!(g.head, FbCoordinate { x: 0, y: 3 });
    assert_eq!(g.score, 1);
    assert_eq!(g.length_increase, 2);
    g.turn_cw();
    assert_eq!(g.advance(&mut rng, &mut fb), None);
    assert_eq!(g.dir, Direction::Right);
}

#[test]
fn running_into_the_snake_loses() {
    let mut fb = Framebuffer::new();
    let mut rng = WhiteNoiseGenerator::new();
    let mut g = Game::new(&mut fb, &mut rng);
    g.field.set(FbCoordinate { x: 1, y: 4 }, FieldState::Snake(Direction::Up), &mut fb);
    assert_eq!(g.advance(&mut rng, &mut fb), Some(GameResult { has_won: false, score: 0 }));
}

#[test]
fn filling_the_matrix_wins() {
    let mut fb = Framebuffer::new();
    let mut rng = WhiteNoiseGenerator::new();
    let mut g = Game::new(&mut fb, &mut rng);
    g.length = CELLS - 1;
    g.score = 77;
    assert_eq!(g.advance(&mut rng, &mut fb), Some(GameResult { has_won: true, score: 77 }));
}

#[test]
fn task_pauses_and_gives_up() {
    let mut fb = Framebuffer::new();
    let mut rng = WhiteNoiseGenerator::new();
    let mut flasher = ScoreFlasher::new([u32::MAX, u32::MAX]);
    let mut buttons = Buttons::new();
    let mut t = Task::new(Instant::from_ticks(0), &mut fb, &mut rng);
    // Start pauses.
    buttons.signal = 128 + 4 + 3;
    assert!(!t.poll(Instant::from_ticks(10), &mut buttons, &mut fb, &mut rng, &mut flasher));
    assert!(matches!(t.0, TaskState::Game(_, _, true)));
    // A due step does nothing while paused.
    let lfsr = rng.lfsr;
    assert!(!t.poll(Instant::from_ticks(5000), &mut buttons, &mut fb, &mut rng, &mut flasher));
    assert_eq!(rng.lfsr, lfsr);
    // Select while paused gives up and shows the score.
    buttons.signal = 128 + 4 + 0;
    assert!(!t.poll(Instant::from_ticks(5001), &mut buttons, &mut fb, &mut rng, &mut flasher));
    assert!(matches!(t.0, TaskState::Score(_)));
}

#[test]
fn task_speeds_up_with_select() {
    let mut fb = Framebuffer::new();
    let mut rng = WhiteNoiseGenerator::new();
    let mut flasher = ScoreFlasher::new([u32::MAX, u32::MAX]);
    let mut buttons = Buttons::new();
    let mut t = Task::new(Instant::from_ticks(0), &mut fb, &mut rng);
    for _ in 0..10 {
        buttons.signal = 128 + 4 + 0;
        t.poll(Instant::from_ticks(1), &mut buttons, &mut fb, &mut rng, &mut flasher);
    }
    match t.0 {
        TaskState::Game(g, clock, paused) => {
            assert!(!paused);
            assert_eq!(clock.duration().as_ticks(), 19);
            assert_eq!(g.multiplier, 128);
        },
        TaskState::Score(_) => panic!("the game should still run"),
    }
}
