use snake_core::direction::{Bend, Direction, Intent};
use snake_core::game::{Game, GameState};
use snake_core::grid::Cell;

const CELL_SIZE: i32 = 50;
const NO_INTENT: Intent = Intent { up: false, down: false, left: false, right: false };

fn run_frame(game: &mut Game, elapsed: u64, intent: Intent, toggle: bool) -> Option<snake_core::game::StepResult> {
    assert!(game.frame_ok_check(elapsed, intent, toggle));
    game.frame(elapsed, intent, toggle)
}

#[test]
fn one_tick_moves_the_head_one_cell_right() {
    let mut game = Game::new(0, 100);
    // keep the scenario deterministic: the apple sits away from the path
    game.apple = Cell { x: 0, y: 5 };
    let r = run_frame(&mut game, 100, NO_INTENT, false).expect("tick");
    assert_eq!(r.new_head, Cell { x: 1, y: 0 });
    assert_eq!(r.new_head.x * CELL_SIZE, 50);
    assert_eq!(r.new_head.y * CELL_SIZE, 0);
    assert!(!r.ate);
    assert_eq!(r.bend, Bend::Straight);
    assert_eq!(game.chain.length(), 3);
}

#[test]
fn seven_right_ticks_wrap_to_the_left_edge() {
    let mut game = Game::new(0, 100);
    game.apple = Cell { x: 0, y: 5 };
    let mut head = Cell { x: 0, y: 0 };
    for _ in 0..7 {
        let r = run_frame(&mut game, 100, NO_INTENT, false).expect("tick");
        head = r.new_head;
        assert!(!r.ate);
    }
    // the head wrapped to the left edge instead of leaving the torus
    assert_eq!(head, Cell { x: -6, y: 0 });
    assert_eq!(head.x * CELL_SIZE, -300);
    assert_eq!(game.chain.head_cell(), head);
}

#[test]
fn frames_shorter_than_the_period_do_not_tick() {
    let mut game = Game::new(0, 100);
    game.apple = Cell { x: 0, y: 5 };
    assert!(run_frame(&mut game, 40, NO_INTENT, false).is_none());
    assert!(run_frame(&mut game, 40, NO_INTENT, false).is_none());
    // 40 + 40 + 40 reaches the period; exactly one tick fires
    let r = run_frame(&mut game, 40, NO_INTENT, false);
    assert!(r.is_some());
    assert_eq!(game.scheduler.acc_ms, 20);
}

#[test]
fn eating_grows_scores_and_replaces_the_apple() {
    let mut game = Game::new(0, 100);
    game.apple = Cell { x: 1, y: 0 };
    let r = run_frame(&mut game, 100, NO_INTENT, false).expect("tick");
    assert!(r.ate);
    assert_eq!(r.new_head, Cell { x: 1, y: 0 });
    assert_eq!(game.chain.length(), 4);
    assert_eq!(game.scores.score, 1);
    assert_eq!(game.scores.high_score, 1);
    // exactly one save is signalled, carrying the improved record
    assert_eq!(r.new_high, Some(1));
    // the new apple is on the grid and off the snake
    let cells = game.chain.cells_vec();
    assert!(!cells.contains(&game.apple));
    assert_ne!(game.apple, Cell { x: 1, y: 0 });
}

#[test]
fn a_standing_record_is_not_beaten_by_a_lower_score() {
    let mut game = Game::new(5, 100);
    game.apple = Cell { x: 1, y: 0 };
    let r = run_frame(&mut game, 100, NO_INTENT, false).expect("tick");
    assert!(r.ate);
    assert_eq!(game.scores.score, 1);
    assert_eq!(game.scores.high_score, 5);
    assert_eq!(r.new_high, None);
}

#[test]
fn pause_holds_the_countdown_and_resumes_from_the_remainder() {
    let mut game = Game::new(0, 100);
    game.apple = Cell { x: 0, y: 5 };
    // part of the countdown elapses
    assert!(run_frame(&mut game, 60, NO_INTENT, false).is_none());
    assert_eq!(game.scheduler.acc_ms, 60);
    // pause mid-countdown
    assert!(run_frame(&mut game, 0, NO_INTENT, true).is_none());
    assert_eq!(game.state, GameState::Paused);
    // no tick fires while paused, however long the frames
    for _ in 0..10 {
        assert!(run_frame(&mut game, 1000, NO_INTENT, false).is_none());
    }
    assert_eq!(game.scheduler.acc_ms, 60);
    assert_eq!(game.chain.head_cell(), Cell { x: 0, y: 0 });
    // back to running: the countdown picks up at 60, not at zero
    assert!(run_frame(&mut game, 0, NO_INTENT, true).is_none());
    assert_eq!(game.state, GameState::Running);
    assert!(run_frame(&mut game, 39, NO_INTENT, false).is_none());
    let r = run_frame(&mut game, 1, NO_INTENT, false);
    assert!(r.is_some());
}

#[test]
fn intents_steer_the_snake_between_ticks() {
    let mut game = Game::new(0, 100);
    game.apple = Cell { x: 5, y: 5 };
    let up = Intent { up: true, down: false, left: false, right: false };
    let r = run_frame(&mut game, 100, up, false).expect("tick");
    assert_eq!(r.new_head, Cell { x: 0, y: 1 });
    assert_eq!(r.bend, Bend::CounterClockwise);
    // while paused the intent is ignored
    assert!(run_frame(&mut game, 0, NO_INTENT, true).is_none());
    let left = Intent { up: false, down: false, left: true, right: false };
    assert!(run_frame(&mut game, 1000, left, false).is_none());
    assert_eq!(game.dirs.current, Direction::Up);
}

#[test]
fn a_long_steered_run_keeps_the_chain_sound() {
    // drive the game through many ticks with pseudo-random steering and
    // occasional pauses; the chain must keep distinct cells and legal
    // length throughout, and pauses must never move the snake
    let mut game = Game::new(2, 100);
    let mut seed = 0x1357_9bdfu64;
    let mut ticks = 0u32;
    let mut eats = 0u32;
    for round in 0..600u32 {
        seed = seed.wrapping_mul(6364136223846793005).wrapping_add(1442695040888963407);
        let pick = (seed >> 32) % 5;
        let intent = Intent {
            up: pick == 0,
            down: pick == 1,
            left: pick == 2,
            right: pick == 3,
        };
        let toggle = round % 97 == 96;
        if !game.frame_ok_check(100, intent, toggle) {
            // the snake would run into itself on this course; steer on
            continue;
        }
        let len_before = game.chain.length();
        let score_before = game.scores.score;
        match game.frame(100, intent, toggle) {
            Some(step) => {
                ticks += 1;
                if step.ate {
                    eats += 1;
                    assert_eq!(game.chain.length(), len_before + 1);
                    assert_eq!(game.scores.score, score_before + 1);
                } else {
                    assert_eq!(game.chain.length(), len_before);
                    assert_eq!(game.scores.score, score_before);
                }
            },
            None => {
                assert_eq!(game.chain.length(), len_before);
            },
        }
        let cells = game.chain.cells_vec();
        assert!(cells.len() >= 3);
        for i in 0..cells.len() {
            for j in (i + 1)..cells.len() {
                assert_ne!(cells[i], cells[j]);
            }
        }
        assert!(!cells.contains(&game.apple));
    }
    assert!(ticks > 100);
    let _ = eats;
}
