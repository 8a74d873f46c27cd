use snake_core::persist::{encode_high_score, load_high_score, reloaded_high_score, LoadError};
use snake_core::scheduler::MovementScheduler;
use snake_core::score::ScoreKeeper;

#[test]
fn high_score_round_trips_at_the_corners() {
    assert_eq!(reloaded_high_score(0), Ok(0));
    assert_eq!(reloaded_high_score(1), Ok(1));
    assert_eq!(reloaded_high_score(4294967295), Ok(4294967295));
}

#[test]
fn missing_save_file_loads_as_zero() {
    assert_eq!(load_high_score(None), Ok(0));
}

#[test]
fn saved_bytes_follow_the_declared_format() {
    // the standard encoding packs small values into one byte and marks
    // wider values with a leading tag, little-endian payload
    assert_eq!(encode_high_score(0), vec![0u8]);
    assert_eq!(encode_high_score(7), vec![7u8]);
    assert_eq!(encode_high_score(250), vec![250u8]);
    assert_eq!(encode_high_score(300), vec![251u8, 44, 1]);
    assert_eq!(load_high_score(Some(vec![251u8, 44, 1])), Ok(300));
}

#[test]
fn corrupt_bytes_are_a_fatal_load_error() {
    // a wide-value tag with no payload behind it cannot decode
    assert_eq!(load_high_score(Some(vec![251u8])), Err(LoadError::Corrupt));
}

#[test]
fn score_rises_and_drags_the_record_up() {
    let mut scores = ScoreKeeper::new(0);
    let save = scores.on_eat();
    assert_eq!(scores.score, 1);
    assert_eq!(scores.high_score, 1);
    assert_eq!(save, Some(1));
    let save = scores.on_eat();
    assert_eq!(scores.score, 2);
    assert_eq!(scores.high_score, 2);
    assert_eq!(save, Some(2));
}

#[test]
fn score_below_the_record_saves_nothing() {
    let mut scores = ScoreKeeper::new(3);
    assert_eq!(scores.on_eat(), None);
    assert_eq!(scores.on_eat(), None);
    assert_eq!(scores.score, 2);
    assert_eq!(scores.high_score, 3);
    // the third eat draws level; the fourth beats the record
    assert_eq!(scores.on_eat(), None);
    assert_eq!(scores.on_eat(), Some(4));
    assert_eq!(scores.high_score, 4);
}

#[test]
fn scheduler_fires_once_per_reached_period() {
    let mut clock = MovementScheduler::new(100);
    assert!(!clock.on_frame(99, true));
    assert_eq!(clock.acc_ms, 99);
    assert!(clock.on_frame(1, true));
    assert_eq!(clock.acc_ms, 0);
    // a long frame fires a single tick and keeps only the remainder
    assert!(clock.on_frame(250, true));
    assert_eq!(clock.acc_ms, 50);
}

#[test]
fn scheduler_does_not_accumulate_while_paused() {
    let mut clock = MovementScheduler::new(100);
    assert!(!clock.on_frame(70, true));
    assert!(!clock.on_frame(500, false));
    assert_eq!(clock.acc_ms, 70);
    assert!(clock.on_frame(30, true));
}
