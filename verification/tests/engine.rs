use pisun_bot::Config;
use pisun_bot::RollOutcome;
use pisun_bot::TrainingOutcome;
use pisun_bot::apply_delta;
use pisun_bot::attempt_roll;
use pisun_bot::attempt_training;
use pisun_bot::can_use_command;
use pisun_bot::compute_roll;
use pisun_bot::day_number;
use pisun_bot::process_training_result;

fn ts(rfc3339: &str) -> i64 {
    chrono::DateTime::parse_from_rfc3339(rfc3339)
        .expect("timestamp must parse")
        .timestamp()
}

#[test]
fn clamp_never_negative() {
    let deltas = [i32::MIN, -100, -11, -10, -1, 0, 1, 10, i32::MAX];
    let values = [0, 1, 5, 9, 10, 1000, i32::MAX];
    for &v in values.iter() {
        for &d in deltas.iter() {
            assert!(apply_delta(v, d) >= 0);
        }
    }
}

#[test]
fn clamp_exact_values() {
    assert_eq!(apply_delta(0, -10), 0);
    assert_eq!(apply_delta(5, -10), 0);
    assert_eq!(apply_delta(5, -5), 0);
    assert_eq!(apply_delta(5, 3), 8);
    assert_eq!(apply_delta(0, 10), 10);
    assert_eq!(apply_delta(i32::MAX, 10), i32::MAX);
    assert_eq!(apply_delta(i32::MIN + 1, -1), 0);
}

#[test]
fn cooldown_same_day_denied_next_day_allowed() {
    let morning = ts("2024-01-01T00:01:00Z");
    let evening = ts("2024-01-01T23:58:00Z");
    let next_morning = ts("2024-01-02T00:01:00Z");
    assert!(!can_use_command(morning, evening));
    assert!(!can_use_command(morning, morning));
    assert!(can_use_command(evening, next_morning));
    assert!(can_use_command(morning, next_morning));
}

#[test]
fn day_number_boundaries() {
    assert_eq!(day_number(0), 0);
    assert_eq!(day_number(86399), 0);
    assert_eq!(day_number(86400), 1);
    assert_eq!(day_number(-1), -1);
    assert_eq!(day_number(-86400), -1);
    assert_eq!(day_number(-86401), -2);
}

#[test]
fn day_model_matches_utc_calendar() {
    let stamps: [i64; 8] = [-86401, -1, 0, 1, 86399, 86400, 1704103200, 1704153601];
    for &a in stamps.iter() {
        for &b in stamps.iter() {
            let day_a = chrono::DateTime::from_timestamp(a, 0).unwrap().date_naive();
            let day_b = chrono::DateTime::from_timestamp(b, 0).unwrap().date_naive();
            assert_eq!(can_use_command(a, b), day_b > day_a);
        }
    }
}

#[test]
fn roll_at_floor_never_negative() {
    for _ in 0..200 {
        let delta = compute_roll(0);
        assert!((0..=10).contains(&delta));
    }
    for _ in 0..200 {
        let delta = compute_roll(7);
        assert!((-10..=10).contains(&delta));
    }
}

#[test]
fn roll_scenario_new_user() {
    let mut config = Config::new();
    let first = ts("2024-01-01T10:00:00Z");
    match attempt_roll(&mut config, 42, first) {
        RollOutcome::Accepted { old_value, new_value, delta } => {
            assert_eq!(old_value, 0);
            assert!((0..=10).contains(&delta));
            assert_eq!(new_value, delta);
        }
        RollOutcome::Rejected => panic!("first roll of a new user must be accepted"),
    }
    let same_day = ts("2024-01-01T18:30:00Z");
    assert!(matches!(attempt_roll(&mut config, 42, same_day), RollOutcome::Rejected));
    let next_day = ts("2024-01-02T00:00:01Z");
    assert!(matches!(attempt_roll(&mut config, 42, next_day), RollOutcome::Accepted { .. }));
}

#[test]
fn roll_updates_store_value() {
    let mut config = Config::new();
    let now = ts("2024-03-05T12:00:00Z");
    let outcome = attempt_roll(&mut config, 7, now);
    let stored = config.get_user(7).expect("record must exist after a roll");
    match outcome {
        RollOutcome::Accepted { new_value, .. } => {
            assert_eq!(stored.pisun, new_value);
            assert_eq!(stored.last_command, now);
        }
        RollOutcome::Rejected => panic!("first roll of a new user must be accepted"),
    }
}

#[test]
fn training_failure_low_value_costs_nothing() {
    for _ in 0..100 {
        let change = process_training_result(false, 3);
        assert_eq!(change, 0);
        assert_eq!(apply_delta(3, change), 3);
    }
    for _ in 0..100 {
        let change = process_training_result(false, 5);
        assert_eq!(change, 0);
    }
}

#[test]
fn training_failure_high_value_small_penalty() {
    for _ in 0..100 {
        let change = process_training_result(false, 7);
        assert!((-2..=-1).contains(&change));
        let new_value = apply_delta(7, change);
        assert!(new_value == 5 || new_value == 6);
    }
}

#[test]
fn training_success_small_gain() {
    for _ in 0..100 {
        let change = process_training_result(true, 0);
        assert!((1..=3).contains(&change));
    }
}

#[test]
fn training_scenario_cooldown() {
    let mut config = Config::new();
    let now = ts("2024-06-01T09:00:00Z");
    match attempt_training(&mut config, 5, now) {
        TrainingOutcome::Accepted { old_value, new_value, delta, succeeded, exercise } => {
            assert_eq!(old_value, 0);
            assert!(!exercise.description.is_empty());
            assert!([40u8, 50, 60, 70, 80].contains(&exercise.success_percent));
            if succeeded {
                assert!((1..=3).contains(&delta));
                assert_eq!(new_value, delta);
            } else {
                assert_eq!(delta, 0);
                assert_eq!(new_value, 0);
            }
            let stored = config.get_user(5).expect("record must exist after training");
            assert_eq!(stored.pisun, new_value);
            assert_eq!(stored.last_train, now);
        }
        TrainingOutcome::Rejected => panic!("first training of a new user must be accepted"),
    }
    let later_same_day = ts("2024-06-01T22:00:00Z");
    assert!(matches!(
        attempt_training(&mut config, 5, later_same_day),
        TrainingOutcome::Rejected
    ));
    let next_day = ts("2024-06-02T00:30:00Z");
    assert!(matches!(
        attempt_training(&mut config, 5, next_day),
        TrainingOutcome::Accepted { .. }
    ));
}

#[test]
fn roll_and_training_cooldowns_are_independent() {
    let mut config = Config::new();
    let now = ts("2024-06-01T09:00:00Z");
    assert!(matches!(attempt_roll(&mut config, 1, now), RollOutcome::Accepted { .. }));
    // the roll stamps only its own channel; training the same day still goes through
    assert!(matches!(attempt_training(&mut config, 1, now), TrainingOutcome::Accepted { .. }));
}
