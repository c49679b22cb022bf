use pisun_bot::Config;
use pisun_bot::UserData;
use pisun_bot::apply_external_delta;

const DAY: i64 = 86400;
const NOW: i64 = 1_700_000_000;

fn store_with_values(pairs: &[(i64, i32)]) -> Config {
    let mut config = Config::new();
    for &(id, value) in pairs.iter() {
        let reached = apply_external_delta(&mut config, id, value, NOW);
        assert_eq!(reached, value.max(0));
    }
    config
}

#[test]
fn get_or_create_makes_fresh_eligible_record() {
    let mut config = Config::new();
    let user = config.get_or_create_user(99, NOW);
    assert_eq!(user.user_id, 99);
    assert_eq!(user.pisun, 0);
    assert_eq!(user.last_command, NOW - DAY);
    assert_eq!(user.last_train, NOW - DAY);
    // a second call finds the same record instead of creating another
    let again = config.get_or_create_user(99, NOW + 500);
    assert_eq!(again, user);
    assert_eq!(config.get_all_users().len(), 1);
}

#[test]
fn get_user_has_no_side_effects() {
    let config = Config::new();
    assert!(config.get_user(1).is_none());
    assert_eq!(config.get_all_users().len(), 0);
}

#[test]
fn update_unknown_user_is_silent_noop() {
    let mut config = store_with_values(&[(1, 4)]);
    let stray_record = UserData { user_id: 2, pisun: 9, last_command: NOW, last_train: NOW };
    config.update_user(2, stray_record);
    assert!(config.get_user(2).is_none());
    assert_eq!(config.get_all_users().len(), 1);
}

#[test]
fn update_replaces_record() {
    let mut config = store_with_values(&[(1, 4)]);
    let replacement = UserData { user_id: 1, pisun: 11, last_command: NOW, last_train: NOW - DAY };
    config.update_user(1, replacement);
    assert_eq!(config.get_user(1).unwrap(), replacement);
}

#[test]
fn snapshot_sorted_descending() {
    let config = store_with_values(&[(1, 3), (2, 10), (3, 0), (4, 7), (5, 7)]);
    let snap = config.snapshot();
    assert_eq!(snap.len(), 5);
    for w in snap.windows(2) {
        assert!(w[0].pisun >= w[1].pisun);
    }
    assert_eq!(snap[0].pisun, 10);
    assert_eq!(snap[4].pisun, 0);
}

#[test]
fn rank_counts_strictly_greater() {
    let config = store_with_values(&[(1, 5), (2, 3), (3, 5)]);
    // tie-inclusive ranking: both fives share rank 1, the three is third
    let (value, rank, total) = config.get_rank_and_value(1).unwrap();
    assert_eq!((value, rank, total), (5, 1, 3));
    let (value, rank, total) = config.get_rank_and_value(3).unwrap();
    assert_eq!((value, rank, total), (5, 1, 3));
    let (value, rank, total) = config.get_rank_and_value(2).unwrap();
    assert_eq!((value, rank, total), (3, 3, 3));
    assert!(config.get_rank_and_value(4).is_none());
}

#[test]
fn top_n_lists_leading_ranks() {
    let config = store_with_values(&[(1, 3), (2, 10), (3, 0), (4, 7)]);
    let top = config.top_n(3);
    assert_eq!(top, vec![(1, 10), (2, 7), (3, 3)]);
    let all = config.top_n(10);
    assert_eq!(all.len(), 4);
    assert_eq!(all[3], (4, 0));
}

#[test]
fn external_delta_clamps_at_floor() {
    let mut config = Config::new();
    assert_eq!(apply_external_delta(&mut config, 8, -2, NOW), 0);
    assert_eq!(apply_external_delta(&mut config, 8, 3, NOW), 3);
    assert_eq!(apply_external_delta(&mut config, 8, -5, NOW), 0);
    let record = config.get_user(8).unwrap();
    assert_eq!(record.pisun, 0);
    // the ungated channel touches no cooldown timestamp
    assert_eq!(record.last_command, NOW - DAY);
    assert_eq!(record.last_train, NOW - DAY);
}
