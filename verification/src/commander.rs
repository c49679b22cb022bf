//! The command set and the mutation engine: the dice-roll and training
//! policies, the clamp that keeps the counter non-negative, the weather
//! side-effect policy, and the cooldown-gated entry points that tie them to
//! the store.

use vstd::prelude::*;
use rand::Rng;
use crate::config::Config;
use crate::config::has_user;
use crate::config::user_at;
use crate::config::user_index;
use crate::config::unique_ids;
use crate::dates::lemma_day_before_is_earlier;
use crate::dates::spec_can_use;
use crate::dates::can_use_command;
use crate::training::TrainingExercise;
use crate::training::generate_training_exercise;
use crate::training::is_catalog_exercise;
use crate::user_data::SECONDS_PER_DAY;
use crate::user_data::UserData;

verus! {

/// The commands the chat layer dispatches on. Parsing the command text and
/// rendering replies belong to that layer; the engine only acts on the
/// variants that mutate or read the store.
#[derive(Clone, Copy, Debug, PartialEq, Eq, Structural)]
pub enum Command {
    Pisun,
    Train,
    Top,
    Size,
    RandomMovie,
    Anekdot,
    Weather,
    Meme,
    Wisdom,
    Hangover,
}

/// Relies on rand::Rng::gen_range over `low..=high`: it panics on an empty
/// range and otherwise returns a value of the range.
#[verifier::external_body]
pub(crate) fn generate_random_change(low: i32, high: i32) -> (r: i32)
    requires
        low <= high,
    ensures
        low <= r <= high,
{
    rand::thread_rng().gen_range(low..=high)
}

/// The counter after a delta: `value + delta`, clamped below at zero, and
/// saturated above at the width of the counter.
pub open spec fn clamped_value(v: int, d: int) -> int {
    if v + d < 0 {
        0
    } else if v + d > i32::MAX {
        i32::MAX as int
    } else {
        v + d
    }
}

/// Applies a delta to the counter. Every mutation path goes through this
/// clamp, so no caller ever observes a negative counter.
pub fn apply_delta(value: i32, delta: i32) -> (r: i32)
    ensures
        r == clamped_value(value as int, delta as int),
        r >= 0,
{
    let s: i64 = value as i64 + delta as i64;
    if s < 0 {
        0
    } else if s > i32::MAX as i64 {
        i32::MAX
    } else {
        s as i32
    }
}

/// The inclusive lower bound of the roll policy: a user at the floor cannot
/// be penalized further, anyone else risks the full symmetric range.
pub open spec fn roll_low(current_value: int) -> int {
    if current_value == 0 {
        0
    } else {
        -10
    }
}

/// Draws the roll delta: uniform over `[0, 10]` at the floor, uniform over
/// `[-10, 10]` otherwise.
pub fn compute_roll(current_value: i32) -> (delta: i32)
    ensures
        roll_low(current_value as int) <= delta <= 10,
{
    match current_value {
        0 => generate_random_change(0, 10),
        _ => generate_random_change(-10, 10),
    }
}

/// The delta a finished training yields: on success a gain in `[1, 3]`; on
/// failure a penalty in `[-2, -1]`, unless the counter is already at or
/// below 5, in which case the failure costs nothing.
pub fn process_training_result(success: bool, current_size: i32) -> (change: i32)
    ensures
        success ==> 1 <= change <= 3,
        !success && current_size > 5 ==> -2 <= change <= -1,
        !success && current_size <= 5 ==> change == 0,
{
    if success {
        generate_random_change(1, 3)
    } else {
        if current_size > 5 {
            -generate_random_change(1, 2)
        } else {
            0
        }
    }
}

/// The inclusive bounds of the weather side-effect delta for a temperature
/// given in tenths of a degree.
pub open spec fn weather_change_bounds(temp_tenths: int) -> (int, int) {
    if temp_tenths > 300 {
        (-2, 0)
    } else if temp_tenths > 200 {
        (0, 2)
    } else if temp_tenths > 100 {
        (1, 3)
    } else if temp_tenths > 0 {
        (0, 2)
    } else if temp_tenths > -100 {
        (-1, 1)
    } else {
        (-2, 0)
    }
}

/// Draws the weather side-effect delta from the band the temperature falls
/// in; mild weather tends to grow the counter, extremes shrink it.
pub fn calculate_pisun_change(temp_tenths: i64) -> (delta: i32)
    ensures
        weather_change_bounds(temp_tenths as int).0 <= delta
            <= weather_change_bounds(temp_tenths as int).1,
{
    if temp_tenths > 300 {
        generate_random_change(-2, 0)
    } else if temp_tenths > 200 {
        generate_random_change(0, 2)
    } else if temp_tenths > 100 {
        generate_random_change(1, 3)
    } else if temp_tenths > 0 {
        generate_random_change(0, 2)
    } else if temp_tenths > -100 {
        generate_random_change(-1, 1)
    } else {
        generate_random_change(-2, 0)
    }
}

/// The record a mutation starts from: the stored one, or, for an identity
/// not seen before, the fresh record that gets created on demand at `now`.
pub open spec fn pre_record(s: Seq<UserData>, user_id: i64, now: i64) -> UserData {
    if has_user(s, user_id) {
        user_at(s, user_id)
    } else {
        (UserData {
            user_id,
            pisun: 0,
            last_command: (now - SECONDS_PER_DAY) as i64,
            last_train: (now - SECONDS_PER_DAY) as i64,
        })
    }
}

/// The store once the record carrying `user_id` reads `upd`: replaced in
/// place when it existed, appended when it was created by this mutation.
pub open spec fn store_after(s: Seq<UserData>, user_id: i64, upd: UserData) -> Seq<UserData> {
    if has_user(s, user_id) {
        s.update(user_index(s, user_id), upd)
    } else {
        s.push(upd)
    }
}

/// What a roll attempt came to: either the mutation was accepted, with the
/// counter before, after, and the drawn delta, or the channel was still on
/// cooldown and nothing changed.
#[derive(Clone, Copy, Debug, PartialEq, Eq, Structural)]
pub enum RollOutcome {
    Accepted { old_value: i32, new_value: i32, delta: i32 },
    Rejected,
}

/// What a training attempt came to: on acceptance, the counter before and
/// after, the delta, whether the exercise succeeded, and the exercise
/// drawn; on cooldown, a rejection that leaves the store untouched.
#[derive(Clone, Debug)]
pub enum TrainingOutcome {
    Accepted {
        old_value: i32,
        new_value: i32,
        delta: i32,
        succeeded: bool,
        exercise: TrainingExercise,
    },
    Rejected,
}

/// After a get-or-create that found `user` (or appended it), replacing the
/// record of `user_id` yields exactly `store_after` of the starting store.
proof fn lemma_store_after(s0: Seq<UserData>, user: UserData, upd: UserData, user_id: i64)
    requires
        unique_ids(s0),
        user.user_id == user_id,
        upd.user_id == user_id,
        !has_user(s0, user_id),
    ensures
        has_user(s0.push(user), user_id),
        user_index(s0.push(user), user_id) == s0.len(),
        s0.push(user).update(s0.len() as int, upd) == store_after(s0, user_id, upd),
{
    let s1 = s0.push(user);
    assert(s1[s0.len() as int].user_id == user_id);
    let k = user_index(s1, user_id);
    assert(0 <= k < s1.len() && s1[k].user_id == user_id);
    assert(k == s0.len()) by {
        if k < s0.len() {
            assert(s0[k].user_id == user_id);
        }
    }
    assert(s1.update(s0.len() as int, upd) =~= s0.push(upd));
}

/// A cooldown-gated roll: creates the record on first sight, rejects when
/// the roll channel was already used on `now`'s calendar day, and otherwise
/// draws a delta, clamps, stamps the channel with `now`, and stores the
/// result.
pub fn attempt_roll(config: &mut Config, user_id: i64, now: i64) -> (outcome: RollOutcome)
    requires
        old(config).wf(),
        i64::MIN + SECONDS_PER_DAY <= now,
    ensures
        final(config).wf(),
        ({
            let pre = pre_record(old(config)@, user_id, now);
            &&& (outcome is Accepted <==> spec_can_use(pre.last_command as int, now as int))
            &&& match outcome {
                RollOutcome::Accepted { old_value, new_value, delta } => {
                    let upd = (UserData { pisun: new_value, last_command: now, ..pre });
                    &&& old_value == pre.pisun
                    &&& roll_low(old_value as int) <= delta <= 10
                    &&& new_value == clamped_value(old_value as int, delta as int)
                    &&& final(config)@ == store_after(old(config)@, user_id, upd)
                },
                RollOutcome::Rejected => final(config)@ == old(config)@,
            }
        }),
{
    let ghost s0 = config@;
    let user = config.get_or_create_user(user_id, now);
    proof {
        assert(user == pre_record(s0, user_id, now));
    }
    if can_use_command(user.last_command, now) {
        let delta = compute_roll(user.pisun);
        let new_value = apply_delta(user.pisun, delta);
        let updated = UserData { pisun: new_value, last_command: now, ..user };
        config.update_user(user_id, updated);
        proof {
            if !has_user(s0, user_id) {
                lemma_store_after(s0, user, updated, user_id);
            }
        }
        RollOutcome::Accepted { old_value: user.pisun, new_value, delta }
    } else {
        proof {
            if !has_user(s0, user_id) {
                lemma_day_before_is_earlier(now as int);
            }
        }
        RollOutcome::Rejected
    }
}

/// A cooldown-gated training attempt on the training channel: creates the
/// record on first sight, rejects a second training on the same calendar
/// day, and otherwise draws an exercise and its outcome, applies the
/// training delta, stamps the channel, and stores the result.
pub fn attempt_training(config: &mut Config, user_id: i64, now: i64) -> (outcome:
    TrainingOutcome)
    requires
        old(config).wf(),
        i64::MIN + SECONDS_PER_DAY <= now,
    ensures
        final(config).wf(),
        ({
            let pre = pre_record(old(config)@, user_id, now);
            &&& (outcome is Accepted <==> spec_can_use(pre.last_train as int, now as int))
            &&& match outcome {
                TrainingOutcome::Accepted { old_value, new_value, delta, succeeded, exercise } => {
                    let upd = (UserData { pisun: new_value, last_train: now, ..pre });
                    &&& old_value == pre.pisun
                    &&& (succeeded ==> 1 <= delta <= 3)
                    &&& (!succeeded && old_value > 5 ==> -2 <= delta <= -1)
                    &&& (!succeeded && old_value <= 5 ==> delta == 0)
                    &&& new_value == clamped_value(old_value as int, delta as int)
                    &&& exercise.wf()
                    &&& is_catalog_exercise(exercise)
                    &&& final(config)@ == store_after(old(config)@, user_id, upd)
                },
                TrainingOutcome::Rejected => final(config)@ == old(config)@,
            }
        }),
{
    let ghost s0 = config@;
    let user = config.get_or_create_user(user_id, now);
    proof {
        assert(user == pre_record(s0, user_id, now));
    }
    if can_use_command(user.last_train, now) {
        let (exercise, success) = generate_training_exercise();
        let delta = process_training_result(success, user.pisun);
        let new_value = apply_delta(user.pisun, delta);
        let updated = UserData { pisun: new_value, last_train: now, ..user };
        config.update_user(user_id, updated);
        proof {
            if !has_user(s0, user_id) {
                lemma_store_after(s0, user, updated, user_id);
            }
        }
        TrainingOutcome::Accepted {
            old_value: user.pisun,
            new_value,
            delta,
            succeeded: success,
            exercise,
        }
    } else {
        proof {
            if !has_user(s0, user_id) {
                lemma_day_before_is_earlier(now as int);
            }
        }
        TrainingOutcome::Rejected
    }
}

/// An ungated mutation, used by the weather side-effect and any other
/// source outside the two cooldown channels: creates the record on first
/// sight, applies the clamped delta, touches no timestamp.
pub fn apply_external_delta(config: &mut Config, user_id: i64, delta: i32, now: i64) -> (new_value:
    i32)
    requires
        old(config).wf(),
        i64::MIN + SECONDS_PER_DAY <= now,
    ensures
        final(config).wf(),
        new_value >= 0,
        ({
            let pre = pre_record(old(config)@, user_id, now);
            &&& new_value == clamped_value(pre.pisun as int, delta as int)
            &&& final(config)@ == store_after(
                old(config)@,
                user_id,
                (UserData { pisun: new_value, ..pre }),
            )
        }),
{
    let ghost s0 = config@;
    let user = config.get_or_create_user(user_id, now);
    proof {
        assert(user == pre_record(s0, user_id, now));
    }
    let new_value = apply_delta(user.pisun, delta);
    let updated = UserData { pisun: new_value, ..user };
    config.update_user(user_id, updated);
    proof {
        if !has_user(s0, user_id) {
            lemma_store_after(s0, user, updated, user_id);
        }
    }
    new_value
}

/// The emoji shown for a weather code, by day or night.
pub open spec fn spec_weather_emoji(is_day: int, weather_code: int) -> Seq<char> {
    if weather_code == 0 {
        if is_day == 1 {
            "\u{2600}\u{fe0f}"@
        } else {
            "\u{1f319}"@
        }
    } else if 1 <= weather_code <= 3 {
        if is_day == 1 {
            "\u{1f324}\u{fe0f}"@
        } else {
            "\u{2601}\u{fe0f}"@
        }
    } else if weather_code == 45 || weather_code == 48 {
        "\u{1f32b}\u{fe0f}"@
    } else if (51 <= weather_code <= 55) || (61 <= weather_code <= 65) || (80 <= weather_code
        <= 82) {
        "\u{1f327}\u{fe0f}"@
    } else if (56 <= weather_code <= 57) || (66 <= weather_code <= 67) {
        "\u{1f328}\u{fe0f}"@
    } else if (71 <= weather_code <= 75) || (85 <= weather_code <= 86) {
        "\u{2744}\u{fe0f}"@
    } else if weather_code == 77 {
        "\u{1f328}\u{fe0f}"@
    } else if 95 <= weather_code <= 99 {
        "\u{26c8}\u{fe0f}"@
    } else {
        "\u{2753}"@
    }
}

/// The emoji for a weather code: sun or moon when clear, clouds, rain,
/// snow, thunder, and a question mark for codes outside the table.
pub fn get_weather_emoji(is_day: i64, weather_code: i64) -> (r: String)
    ensures
        r@ == spec_weather_emoji(is_day as int, weather_code as int),
{
    if weather_code == 0 {
        if is_day == 1 {
            "\u{2600}\u{fe0f}".to_owned()
        } else {
            "\u{1f319}".to_owned()
        }
    } else if 1 <= weather_code && weather_code <= 3 {
        if is_day == 1 {
            "\u{1f324}\u{fe0f}".to_owned()
        } else {
            "\u{2601}\u{fe0f}".to_owned()
        }
    } else if weather_code == 45 || weather_code == 48 {
        "\u{1f32b}\u{fe0f}".to_owned()
    } else if (51 <= weather_code && weather_code <= 55) || (61 <= weather_code && weather_code
        <= 65) || (80 <= weather_code && weather_code <= 82) {
        "\u{1f327}\u{fe0f}".to_owned()
    } else if (56 <= weather_code && weather_code <= 57) || (66 <= weather_code && weather_code
        <= 67) {
        "\u{1f328}\u{fe0f}".to_owned()
    } else if (71 <= weather_code && weather_code <= 75) || (85 <= weather_code && weather_code
        <= 86) {
        "\u{2744}\u{fe0f}".to_owned()
    } else if weather_code == 77 {
        "\u{1f328}\u{fe0f}".to_owned()
    } else if 95 <= weather_code && weather_code <= 99 {
        "\u{26c8}\u{fe0f}".to_owned()
    } else {
        "\u{2753}".to_owned()
    }
}

/// The description shown for a weather code.
pub open spec fn spec_weather_description(code: int) -> Seq<char> {
    if code == 0 {
        "Ясно"@
    } else if 1 <= code <= 3 {
        "Переменная облачность"@
    } else if code == 45 || code == 48 {
        "Туман"@
    } else if 51 <= code <= 55 {
        "Морось"@
    } else if 56 <= code <= 57 {
        "Ледяная морось"@
    } else if 61 <= code <= 65 {
        "Дождь"@
    } else if 66 <= code <= 67 {
        "Ледяной дождь"@
    } else if 71 <= code <= 75 {
        "Снег"@
    } else if code == 77 {
        "Снежные зерна"@
    } else if 80 <= code <= 82 {
        "Ливневые дожди"@
    } else if 85 <= code <= 86 {
        "Снежный ливень"@
    } else if code == 95 {
        "Гроза"@
    } else if 96 <= code <= 99 {
        "Гроза с градом"@
    } else {
        "Неизвестные погодные условия"@
    }
}

/// The textual description for a weather code, matched range by range; any
/// code outside the table reads as unknown conditions.
pub fn get_weather_description(code: i64) -> (r: String)
    ensures
        r@ == spec_weather_description(code as int),
{
    if code == 0 {
        "Ясно".to_owned()
    } else if 1 <= code && code <= 3 {
        "Переменная облачность".to_owned()
    } else if code == 45 || code == 48 {
        "Туман".to_owned()
    } else if 51 <= code && code <= 55 {
        "Морось".to_owned()
    } else if 56 <= code && code <= 57 {
        "Ледяная морось".to_owned()
    } else if 61 <= code && code <= 65 {
        "Дождь".to_owned()
    } else if 66 <= code && code <= 67 {
        "Ледяной дождь".to_owned()
    } else if 71 <= code && code <= 75 {
        "Снег".to_owned()
    } else if code == 77 {
        "Снежные зерна".to_owned()
    } else if 80 <= code && code <= 82 {
        "Ливневые дожди".to_owned()
    } else if 85 <= code && code <= 86 {
        "Снежный ливень".to_owned()
    } else if code == 95 {
        "Гроза".to_owned()
    } else if 96 <= code && code <= 99 {
        "Гроза с градом".to_owned()
    } else {
        "Неизвестные погодные условия".to_owned()
    }
}

} // verus!
