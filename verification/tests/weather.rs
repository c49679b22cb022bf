use pisun_bot::Config;
use pisun_bot::apply_external_delta;
use pisun_bot::calculate_pisun_change;
use pisun_bot::get_weather_description;
use pisun_bot::get_weather_emoji;
use pisun_bot::get_training_exercises;
use pisun_bot::generate_training_exercise;

#[test]
fn weather_description_table() {
    assert_eq!(get_weather_description(0), "Ясно");
    assert_eq!(get_weather_description(2), "Переменная облачность");
    assert_eq!(get_weather_description(45), "Туман");
    assert_eq!(get_weather_description(48), "Туман");
    assert_eq!(get_weather_description(53), "Морось");
    assert_eq!(get_weather_description(57), "Ледяная морось");
    assert_eq!(get_weather_description(63), "Дождь");
    assert_eq!(get_weather_description(66), "Ледяной дождь");
    assert_eq!(get_weather_description(73), "Снег");
    assert_eq!(get_weather_description(77), "Снежные зерна");
    assert_eq!(get_weather_description(81), "Ливневые дожди");
    assert_eq!(get_weather_description(86), "Снежный ливень");
    assert_eq!(get_weather_description(95), "Гроза");
    assert_eq!(get_weather_description(99), "Гроза с градом");
    assert_eq!(get_weather_description(40), "Неизвестные погодные условия");
    assert_eq!(get_weather_description(-1), "Неизвестные погодные условия");
}

#[test]
fn weather_emoji_table() {
    assert_eq!(get_weather_emoji(1, 0), "☀️");
    assert_eq!(get_weather_emoji(0, 0), "🌙");
    assert_eq!(get_weather_emoji(1, 2), "🌤️");
    assert_eq!(get_weather_emoji(0, 2), "☁️");
    assert_eq!(get_weather_emoji(1, 45), "🌫️");
    assert_eq!(get_weather_emoji(1, 61), "🌧️");
    assert_eq!(get_weather_emoji(1, 56), "🌨️");
    assert_eq!(get_weather_emoji(1, 72), "❄️");
    assert_eq!(get_weather_emoji(1, 77), "🌨️");
    assert_eq!(get_weather_emoji(1, 96), "⛈️");
    assert_eq!(get_weather_emoji(1, 44), "❓");
}

#[test]
fn weather_delta_stays_in_band() {
    for _ in 0..50 {
        assert!((-2..=0).contains(&calculate_pisun_change(350)));
        assert!((0..=2).contains(&calculate_pisun_change(250)));
        assert!((1..=3).contains(&calculate_pisun_change(150)));
        assert!((0..=2).contains(&calculate_pisun_change(50)));
        assert!((-1..=1).contains(&calculate_pisun_change(-50)));
        assert!((-2..=0).contains(&calculate_pisun_change(-200)));
    }
}

#[test]
fn weather_side_effect_goes_through_clamp() {
    let mut config = Config::new();
    let now = 1_700_000_000;
    let delta = calculate_pisun_change(-200);
    let new_value = apply_external_delta(&mut config, 1, delta, now);
    assert_eq!(new_value, delta.max(0));
}

#[test]
fn training_catalog_percentages() {
    let exercises = get_training_exercises();
    let percents: Vec<u8> = exercises.iter().map(|e| e.success_percent).collect();
    assert_eq!(percents, vec![60, 70, 50, 80, 40]);
    for exercise in exercises.iter() {
        assert!(!exercise.description.is_empty());
    }
}

#[test]
fn drawn_exercise_comes_from_catalog() {
    let catalog = get_training_exercises();
    for _ in 0..50 {
        let (exercise, _success) = generate_training_exercise();
        // the drawn exercise is one catalog entry, description and rate together
        assert!(catalog.iter().any(|e| e.description == exercise.description
            && e.success_percent == exercise.success_percent));
    }
}
