//! Core of a per-user counter game: a store of user records whose numeric
//! stat is mutated through cooldown-gated dice rolls and training exercises,
//! clamped to a non-negative floor, ranked against all other users, and
//! persisted as a byte image with a proved round trip.

pub mod codec;
pub mod commander;
pub mod config;
pub mod dates;
pub mod training;
pub mod user_data;

pub use commander::Command;
pub use commander::RollOutcome;
pub use commander::TrainingOutcome;
pub use commander::apply_delta;
pub use commander::apply_external_delta;
pub use commander::attempt_roll;
pub use commander::attempt_training;
pub use commander::calculate_pisun_change;
pub use commander::compute_roll;
pub use commander::get_weather_description;
pub use commander::get_weather_emoji;
pub use commander::process_training_result;
pub use config::Config;
pub use dates::can_use_command;
pub use dates::day_number;
pub use training::TrainingExercise;
pub use training::generate_training_exercise;
pub use training::get_training_exercises;
pub use user_data::UserData;
