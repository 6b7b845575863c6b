//! Rules of a neon Breakout game: brick wall scoring, armor and power-ups,
//! serving and lives, menus and achievements, level rosters and the brick
//! tag grammar of the level scenes.

pub mod achievements;
pub mod bricks;
pub mod constants;
pub mod game;
pub mod hud;
pub mod levels;
pub mod power_ups;
pub mod spawning;
pub mod text;
pub mod types;
