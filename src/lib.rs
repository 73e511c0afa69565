//! Rules engine of a grid-based snake game: movement on a fixed grid,
//! collision detection, food placement, scoring and speed progression.

pub mod food;
pub mod game;
pub mod grid;
pub mod store;

pub use game::{Command, GameState, INITIAL_GAME_SPEED, MIN_GAME_SPEED};
pub use grid::{Direction, Position, GRID_HEIGHT, GRID_WIDTH};
pub use store::{high_score_from_text, high_score_from_trimmed, high_score_text};
