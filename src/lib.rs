//! Rules engine of a two-player snake game on a fixed five by seven board.
//!
//! Each player grows colored snakes from their own edge of the board toward
//! the opponent's. A snake that reaches a cell held by a color it beats eats
//! the rest of the snake there; reaching the opponent's marker wins.

pub mod color;
pub mod command;
pub mod grid;
pub mod player;

pub use color::{Color, ParseColorError};
pub use command::{parse_command, CommandError};
pub use grid::{Cell, Grid, RuleViolation, GRID_HEIGHT, GRID_WIDTH};
pub use player::Player;
