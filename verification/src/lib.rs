//! The simulation core of a grid-based snake game.
//!
//! The crate owns the snake's body, its direction, the food, collision
//! detection, growth and the transition to game over. Rendering, windows and
//! raw keyboard polling live with the caller, which hands in the pressed state
//! of four logical directions and reads positions back.
//!
//! Every step of the simulation is an executable function whose contract names
//! the matching step of the mathematical model in [`world`]; the properties
//! that hold of the model are proved in [`laws`].
//!
//! A caller that advances the game once per movement interval calls
//! [`Game::tick`], which runs the steps in their fixed order. A caller that
//! samples the input more often than the snake moves calls the steps itself,
//! in the same order, and clears the signals with [`Game::take_events`] at the
//! end of each round.

mod chance;
pub mod config;
pub mod direction;
pub mod events;
pub mod game;
pub mod grid;
pub mod laws;
pub mod world;

pub use crate::config::Config;
pub use crate::direction::{Direction, DirectionInput};
pub use crate::events::Event;
pub use crate::game::{Game, SnakeHead};
pub use crate::grid::{Arena, Position};
