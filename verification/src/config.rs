//! What a game is started with.

use crate::grid::{Arena, Position};
use vstd::prelude::*;

verus! {

/// The startup configuration of a game.
#[derive(Clone, Copy, Debug, PartialEq, Eq, Structural)]
pub struct Config {
    /// The number of columns of the arena.
    pub arena_width: u32,
    /// The number of rows of the arena.
    pub arena_height: u32,
    /// Where a new snake's head is put.
    pub start: Position,
    /// The time between two movements, in milliseconds. The simulation does
    /// not keep time itself: the caller runs one tick per interval.
    pub tick_millis: u64,
}

impl Config {
    /// The arena that the configuration describes.
    pub open spec fn arena(self) -> Arena {
        Arena { width: self.arena_width, height: self.arena_height }
    }
}

impl Default for Config {
    /// Returns the classic setup: an arena of ten by ten cells, the head at
    /// `(3, 3)` and a movement every 90 milliseconds.
    fn default() -> (config: Config)
        ensures
            config == (Config {
                arena_width: 10,
                arena_height: 10,
                start: Position { x: 3, y: 3 },
                tick_millis: 90,
            }),
    {
        Config { arena_width: 10, arena_height: 10, start: Position { x: 3, y: 3 }, tick_millis: 90 }
    }
}

} // verus!
