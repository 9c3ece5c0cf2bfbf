//! The four directions of travel and the rule that turns input into a
//! direction.

use vstd::prelude::*;

verus! {

/// One of the four ways the snake can face.
#[derive(Clone, Copy, Debug, PartialEq, Eq, Structural)]
pub enum Direction {
    Up,
    Down,
    Right,
    Left,
}

/// The pressed state of the four logical direction inputs during one frame.
#[derive(Clone, Copy, Debug, PartialEq, Eq, Structural)]
pub struct DirectionInput {
    pub up: bool,
    pub down: bool,
    pub right: bool,
    pub left: bool,
}

impl Direction {
    /// The direction that points the other way: up and down are opposites, and
    /// so are left and right.
    pub open spec fn spec_opposite(self) -> Direction {
        match self {
            Direction::Up => Direction::Down,
            Direction::Down => Direction::Up,
            Direction::Right => Direction::Left,
            Direction::Left => Direction::Right,
        }
    }

    /// The direction a head facing `self` faces after `input` is applied.
    ///
    /// The requested direction is taken unless nothing is pressed or the
    /// request is a reversal, in which cases the head keeps facing `self`.
    pub open spec fn turned(self, input: DirectionInput) -> Direction {
        match input.requested() {
            Some(candidate) if candidate != self.spec_opposite() => candidate,
            _ => self,
        }
    }

    /// Returns the direction that points the other way.
    #[verifier::when_used_as_spec(spec_opposite)]
    pub fn opposite(self) -> (other: Direction)
        ensures
            other == self.spec_opposite(),
    {
        match self {
            Direction::Up => Direction::Down,
            Direction::Right => Direction::Left,
            Direction::Down => Direction::Up,
            Direction::Left => Direction::Right,
        }
    }

    /// Applies `input` to a head facing `self` and returns the direction it
    /// faces afterwards. A reversal is refused: the result is never the
    /// opposite of `self`.
    pub fn turn(self, input: DirectionInput) -> (next: Direction)
        ensures
            next == self.turned(input),
            next != self.opposite(),
    {
        let candidate = match input.pressed() {
            Some(direction) => direction,
            None => self,
        };
        if candidate != self.opposite() {
            candidate
        } else {
            self
        }
    }
}

impl DirectionInput {
    /// The direction the input asks for: the first pressed one in the order
    /// up, down, right, left, or `None` when nothing is pressed.
    pub open spec fn requested(self) -> Option<Direction> {
        if self.up {
            Some(Direction::Up)
        } else if self.down {
            Some(Direction::Down)
        } else if self.right {
            Some(Direction::Right)
        } else if self.left {
            Some(Direction::Left)
        } else {
            None
        }
    }

    /// An input with nothing pressed.
    pub fn none() -> (input: DirectionInput)
        ensures
            input == (DirectionInput { up: false, down: false, right: false, left: false }),
    {
        DirectionInput { up: false, down: false, right: false, left: false }
    }

    /// Returns the direction the input asks for, if any.
    pub fn pressed(self) -> (choice: Option<Direction>)
        ensures
            choice == self.requested(),
    {
        if self.up {
            Some(Direction::Up)
        } else if self.down {
            Some(Direction::Down)
        } else if self.right {
            Some(Direction::Right)
        } else if self.left {
            Some(Direction::Left)
        } else {
            None
        }
    }
}

} // verus!
