//! Cells, positions and the arena that bounds them.

use crate::direction::Direction;
use vstd::prelude::*;

verus! {

/// A grid cell with unbounded coordinates: what a [`Position`] stands for.
pub struct Cell {
    pub x: int,
    pub y: int,
}

/// A grid cell as the simulation stores it.
#[derive(Clone, Copy, Debug, PartialEq, Eq, Structural)]
pub struct Position {
    pub x: i32,
    pub y: i32,
}

/// The playing field: the cells `(x, y)` with `0 <= x < width` and
/// `0 <= y < height`.
#[derive(Clone, Copy, Debug, PartialEq, Eq, Structural)]
pub struct Arena {
    pub width: u32,
    pub height: u32,
}

/// The number of values a draw can take: a draw `d` stands for the fraction
/// `d / DRAWS` of the half-open unit interval.
pub const DRAWS: u64 = 0x1_0000_0000;

/// The index in `0..extent` that the fraction `draw / DRAWS` selects:
/// the fraction times `extent`, rounded down.
pub open spec fn scaled(draw: int, extent: int) -> int {
    (draw * extent) / (DRAWS as int)
}

impl Cell {
    /// The neighbouring cell one unit step away: up and right increase a
    /// coordinate, down and left decrease one.
    pub open spec fn stepped(self, direction: Direction) -> Cell {
        match direction {
            Direction::Up => Cell { x: self.x, y: self.y + 1 },
            Direction::Down => Cell { x: self.x, y: self.y - 1 },
            Direction::Right => Cell { x: self.x + 1, y: self.y },
            Direction::Left => Cell { x: self.x - 1, y: self.y },
        }
    }

    /// Whether both coordinates fit the integer type of a [`Position`].
    pub open spec fn representable(self) -> bool {
        i32::MIN <= self.x <= i32::MAX && i32::MIN <= self.y <= i32::MAX
    }
}

impl View for Position {
    type V = Cell;

    open spec fn view(&self) -> Cell {
        Cell { x: self.x as int, y: self.y as int }
    }
}

impl Position {
    /// Returns the neighbouring position one unit step away in `direction`.
    pub fn stepped(self, direction: Direction) -> (next: Position)
        requires
            self@.stepped(direction).representable(),
        ensures
            next@ == self@.stepped(direction),
    {
        match direction {
            Direction::Up => Position { x: self.x, y: self.y + 1 },
            Direction::Down => Position { x: self.x, y: self.y - 1 },
            Direction::Right => Position { x: self.x + 1, y: self.y },
            Direction::Left => Position { x: self.x - 1, y: self.y },
        }
    }

    /// Returns the neighbouring position in `direction`, or `None` when its
    /// coordinate would leave the range of the integer type.
    pub fn checked_stepped(self, direction: Direction) -> (next: Option<Position>)
        ensures
            match next {
                Some(p) => self@.stepped(direction).representable() && p@ == self@.stepped(
                    direction,
                ),
                None => !self@.stepped(direction).representable(),
            },
    {
        let fits = match direction {
            Direction::Up => self.y < i32::MAX,
            Direction::Down => self.y > i32::MIN,
            Direction::Right => self.x < i32::MAX,
            Direction::Left => self.x > i32::MIN,
        };
        if fits {
            Some(self.stepped(direction))
        } else {
            None
        }
    }
}

/// The cells that a sequence of positions stands for, in the same order.
pub open spec fn cells(positions: Seq<Position>) -> Seq<Cell> {
    positions.map_values(|p: Position| p@)
}

impl Arena {
    /// Whether the arena has at least one cell and every cell, together with
    /// its four neighbours, is representable as a [`Position`].
    pub open spec fn wf(self) -> bool {
        0 < self.width <= i32::MAX && 0 < self.height <= i32::MAX
    }

    /// Whether `cell` lies inside the arena.
    pub open spec fn holds(self, cell: Cell) -> bool {
        0 <= cell.x < self.width && 0 <= cell.y < self.height
    }

    /// The cell that a pair of draws selects: each draw is scaled to the
    /// extent of its axis.
    pub open spec fn cell_at(self, x_draw: int, y_draw: int) -> Cell {
        Cell { x: scaled(x_draw, self.width as int), y: scaled(y_draw, self.height as int) }
    }

    /// Returns the arena of the given extent, or `None` unless both sides are
    /// positive and at most `i32::MAX`.
    pub fn new(width: u32, height: u32) -> (arena: Option<Arena>)
        ensures
            arena == if (Arena { width, height }).wf() {
                Some(Arena { width, height })
            } else {
                None::<Arena>
            },
    {
        if 0 < width && width <= 0x7fff_ffff && 0 < height && height <= 0x7fff_ffff {
            Some(Arena { width, height })
        } else {
            None
        }
    }

    /// Returns whether `position` lies inside the arena.
    pub fn contains(&self, position: Position) -> (inside: bool)
        ensures
            inside == self.holds(position@),
    {
        position.x >= 0 && position.y >= 0 && (position.x as u32) < self.width && (
        position.y as u32) < self.height
    }

    /// Returns the position that a pair of draws selects. Whatever the draws,
    /// it lies inside the arena.
    pub fn position_at(&self, x_draw: u32, y_draw: u32) -> (position: Position)
        requires
            self.wf(),
        ensures
            position@ == self.cell_at(x_draw as int, y_draw as int),
            self.holds(position@),
    {
        Position { x: scale(x_draw, self.width), y: scale(y_draw, self.height) }
    }
}

/// Scaling a draw never reaches the extent: the result indexes `0..extent`.
pub proof fn lemma_scaled_in_range(draw: int, extent: int)
    requires
        0 <= draw < DRAWS,
        0 < extent,
    ensures
        0 <= scaled(draw, extent) < extent,
{
    assert(0 <= draw * extent) by (nonlinear_arith)
        requires
            0 <= draw,
            0 < extent,
    ;
    assert(draw * extent < DRAWS * extent) by (nonlinear_arith)
        requires
            draw < DRAWS,
            0 < extent,
    ;
}

/// Returns the index in `0..extent` that `draw` selects.
fn scale(draw: u32, extent: u32) -> (index: i32)
    requires
        0 < extent <= i32::MAX,
    ensures
        index == scaled(draw as int, extent as int),
        0 <= index < extent,
{
    proof {
        assert(draw * extent < DRAWS * extent) by (nonlinear_arith)
            requires
                draw < DRAWS,
                0 < extent,
        ;
    }
    let product: u64 = (draw as u64) * (extent as u64);
    (product / DRAWS) as i32
}

} // verus!
