//! The mathematical model of the simulation: the state of the game as plain
//! values, and each step of a tick as a function from state to state.

use crate::direction::{Direction, DirectionInput};
use crate::events::{repeated, Event};
use crate::grid::{Arena, Cell};
use vstd::prelude::*;

verus! {

/// The state of the game.
#[verifier::ext_equal]
pub struct World {
    /// The playing field.
    pub arena: Arena,
    /// The cell where a new snake's head is put.
    pub start: Cell,
    /// The direction the head faces, or `None` while there is no snake.
    pub head: Option<Direction>,
    /// The cells of the body from head to tail: the head's own cell comes first.
    pub body: Seq<Cell>,
    /// The cells that hold a food; a cell may occur more than once.
    pub food: Seq<Cell>,
    /// The cell the tail left in the latest movement.
    pub last_tail: Option<Cell>,
    /// The signals raised so far in the current tick, oldest first.
    pub events: Seq<Event>,
}

/// The test that keeps the foods lying anywhere but at `at`.
pub open spec fn apart_from(at: Cell) -> spec_fn(Cell) -> bool {
    |cell: Cell| cell != at
}

impl World {
    /// The state of a game in which nothing has been created yet.
    pub open spec fn empty(arena: Arena, start: Cell) -> World {
        World {
            arena,
            start,
            head: None,
            body: Seq::empty(),
            food: Seq::empty(),
            last_tail: None,
            events: Seq::empty(),
        }
    }

    /// Whether the state is one that a game can be in between two ticks.
    ///
    /// The arena is well formed; a new snake fits it; there is a head exactly
    /// when there is a body; the body and the remembered tail cell lie inside
    /// the arena; and a waiting growth signal has a snake to lengthen.
    pub open spec fn wf(self) -> bool {
        &&& self.arena.wf()
        &&& self.arena.holds(self.start)
        &&& self.arena.holds(self.start.stepped(Direction::Down))
        &&& (self.head is Some <==> self.body.len() > 0)
        &&& forall|i: int| 0 <= i < self.body.len() ==> self.arena.holds(#[trigger] self.body[i])
        &&& (self.last_tail matches Some(cell) ==> self.arena.holds(cell))
        &&& (self.events.contains(Event::Growth) ==> self.head is Some)
    }

    /// Whether every food lies inside the arena.
    pub open spec fn food_inside(self) -> bool {
        forall|i: int| 0 <= i < self.food.len() ==> self.arena.holds(#[trigger] self.food[i])
    }

    /// The cell the head occupies, or `None` when there is no head or no body.
    pub open spec fn head_cell(self) -> Option<Cell> {
        if self.head is Some && self.body.len() > 0 {
            Some(self.body[0])
        } else {
            None
        }
    }

    /// The cell the head enters in the next movement, or `None` when nothing
    /// will move.
    pub open spec fn next_head(self) -> Option<Cell> {
        match self.head_cell() {
            Some(cell) => Some(cell.stepped(self.head->0)),
            None => None,
        }
    }

    /// Whether the cell the head enters next, if any, is representable.
    pub open spec fn movement_fits(self) -> bool {
        self.next_head() matches Some(cell) ==> cell.representable()
    }

    /// Whether moving the head to `to` takes it out of the arena.
    pub open spec fn leaves_arena(self, to: Cell) -> bool {
        !self.arena.holds(to)
    }

    /// Whether moving the head to `to` runs it into a cell that the body
    /// occupies before the move. The head's own former cell counts.
    pub open spec fn hits_body(self, to: Cell) -> bool {
        self.body.contains(to)
    }

    /// How many game-over signals moving the head to `to` raises: one for
    /// leaving the arena and one for hitting the body, however many segments
    /// lie at `to`.
    pub open spec fn collisions(self, to: Cell) -> nat {
        (if self.leaves_arena(to) {
            1nat
        } else {
            0nat
        }) + (if self.hits_body(to) {
            1nat
        } else {
            0nat
        })
    }

    /// The state after a spawn signal was raised.
    pub open spec fn signalled(self) -> World {
        World { events: self.events.push(Event::Spawn), ..self }
    }

    /// The state after the snake-spawning step: on a spawn signal there is a
    /// head facing up at the start cell and one segment directly behind it.
    pub open spec fn snake_spawned(self) -> World {
        if self.events.contains(Event::Spawn) {
            World {
                head: Some(Direction::Up),
                body: seq![self.start, self.start.stepped(Direction::Down)],
                ..self
            }
        } else {
            self
        }
    }

    /// The state after the direction update: the head turns as the input asks,
    /// unless that would reverse it.
    pub open spec fn steered(self, input: DirectionInput) -> World {
        match self.head {
            Some(direction) => World { head: Some(direction.turned(input)), ..self },
            None => self,
        }
    }

    /// The state after the movement step.
    ///
    /// The head enters the neighbouring cell it faces, every other segment
    /// enters the cell that the segment ahead of it held, the cell that the
    /// tail held is remembered, and the collisions of the head's new cell are
    /// signalled. Without a head nothing happens.
    pub open spec fn moved(self) -> World {
        match self.next_head() {
            Some(to) => World {
                body: seq![to] + self.body.drop_last(),
                last_tail: Some(self.body.last()),
                events: self.events + repeated(Event::GameOver, self.collisions(to)),
                ..self
            },
            None => self,
        }
    }

    /// The state after the eating step: every food in the head's cell is gone,
    /// and one growth signal was raised for each.
    pub open spec fn fed(self) -> World {
        match self.head_cell() {
            Some(at) => {
                let left = self.food.filter(apart_from(at));
                World {
                    food: left,
                    events: self.events + repeated(
                        Event::Growth,
                        (self.food.len() - left.len()) as nat,
                    ),
                    ..self
                }
            },
            None => self,
        }
    }

    /// The state after the growth step: if any growth signal waits, one segment
    /// was appended at the cell that the tail last left.
    pub open spec fn grown(self) -> World {
        if self.events.contains(Event::Growth) && self.last_tail is Some {
            World { body: self.body.push(self.last_tail->0), ..self }
        } else {
            self
        }
    }

    /// The state after the food-spawning step: if a spawn or growth signal
    /// waits, there is one more food, in the cell that the draws select.
    pub open spec fn food_spawned(self, x_draw: int, y_draw: int) -> World {
        if self.events.contains(Event::Spawn) || self.events.contains(Event::Growth) {
            World { food: self.food.push(self.arena.cell_at(x_draw, y_draw)), ..self }
        } else {
            self
        }
    }

    /// The state after the game-over step: if any game-over signal waits, the
    /// head, every segment and every food are gone.
    pub open spec fn ended(self) -> World {
        if self.events.contains(Event::GameOver) {
            World { head: None, body: Seq::empty(), food: Seq::empty(), ..self }
        } else {
            self
        }
    }

    /// The state at the end of a tick's steps, before its signals are cleared:
    /// direction update, movement, eating, growth, food spawning and game
    /// over, in this order.
    pub open spec fn settled(self, input: DirectionInput, x_draw: int, y_draw: int) -> World {
        self.steered(input).moved().fed().grown().food_spawned(x_draw, y_draw).ended()
    }

    /// The state after a whole tick: the steps ran and the signals are cleared.
    pub open spec fn ticked(self, input: DirectionInput, x_draw: int, y_draw: int) -> World {
        World { events: Seq::empty(), ..self.settled(input, x_draw, y_draw) }
    }

    /// The signals of a whole tick: those that waited when it began, then
    /// those that its steps raised.
    pub open spec fn tick_events(self, input: DirectionInput, x_draw: int, y_draw: int) -> Seq<
        Event,
    > {
        self.settled(input, x_draw, y_draw).events
    }
}

} // verus!
