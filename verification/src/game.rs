//! The game itself: the state that the simulation owns, and the steps that
//! advance it.

use crate::chance::draw;
use crate::config::Config;
use crate::direction::{Direction, DirectionInput};
use crate::events::{pending, repeated, Event};
use crate::grid::{cells, Arena, Position};
use crate::laws::{law_food_stays_inside, law_tick_keeps_wf};
use crate::world::{apart_from, World};
use vstd::prelude::*;

verus! {

/// The head of the snake: there is at most one.
#[derive(Clone, Copy, Debug, PartialEq, Eq, Structural)]
pub struct SnakeHead {
    /// The direction the head faces.
    pub direction: Direction,
}

/// The state of one game.
#[derive(Clone, Debug, PartialEq, Eq)]
pub struct Game {
    /// The playing field.
    pub arena: Arena,
    /// Where a new snake's head is put.
    pub start: Position,
    /// The head, or `None` while there is no snake.
    pub head: Option<SnakeHead>,
    /// The positions of the body from head to tail: the head's own comes first.
    pub segments: Vec<Position>,
    /// The positions that hold a food.
    pub food: Vec<Position>,
    /// The position the tail left in the latest movement.
    pub last_tail_position: Option<Position>,
    /// The signals raised so far in the current tick, oldest first.
    pub events: Vec<Event>,
}

impl View for Game {
    type V = World;

    open spec fn view(&self) -> World {
        World {
            arena: self.arena,
            start: self.start@,
            head: match self.head {
                Some(head) => Some(head.direction),
                None => None,
            },
            body: cells(self.segments@),
            food: cells(self.food@),
            last_tail: match self.last_tail_position {
                Some(position) => Some(position@),
                None => None,
            },
            events: self.events@,
        }
    }
}

/// Returns whether `target` is among `positions`.
fn occupied(positions: &Vec<Position>, target: Position) -> (found: bool)
    ensures
        found == cells(positions@).contains(target@),
{
    let mut i: usize = 0;
    while i < positions.len()
        invariant
            i <= positions.len(),
            forall|j: int| 0 <= j < i ==> cells(positions@)[j] != target@,
        decreases positions.len() - i,
    {
        if positions[i] == target {
            assert(cells(positions@)[i as int] == target@);
            return true;
        }
        i += 1;
    }
    false
}

/// Removes the foods that lie at `at` and raises one growth signal for each.
/// Returns the foods that are left, in their order.
fn eat(food: &Vec<Position>, at: Position, events: &mut Vec<Event>) -> (left: Vec<Position>)
    ensures
        cells(left@) == cells(food@).filter(apart_from(at@)),
        final(events)@ == old(events)@ + repeated(
            Event::Growth,
            (food.len() - left.len()) as nat,
        ),
{
    let mut left: Vec<Position> = Vec::new();
    let mut i: usize = 0;
    while i < food.len()
        invariant
            i <= food.len(),
            left.len() <= i,
            cells(left@) == cells(food@.take(i as int)).filter(apart_from(at@)),
            events@ == old(events)@ + repeated(Event::Growth, (i - left.len()) as nat),
        decreases food.len() - i,
    {
        let candidate = food[i];
        proof {
            let seen = cells(food@.take(i as int));
            assert(cells(food@.take(i + 1)) =~= seen.push(candidate@));
            seen.lemma_filter_push(candidate@, apart_from(at@));
        }
        if candidate == at {
            events.push(Event::Growth);
        } else {
            left.push(candidate);
        }
        i += 1;
    }
    proof {
        assert(food@.take(food.len() as int) =~= food@);
    }
    left
}

/// Returns whether every one of `positions` lies inside `arena`.
fn all_inside(arena: &Arena, positions: &Vec<Position>) -> (inside: bool)
    ensures
        inside == forall|i: int|
            0 <= i < positions.len() ==> arena.holds(#[trigger] cells(positions@)[i]),
{
    let mut i: usize = 0;
    while i < positions.len()
        invariant
            i <= positions.len(),
            forall|j: int| 0 <= j < i ==> arena.holds(#[trigger] cells(positions@)[j]),
        decreases positions.len() - i,
    {
        if !arena.contains(positions[i]) {
            assert(!arena.holds(cells(positions@)[i as int]));
            return false;
        }
        i += 1;
    }
    true
}

impl Game {
    /// Whether the state is one that a game can be in between two ticks.
    pub open spec fn wf(&self) -> bool {
        self@.wf()
    }

    /// Returns whether the state is well formed, so that a tick can run.
    pub fn is_well_formed(&self) -> (ok: bool)
        ensures
            ok == self.wf(),
    {
        let arena_fits = 0 < self.arena.width && self.arena.width <= 0x7fff_ffff && 0
            < self.arena.height && self.arena.height <= 0x7fff_ffff;
        let start_fits = self.arena.contains(self.start) && self.start.y >= 1;
        let snake_whole = self.head.is_some() == (self.segments.len() > 0);
        let tail_inside = match self.last_tail_position {
            Some(position) => self.arena.contains(position),
            None => true,
        };
        let growth_has_head = !pending(&self.events, Event::Growth) || self.head.is_some();
        arena_fits && start_fits && snake_whole && tail_inside && growth_has_head && all_inside(
            &self.arena,
            &self.segments,
        )
    }

    /// Returns a game in which nothing has been created yet, or `None` unless
    /// the configuration is usable: both sides of the arena are positive and
    /// at most `i32::MAX`, and the arena holds both the start position and the
    /// position directly below it, where a new snake's second segment goes.
    pub fn new(config: Config) -> (game: Option<Game>)
        ensures
            match game {
                Some(game) => game@ == World::empty(config.arena(), config.start@) && game.wf(),
                None => !World::empty(config.arena(), config.start@).wf(),
            },
    {
        match Arena::new(config.arena_width, config.arena_height) {
            Some(arena) => {
                if arena.contains(config.start) && config.start.y >= 1 {
                    let game = Game {
                        arena,
                        start: config.start,
                        head: None,
                        segments: Vec::new(),
                        food: Vec::new(),
                        last_tail_position: None,
                        events: Vec::new(),
                    };
                    Some(game)
                } else {
                    None
                }
            },
            None => None,
        }
    }

    /// Raises the spawn signal.
    pub fn emit_spawn_signal(&mut self)
        ensures
            final(self)@ == old(self)@.signalled(),
            old(self).wf() ==> final(self).wf(),
    {
        self.events.push(Event::Spawn);
    }

    /// Appends one segment at the tail end of the body.
    pub fn spawn_segment(&mut self, position: Position)
        ensures
            final(self)@ == (World { body: old(self)@.body.push(position@), ..old(self)@ }),
    {
        self.segments.push(position);
    }

    /// Creates the snake if a spawn signal waits: a head that faces up at the
    /// start position and one segment directly behind it replace whatever body
    /// there was. Without the signal nothing changes.
    pub fn spawn_snake(&mut self)
        requires
            old(self)@.events.contains(Event::Spawn) ==> old(self)@.start.stepped(
                Direction::Down,
            ).representable(),
        ensures
            final(self)@ == old(self)@.snake_spawned(),
            old(self).wf() ==> final(self).wf(),
    {
        if pending(&self.events, Event::Spawn) {
            self.head = Some(SnakeHead { direction: Direction::Up });
            self.segments = Vec::new();
            self.spawn_segment(self.start);
            self.spawn_segment(self.start.stepped(Direction::Down));
        }
    }

    /// Updates the direction of the head from the pressed inputs. The first
    /// pressed input in the order up, down, right, left is the request; the
    /// head keeps its direction if nothing is pressed or if the request would
    /// reverse it. Without a head nothing changes.
    pub fn snake_movement_input(&mut self, input: DirectionInput)
        ensures
            final(self)@ == old(self)@.steered(input),
            old(self)@.head matches Some(before) ==> final(self)@.head != Some(before.opposite()),
            old(self).wf() ==> final(self).wf(),
    {
        if let Some(head) = self.head {
            self.head = Some(SnakeHead { direction: head.direction.turn(input) });
        }
    }

    /// Returns whether the movement step can run: whether the position that
    /// the head would enter is representable.
    pub fn movement_fits(&self) -> (fits: bool)
        ensures
            fits == self@.movement_fits(),
    {
        match self.head {
            Some(head) => {
                if self.segments.len() > 0 {
                    self.segments[0].checked_stepped(head.direction).is_some()
                } else {
                    true
                }
            },
            None => true,
        }
    }

    /// Moves the snake by one cell.
    ///
    /// The head enters the neighbouring position it faces and every other
    /// segment enters the position that the segment ahead of it held. The
    /// position that the tail held is remembered. A game-over signal is raised
    /// if the head's new position lies outside the arena, and another if it is
    /// a position that the body held before the move. Without a head nothing
    /// changes.
    pub fn snake_movement(&mut self)
        requires
            old(self)@.movement_fits(),
        ensures
            final(self)@ == old(self)@.moved(),
    {
        let direction = match self.head {
            Some(head) => head.direction,
            None => {
                return ;
            },
        };
        let count = self.segments.len();
        if count == 0 {
            return ;
        }
        let target = self.segments[0].stepped(direction);
        self.last_tail_position = Some(self.segments[count - 1]);
        if !self.arena.contains(target) {
            self.events.push(Event::GameOver);
        }
        if occupied(&self.segments, target) {
            self.events.push(Event::GameOver);
        }
        let mut moved: Vec<Position> = Vec::new();
        moved.push(target);
        let mut i: usize = 0;
        while i < count - 1
            invariant
                count == self.segments.len(),
                0 < count,
                i <= count - 1,
                moved@ == seq![target] + self.segments@.take(i as int),
            decreases count - i,
        {
            moved.push(self.segments[i]);
            i += 1;
        }
        self.segments = moved;
    }

    /// Lets the head eat: every food at the head's position is removed, and
    /// one growth signal is raised for each food removed. Without a head
    /// nothing changes.
    pub fn snake_eating(&mut self)
        ensures
            final(self)@ == old(self)@.fed(),
    {
        if self.head.is_some() && self.segments.len() > 0 {
            let at = self.segments[0];
            let left = eat(&self.food, at, &mut self.events);
            self.food = left;
        }
    }

    /// Lengthens the snake if any growth signal waits: exactly one segment is
    /// appended, at the position that the tail left in the latest movement,
    /// however many signals wait. Without a signal nothing changes.
    pub fn snake_growth(&mut self)
        requires
            old(self)@.events.contains(Event::Growth) ==> old(self)@.last_tail is Some,
        ensures
            final(self)@ == old(self)@.grown(),
    {
        if pending(&self.events, Event::Growth) {
            if let Some(tail) = self.last_tail_position {
                self.spawn_segment(tail);
            }
        }
    }

    /// Puts one new food into the arena if a spawn or growth signal waits, in
    /// the position that the two draws select. Without a signal nothing
    /// changes. The position is not kept clear of the snake.
    pub fn place_food(&mut self, x_draw: u32, y_draw: u32)
        requires
            old(self).arena.wf(),
        ensures
            final(self)@ == old(self)@.food_spawned(x_draw as int, y_draw as int),
            old(self)@.food_inside() ==> final(self)@.food_inside(),
    {
        if pending(&self.events, Event::Spawn) || pending(&self.events, Event::Growth) {
            let position = self.arena.position_at(x_draw, y_draw);
            self.food.push(position);
            assert(cells(self.food@) =~= cells(old(self).food@).push(position@));
        }
    }

    /// Puts one new food into the arena if a spawn or growth signal waits, in
    /// a position drawn at random. Whatever is drawn, the state afterwards is
    /// the one that [`Game::place_food`] reaches with some pair of draws.
    pub fn spawn_food(&mut self)
        requires
            old(self).arena.wf(),
        ensures
            exists|x_draw: u32, y_draw: u32|
                final(self)@ == #[trigger] old(self)@.food_spawned(x_draw as int, y_draw as int),
            old(self)@.food_inside() ==> final(self)@.food_inside(),
    {
        if pending(&self.events, Event::Spawn) || pending(&self.events, Event::Growth) {
            let x_draw = draw();
            let y_draw = draw();
            self.place_food(x_draw, y_draw);
        } else {
            assert(self@ == old(self)@.food_spawned(0u32 as int, 0u32 as int));
        }
    }

    /// Ends the game if any game-over signal waits: the head, every segment
    /// and every food are removed, however many signals wait. Without a signal
    /// nothing changes.
    pub fn game_over(&mut self)
        ensures
            final(self)@ == old(self)@.ended(),
    {
        if pending(&self.events, Event::GameOver) {
            self.head = None;
            self.segments = Vec::new();
            self.food = Vec::new();
        }
    }

    /// Advances the game by one tick, with the draws that place a new food
    /// given by the caller.
    ///
    /// The steps run in a fixed order: direction update, movement, eating,
    /// growth, food spawning, game over. The signals of the tick are then
    /// cleared and returned, oldest first.
    pub fn tick_with(&mut self, input: DirectionInput, x_draw: u32, y_draw: u32) -> (events: Vec<
        Event,
    >)
        requires
            old(self).wf(),
        ensures
            final(self)@ == old(self)@.ticked(input, x_draw as int, y_draw as int),
            events@ == old(self)@.tick_events(input, x_draw as int, y_draw as int),
            final(self).wf(),
            old(self)@.food_inside() ==> final(self)@.food_inside(),
    {
        proof {
            law_tick_keeps_wf(self@, input, x_draw as int, y_draw as int);
            if self@.food_inside() {
                law_food_stays_inside(self@, input, x_draw as int, y_draw as int);
            }
        }
        self.snake_movement_input(input);
        self.snake_movement();
        self.snake_eating();
        self.snake_growth();
        self.place_food(x_draw, y_draw);
        self.game_over();
        self.take_events()
    }

    /// Advances the game by one tick, placing a new food at random.
    ///
    /// Whatever is drawn, the tick is the one that [`Game::tick_with`] runs
    /// with some pair of draws.
    pub fn tick(&mut self, input: DirectionInput) -> (events: Vec<Event>)
        requires
            old(self).wf(),
        ensures
            exists|x_draw: u32, y_draw: u32|
                final(self)@ == #[trigger] old(self)@.ticked(input, x_draw as int, y_draw as int)
                    && events@ == old(self)@.tick_events(input, x_draw as int, y_draw as int),
            final(self).wf(),
            old(self)@.food_inside() ==> final(self)@.food_inside(),
    {
        self.snake_movement_input(input);
        self.snake_movement();
        self.snake_eating();
        self.snake_growth();
        let ghost grown = self@;
        self.spawn_food();
        let ghost (x_draw, y_draw) = choose|x_draw: u32, y_draw: u32|
            self@ == #[trigger] grown.food_spawned(x_draw as int, y_draw as int);
        self.game_over();
        let events = self.take_events();
        proof {
            law_tick_keeps_wf(old(self)@, input, x_draw as int, y_draw as int);
            if old(self)@.food_inside() {
                law_food_stays_inside(old(self)@, input, x_draw as int, y_draw as int);
            }
        }
        events
    }

    /// Clears the signals and returns them, oldest first.
    pub fn take_events(&mut self) -> (events: Vec<Event>)
        ensures
            events@ == old(self)@.events,
            final(self)@ == (World { events: Seq::empty(), ..old(self)@ }),
    {
        let mut events: Vec<Event> = Vec::new();
        std::mem::swap(&mut self.events, &mut events);
        events
    }
}

} // verus!
