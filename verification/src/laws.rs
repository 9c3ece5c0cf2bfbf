//! What holds of the model in every state: the properties of the steps and of
//! a whole tick, each proved from the definitions in [`crate::world`].

use crate::direction::DirectionInput;
use crate::events::{
    lemma_joined_contains, lemma_joined_occurrences, lemma_occurs_when_pending,
    lemma_repeated_contains, lemma_repeated_occurrences, occurrences, repeated, Event,
};
use crate::grid::{lemma_scaled_in_range, DRAWS};
use crate::world::{apart_from, World};
use vstd::prelude::*;

verus! {

/// A direction update never turns the head around: the new direction is not
/// the opposite of the old one, and a request for the opposite leaves the
/// state as it was.
pub proof fn law_direction_never_reverses(world: World, input: DirectionInput)
    ensures
        world.head matches Some(before) ==> world.steered(input).head != Some(before.opposite()),
        world.head matches Some(before) && input.requested() == Some(before.opposite())
            ==> world.steered(input) == world,
{
}

/// A direction update keeps a well-formed state well formed.
pub proof fn law_steering_keeps_wf(world: World, input: DirectionInput)
    requires
        world.wf(),
    ensures
        world.steered(input).wf(),
{
}

/// Raising the spawn signal and spawning the snake keep a well-formed state
/// well formed: the new snake lies inside the arena.
pub proof fn law_startup_keeps_wf(world: World)
    requires
        world.wf(),
    ensures
        world.signalled().wf(),
        world.snake_spawned().wf(),
{
}

/// A food that is put into the arena lies in one of its cells, whatever the
/// draws.
pub proof fn law_new_food_inside(world: World, x_draw: int, y_draw: int)
    requires
        world.arena.wf(),
        world.food_inside(),
        0 <= x_draw < DRAWS,
        0 <= y_draw < DRAWS,
    ensures
        world.food_spawned(x_draw, y_draw).food_inside(),
        world.arena.holds(world.arena.cell_at(x_draw, y_draw)),
{
    lemma_scaled_in_range(x_draw, world.arena.width as int);
    lemma_scaled_in_range(y_draw, world.arena.height as int);
}

/// The growth step lengthens the body by one segment if a growth signal waits
/// and a tail cell is remembered, and leaves its length alone otherwise,
/// however many signals wait.
pub proof fn law_growth_appends_one(world: World)
    ensures
        world.grown().body.len() == world.body.len() + if world.events.contains(Event::Growth)
            && world.last_tail is Some {
            1int
        } else {
            0int
        },
        world.events.contains(Event::Growth) && world.last_tail is Some
            ==> world.grown().body.last() == world.last_tail->0,
{
}

/// In a movement every segment but the head enters the cell that the segment
/// ahead of it held before, and the body keeps its length.
pub proof fn law_follow_the_leader(world: World)
    requires
        world.wf(),
    ensures
        world.moved().body.len() == world.body.len(),
        forall|i: int|
            0 < i < world.body.len() ==> #[trigger] world.moved().body[i] == world.body[i - 1],
{
}

/// A movement whose head stays inside the arena and clear of the body raises
/// no signal; one whose head leaves the arena raises a game-over signal.
pub proof fn law_boundary(world: World)
    ensures
        world.next_head() matches Some(to) ==> {
            &&& world.arena.holds(to) && !world.hits_body(to) ==> world.moved().events
                == world.events
            &&& !world.arena.holds(to) ==> world.collisions(to) >= 1
                && world.moved().events.contains(Event::GameOver)
        },
{
    if let Some(to) = world.next_head() {
        let raised = repeated(Event::GameOver, world.collisions(to));
        lemma_repeated_contains(Event::GameOver, world.collisions(to), Event::GameOver);
        lemma_joined_contains(world.events, raised, Event::GameOver);
    }
}

/// A movement whose head enters a cell that the body held raises exactly one
/// game-over signal, however many segments lay there.
pub proof fn law_self_collision(world: World)
    requires
        world.wf(),
    ensures
        world.next_head() matches Some(to) ==> (world.hits_body(to) ==> world.collisions(to) == 1
            && world.moved().events == world.events.push(Event::GameOver)),
{
}

/// A movement raises one game-over signal for leaving the arena and one for
/// hitting the body, so none, one or two, and no other signal.
pub proof fn law_movement_signals(world: World)
    ensures
        world.next_head() matches Some(to) ==> {
            &&& occurrences(world.moved().events, Event::GameOver) == occurrences(
                world.events,
                Event::GameOver,
            ) + world.collisions(to)
            &&& occurrences(world.moved().events, Event::Growth) == occurrences(
                world.events,
                Event::Growth,
            )
            &&& occurrences(world.moved().events, Event::Spawn) == occurrences(
                world.events,
                Event::Spawn,
            )
        },
{
    if let Some(to) = world.next_head() {
        let raised = repeated(Event::GameOver, world.collisions(to));
        lemma_joined_occurrences(world.events, raised, Event::GameOver);
        lemma_joined_occurrences(world.events, raised, Event::Growth);
        lemma_joined_occurrences(world.events, raised, Event::Spawn);
        lemma_repeated_occurrences(Event::GameOver, world.collisions(to), Event::GameOver);
        lemma_repeated_occurrences(Event::GameOver, world.collisions(to), Event::Growth);
        lemma_repeated_occurrences(Event::GameOver, world.collisions(to), Event::Spawn);
    }
}

/// After the game-over step has seen a signal there is no head, no segment
/// and no food, and running the step again changes nothing.
pub proof fn law_game_over_idempotent(world: World)
    ensures
        world.events.contains(Event::GameOver) ==> world.ended().head is None
            && world.ended().body.len() == 0 && world.ended().food.len() == 0,
        world.ended().ended() == world.ended(),
{
}

/// Further game-over signals in a tick change nothing: with one signal
/// waiting, the step reaches the same head, body and food however many more
/// are raised.
pub proof fn law_game_over_signals_collapse(world: World, more: nat)
    requires
        world.events.contains(Event::GameOver),
    ensures
        (World { events: world.events + repeated(Event::GameOver, more), ..world }).ended() == (
        World { events: world.events + repeated(Event::GameOver, more), ..world.ended() }),
{
    lemma_joined_contains(world.events, repeated(Event::GameOver, more), Event::GameOver);
}

/// From a well-formed state every step of a tick can run: the head's next
/// cell is representable, and the growth step, if it has a signal to act on,
/// finds a remembered tail cell.
pub proof fn law_tick_steps_defined(world: World, input: DirectionInput)
    requires
        world.wf(),
    ensures
        world.steered(input).movement_fits(),
        world.steered(input).moved().fed().events.contains(Event::Growth) ==> world.steered(
            input,
        ).moved().fed().last_tail is Some,
{
}

/// A tick takes a well-formed state to a well-formed state: whatever left
/// the arena during the tick is gone at its end.
pub proof fn law_tick_keeps_wf(world: World, input: DirectionInput, x_draw: int, y_draw: int)
    requires
        world.wf(),
    ensures
        world.ticked(input, x_draw, y_draw).wf(),
{
    let steered = world.steered(input);
    let moved = steered.moved();
    let fed = moved.fed();
    if world.head is Some && !world.arena.holds(steered.next_head()->0) {
        law_boundary(steered);
        lemma_joined_contains(
            moved.events,
            repeated(Event::Growth, (moved.food.len() - fed.food.len()) as nat),
            Event::GameOver,
        );
    }
}

/// A tick that starts with every food inside the arena ends with every food
/// inside the arena: a new food is put into a cell of the arena.
pub proof fn law_food_stays_inside(world: World, input: DirectionInput, x_draw: int, y_draw: int)
    requires
        world.wf(),
        world.food_inside(),
        0 <= x_draw < DRAWS,
        0 <= y_draw < DRAWS,
    ensures
        world.ticked(input, x_draw, y_draw).food_inside(),
{
    let fed = world.steered(input).moved().fed();
    lemma_scaled_in_range(x_draw, world.arena.width as int);
    lemma_scaled_in_range(y_draw, world.arena.height as int);
    assert forall|i: int| 0 <= i < fed.food.len() implies world.arena.holds(
        #[trigger] fed.food[i],
    ) by {
        if fed.food != world.food {
            let at = world.steered(input).moved().head_cell()->0;
            world.food.lemma_filter_contains_rev(apart_from(at), fed.food[i]);
        }
    }
}

/// A tick sees a game-over signal exactly when one waited as it began, or the
/// head's new cell lies outside the arena, or the head's new cell is one that
/// the body held.
pub proof fn law_tick_game_over(world: World, input: DirectionInput, x_draw: int, y_draw: int)
    ensures
        world.tick_events(input, x_draw, y_draw).contains(Event::GameOver) <==> (
        world.events.contains(Event::GameOver) || (world.steered(input).next_head() matches Some(
            to,
        ) && (world.steered(input).leaves_arena(to) || world.steered(input).hits_body(to)))),
{
    let steered = world.steered(input);
    let moved = steered.moved();
    let fed = moved.fed();
    if let Some(to) = steered.next_head() {
        let raised = repeated(Event::GameOver, steered.collisions(to));
        lemma_joined_contains(world.events, raised, Event::GameOver);
        lemma_repeated_contains(Event::GameOver, steered.collisions(to), Event::GameOver);
    }
    if moved.head_cell() is Some {
        let eaten = (moved.food.len() - fed.food.len()) as nat;
        lemma_joined_contains(moved.events, repeated(Event::Growth, eaten), Event::GameOver);
    }
}

/// Over a tick without a game-over signal the body grows by one segment if a
/// growth signal was seen in the tick, and keeps its length if none was; a
/// tick with a game-over signal leaves no segment.
pub proof fn law_tick_segment_count(world: World, input: DirectionInput, x_draw: int, y_draw: int)
    requires
        world.wf(),
    ensures
        ({
            let after = world.ticked(input, x_draw, y_draw);
            let seen = world.tick_events(input, x_draw, y_draw);
            if seen.contains(Event::GameOver) {
                after.body.len() == 0
            } else {
                after.body.len() == world.body.len() + if seen.contains(Event::Growth) {
                    1int
                } else {
                    0int
                }
            }
        }),
{
}

/// Over a tick without a game-over signal in which at most one growth signal
/// was seen, the body grows by as many segments as growth signals were seen.
pub proof fn law_segments_follow_growth(
    world: World,
    input: DirectionInput,
    x_draw: int,
    y_draw: int,
)
    requires
        world.wf(),
        !world.tick_events(input, x_draw, y_draw).contains(Event::GameOver),
        occurrences(world.tick_events(input, x_draw, y_draw), Event::Growth) <= 1,
    ensures
        world.ticked(input, x_draw, y_draw).body.len() == world.body.len() + occurrences(
            world.tick_events(input, x_draw, y_draw),
            Event::Growth,
        ),
{
    lemma_occurs_when_pending(world.tick_events(input, x_draw, y_draw), Event::Growth);
}

/// A tick that starts with no growth signal waiting and with at most one
/// food sees at most one growth signal.
pub proof fn law_one_food_one_growth(world: World, input: DirectionInput, x_draw: int, y_draw: int)
    requires
        world.wf(),
        !world.events.contains(Event::Growth),
        world.food.len() <= 1,
    ensures
        occurrences(world.tick_events(input, x_draw, y_draw), Event::Growth) <= 1,
{
    let moved = world.steered(input).moved();
    let fed = moved.fed();
    let eaten = (moved.food.len() - fed.food.len()) as nat;
    lemma_occurs_when_pending(world.events, Event::Growth);
    if world.head is Some {
        law_movement_signals(world.steered(input));
        lemma_joined_occurrences(moved.events, repeated(Event::Growth, eaten), Event::Growth);
        lemma_repeated_occurrences(Event::Growth, eaten, Event::Growth);
    }
}

/// Over a whole tick every segment that is left, a newly grown one too,
/// holds the cell that the segment ahead of it held before the tick.
pub proof fn law_tick_follows_the_leader(
    world: World,
    input: DirectionInput,
    x_draw: int,
    y_draw: int,
)
    requires
        world.wf(),
    ensures
        forall|i: int|
            0 < i < world.ticked(input, x_draw, y_draw).body.len() ==> #[trigger] world.ticked(
                input,
                x_draw,
                y_draw,
            ).body[i] == world.body[i - 1],
{
}

} // verus!
