//! The signals that the steps of a tick raise for one another.

use vstd::prelude::*;

verus! {

/// A unit signal, raised by one step and seen by every later step of the same
/// tick.
#[derive(Clone, Copy, Debug, PartialEq, Eq, Structural)]
pub enum Event {
    /// The snake and the first food are to be created.
    Spawn,
    /// The head reached a food: the body is to lengthen.
    Growth,
    /// The head left the arena or ran into the body.
    GameOver,
}

/// The queue that holds `count` copies of `event` and nothing else.
pub open spec fn repeated(event: Event, count: nat) -> Seq<Event> {
    Seq::new(count, |i: int| event)
}

/// How many times `event` occurs in the queue.
pub open spec fn occurrences(events: Seq<Event>, event: Event) -> nat {
    events.to_multiset().count(event)
}

/// A queue of copies of one signal holds that signal, if it holds anything,
/// and no other.
pub proof fn lemma_repeated_contains(event: Event, count: nat, other: Event)
    ensures
        repeated(event, count).contains(other) <==> (count > 0 && other == event),
{
    if count > 0 && other == event {
        assert(repeated(event, count)[0] == other);
    }
}

/// A signal occurs in a queue of `count` copies of it `count` times, and any
/// other signal does not occur there.
pub proof fn lemma_repeated_occurrences(event: Event, count: nat, other: Event)
    ensures
        occurrences(repeated(event, count), other) == if other == event {
            count
        } else {
            0
        },
    decreases count,
{
    broadcast use vstd::multiset::group_multiset_axioms;

    if count == 0 {
        assert(repeated(event, count) =~= Seq::<Event>::empty());
        assert(Seq::<Event>::empty().to_multiset() =~= vstd::multiset::Multiset::<Event>::empty())
            by {
            vstd::seq_lib::to_multiset_len(Seq::<Event>::empty());
        }
    } else {
        let shorter = repeated(event, (count - 1) as nat);
        lemma_repeated_occurrences(event, (count - 1) as nat, other);
        assert(repeated(event, count) =~= shorter.push(event));
        vstd::seq_lib::to_multiset_build(shorter, event);
    }
}

/// A signal waits in two queues joined exactly when it waits in one of them.
pub proof fn lemma_joined_contains(first: Seq<Event>, second: Seq<Event>, event: Event)
    ensures
        (first + second).contains(event) <==> first.contains(event) || second.contains(event),
{
    let joined = first + second;
    if first.contains(event) {
        let i = choose|i: int| 0 <= i < first.len() && first[i] == event;
        assert(joined[i] == event);
    }
    if second.contains(event) {
        let i = choose|i: int| 0 <= i < second.len() && second[i] == event;
        assert(joined[first.len() + i] == event);
    }
}

/// A signal occurs in two queues joined as often as in both together.
pub proof fn lemma_joined_occurrences(first: Seq<Event>, second: Seq<Event>, event: Event)
    ensures
        occurrences(first + second, event) == occurrences(first, event) + occurrences(
            second,
            event,
        ),
{
    broadcast use vstd::multiset::group_multiset_axioms;

    vstd::seq_lib::lemma_multiset_commutative(first, second);
}

/// A signal waits in a queue exactly when it occurs there at least once.
pub proof fn lemma_occurs_when_pending(events: Seq<Event>, event: Event)
    ensures
        events.contains(event) <==> occurrences(events, event) > 0,
{
    vstd::seq_lib::to_multiset_contains(events, event);
}

/// Returns whether `event` waits in the queue, however many times.
pub fn pending(events: &Vec<Event>, event: Event) -> (found: bool)
    ensures
        found == events@.contains(event),
{
    let mut i: usize = 0;
    while i < events.len()
        invariant
            i <= events.len(),
            forall|j: int| 0 <= j < i ==> events@[j] != event,
        decreases events.len() - i,
    {
        if events[i] == event {
            return true;
        }
        i += 1;
    }
    false
}

} // verus!
