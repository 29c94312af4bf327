//! State machines and their runs.

use vstd::prelude::*;

verus! {

/// A state machine that turns events into actions.
///
/// Its caller does what the last action asks for and hands back how that went as the next
/// event.
pub trait Machine: Sized {
    /// How an action went
    type Event;

    /// What to do next
    type Action;

    /// Whether the event answers what was asked for last.
    spec fn awaits(self, event: Self::Event) -> bool;

    /// The state after an awaited event, and what to do then.
    spec fn next(self, event: Self::Event) -> (Self, Self::Action);
}

/// The state that the events lead to.
pub open spec fn after<M: Machine>(start: M, events: Seq<M::Event>) -> M
    decreases events.len(),
{
    if events.len() == 0 {
        start
    } else {
        after(start, events.drop_last()).next(events.last()).0
    }
}

/// What the machine asks for in answer to the event at `i`.
pub open spec fn action_at<M: Machine>(start: M, events: Seq<M::Event>, i: int) -> M::Action {
    after(start, events.take(i)).next(events[i]).1
}

/// Whether each event is one that the machine awaits when it comes.
pub open spec fn is_run<M: Machine>(start: M, events: Seq<M::Event>) -> bool {
    forall|i: int|
        0 <= i < events.len() ==> #[trigger] after(start, events.take(i)).awaits(events[i])
}

/// One more event leads one transition further.
pub proof fn lemma_after_step<M: Machine>(start: M, events: Seq<M::Event>, i: int)
    requires
        0 <= i < events.len(),
    ensures
        after(start, events.take(i + 1)) == after(start, events.take(i)).next(events[i]).0,
{
    assert(events.take(i + 1).drop_last() =~= events.take(i));
}

/// What a run does first is a run.
pub proof fn lemma_run_prefix<M: Machine>(start: M, events: Seq<M::Event>, n: int)
    requires
        is_run(start, events),
        0 <= n <= events.len(),
    ensures
        is_run(start, events.take(n)),
        forall|i: int|
            0 <= i < n ==> #[trigger] action_at(start, events.take(n), i) == action_at(
                start,
                events,
                i,
            ),
{
    assert forall|i: int| 0 <= i < n implies #[trigger] after(
        start,
        events.take(n).take(i),
    ).awaits(events.take(n)[i]) by {
        assert(events.take(n).take(i) =~= events.take(i));
        assert(after(start, events.take(i)).awaits(events[i]));
    }
    assert forall|i: int| 0 <= i < n implies #[trigger] action_at(start, events.take(n), i)
        == action_at(start, events, i) by {
        assert(events.take(n).take(i) =~= events.take(i));
    }
}

} // verus!
