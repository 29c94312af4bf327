//! The tasks that a node runs in the background.

use std::marker::PhantomData;

use madsim::rand::Rng;

use vstd::prelude::*;

use crate::cast::u128_to_u64;
use crate::error::StorageError;
use crate::machine::{action_at, after, is_run, lemma_after_step, lemma_run_prefix, Machine};
use crate::rpc::VoteRequest;
use crate::vote_round::Vote;

verus! {

/// Calls `madsim::rand::Rng::gen_range` on the thread's generator, with the range from 0 up
/// to `bound`. It gives some number of the range, and panics on an empty one. Which number
/// it gives is left to chance.
#[verifier::external_body]
fn random_below(bound: u128) -> (res: u128)
    requires
        0 < bound,
    ensures
        res < bound,
{
    madsim::rand::thread_rng().gen_range(0..bound)
}

/// Whether a number is one that the generator gives when it is asked for one below `bound`.
pub closed spec fn is_draw_below(bound: u128, drawn: u128) -> bool {
    call_ensures(random_below, (bound,), drawn)
}

/// How many milliseconds the election waits before its first tick: a number drawn from those
/// below the heartbeat interval, so that servers are less likely to split the vote.
pub fn election_delay(heartbeat_millis: u128) -> (res: u64)
    requires
        0 < heartbeat_millis <= u64::MAX + 1,
    ensures
        is_draw_below(heartbeat_millis, res as u128),
        res < heartbeat_millis,
{
    delay_millis(random_below(heartbeat_millis))
}

/// A delay of as many milliseconds as were drawn.
pub fn delay_millis(drawn: u128) -> (res: u64)
    requires
        drawn <= u64::MAX,
    ensures
        res == drawn,
{
    u128_to_u64(drawn)
}

/// The request for votes that a tick of the election brings about: one if the state machine
/// puts something to the vote, and none otherwise.
pub fn election_tick(vote: Option<Vote>) -> (res: Option<VoteRequest>)
    ensures
        res == match vote {
            Some(vote) => Some(
                VoteRequest {
                    term: vote.term,
                    candidate_id: vote.candidate_id,
                    last_log_index: vote.last_log_index,
                    last_log_term: vote.last_log_term,
                },
            ),
            None => None,
        },
{
    match vote {
        Some(vote) => Some(vote.request()),
        None => None,
    }
}

/// What the task that writes log entries to the disk is doing.
#[derive(Debug, Clone, Copy, PartialEq, Eq)]
pub enum PersistPhase {
    /// The next entry is awaited
    Receiving,
    /// An entry is being written
    Writing,
    /// No entries are left
    Exited,
}

/// The task that writes log entries to the disk.
#[derive(Debug, PartialEq, Eq)]
pub struct LogPersist<T> {
    /// What is being done
    pub phase: PersistPhase,
    /// The log entries
    pub entries: PhantomData<T>,
}

/// How the last action went.
#[derive(Debug, PartialEq, Eq)]
pub enum PersistEvent<T> {
    /// The next entry, or none if no more can come
    Received(Option<T>),
    /// Whether the entry was written
    Written(Result<(), StorageError>),
}

/// What to do next.
#[derive(Debug, PartialEq, Eq)]
pub enum PersistAction<T> {
    /// Wait for the next entry
    Receive,
    /// Write the entry
    Write(T),
    /// Stop
    Exit,
}

impl<T> Machine for LogPersist<T> {
    type Event = PersistEvent<T>;

    type Action = PersistAction<T>;

    open spec fn awaits(self, event: PersistEvent<T>) -> bool {
        match self.phase {
            PersistPhase::Receiving => event is Received,
            PersistPhase::Writing => event is Written,
            PersistPhase::Exited => false,
        }
    }

    open spec fn next(self, event: PersistEvent<T>) -> (LogPersist<T>, PersistAction<T>) {
        let (phase, action) = match event {
            PersistEvent::Received(Some(entry)) =>
                (PersistPhase::Writing, PersistAction::Write(entry)),
            PersistEvent::Received(None) => (PersistPhase::Exited, PersistAction::Exit),
            PersistEvent::Written(_) => (PersistPhase::Receiving, PersistAction::Receive),
        };
        (LogPersist { phase, entries: self.entries }, action)
    }
}

impl<T> LogPersist<T> {
    /// Whether this is the task as it begins.
    pub open spec fn is_initial(self) -> bool {
        self.phase == PersistPhase::Receiving
    }

    /// The task as it begins: the caller waits for the first entry.
    pub fn start() -> (res: Self)
        ensures
            res.is_initial(),
    {
        LogPersist { phase: PersistPhase::Receiving, entries: PhantomData }
    }

    /// Takes in how the last action went and says what to do next.
    pub fn step(self, event: PersistEvent<T>) -> (res: (Self, PersistAction<T>))
        requires
            self.awaits(event),
        ensures
            res == self.next(event),
    {
        let (phase, action) = match event {
            PersistEvent::Received(Some(entry)) =>
                (PersistPhase::Writing, PersistAction::Write(entry)),
            PersistEvent::Received(None) => (PersistPhase::Exited, PersistAction::Exit),
            PersistEvent::Written(_) => (PersistPhase::Receiving, PersistAction::Receive),
        };
        (LogPersist { phase, entries: self.entries }, action)
    }
}

/// The entries among the events, in the order in which they came.
pub open spec fn received<T>(events: Seq<PersistEvent<T>>) -> Seq<T>
    decreases events.len(),
{
    if events.len() == 0 {
        Seq::empty()
    } else {
        match events.last() {
            PersistEvent::Received(Some(entry)) => received(events.drop_last()).push(entry),
            _ => received(events.drop_last()),
        }
    }
}

/// The entries that a run has written, in order.
pub open spec fn written<T>(start: LogPersist<T>, events: Seq<PersistEvent<T>>) -> Seq<T>
    decreases events.len(),
{
    if events.len() == 0 {
        Seq::empty()
    } else {
        match action_at(start, events, events.len() - 1) {
            PersistAction::Write(entry) => written(start, events.drop_last()).push(entry),
            _ => written(start, events.drop_last()),
        }
    }
}

/// Every log entry is written, each once, in the order in which they came. A failure to
/// write one holds no later one back.
pub proof fn law_every_entry_is_written<T>(start: LogPersist<T>, events: Seq<PersistEvent<T>>)
    requires
        start.is_initial(),
        is_run(start, events),
    ensures
        written(start, events) == received(events),
    decreases events.len(),
{
    if events.len() > 0 {
        let n = events.len() - 1;
        lemma_run_prefix(start, events, n);
        assert(events.take(n) =~= events.drop_last());
        law_every_entry_is_written(start, events.drop_last());
    }
}

/// The task exits exactly when no more entries can come, and never on a storage error.
pub proof fn law_exit_reason<T>(start: LogPersist<T>, events: Seq<PersistEvent<T>>, i: int)
    requires
        start.is_initial(),
        is_run(start, events),
        0 <= i < events.len(),
    ensures
        action_at(start, events, i) is Exit <==> events[i] == PersistEvent::<T>::Received(None),
        action_at(start, events, i) is Exit ==> i == events.len() - 1,
{
    lemma_after_step(start, events, i);
    if action_at(start, events, i) is Exit && i + 1 < events.len() {
        assert(after(start, events.take(i + 1)).awaits(events[i + 1]));
    }
}

/// Each log entry that comes is written, whatever became of the ones before it, and after each
/// attempt the next is awaited.
pub proof fn law_entries_are_taken_in_turn<T>(
    start: LogPersist<T>,
    events: Seq<PersistEvent<T>>,
    i: int,
)
    requires
        start.is_initial(),
        is_run(start, events),
        0 <= i < events.len(),
    ensures
        match events[i] {
            PersistEvent::Received(Some(entry)) => action_at(start, events, i) == PersistAction::<
                T,
            >::Write(entry),
            PersistEvent::Received(None) => action_at(start, events, i) == PersistAction::<T>::Exit,
            PersistEvent::Written(_) => action_at(start, events, i) == PersistAction::<T>::Receive,
        },
{
    assert(after(start, events.take(i)).awaits(events[i]));
}

/// Every action is answered by how it went and by nothing else, the exit by nothing at all. The
/// task begins with the wait for an entry.
pub proof fn law_each_persist_action_is_answered<T>(
    start: LogPersist<T>,
    events: Seq<PersistEvent<T>>,
    event: PersistEvent<T>,
)
    requires
        start.is_initial(),
        is_run(start, events),
    ensures
        events.len() == 0 ==> (after(start, events).awaits(event) <==> event is Received),
        events.len() > 0 ==> (after(start, events).awaits(event) <==> match action_at(
            start,
            events,
            events.len() - 1,
        ) {
            PersistAction::Receive => event is Received,
            PersistAction::Write(_) => event is Written,
            PersistAction::Exit => false,
        }),
{
    if events.len() > 0 {
        let n = events.len() - 1;
        assert(events.take(n) =~= events.drop_last());
        assert(after(start, events.take(n)).awaits(events[n]));
    }
}

/// A number that is drawn lies below the bound.
pub proof fn law_draw_is_below_bound(bound: u128, drawn: u128)
    requires
        is_draw_below(bound, drawn),
    ensures
        drawn < bound,
{
}

} // verus!
