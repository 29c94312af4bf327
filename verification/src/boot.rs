//! Bringing a node up.

use std::marker::PhantomData;

use vstd::pervasive::unreached;
use vstd::prelude::*;

use crate::error::{concat, CurpError, StorageError};
use crate::log_entry::{LogEntry, LogIndex, ServerId};
use crate::machine::{action_at, after, is_run, lemma_after_step, Machine};

verus! {

/// What the storage holds of an earlier life of the node.
#[derive(Debug, PartialEq, Eq)]
pub struct Recovered<C> {
    /// The last vote: its term and whom it was for
    pub voted_for: Option<(u64, ServerId)>,
    /// The log entries
    pub entries: Vec<LogEntry<C>>,
}

impl<C> Recovered<C> {
    /// Whether the node has had no earlier life.
    pub open spec fn is_fresh(&self) -> bool {
        self.voted_for is None && self.entries@.len() == 0
    }
}

/// Why a node could not be brought up.
#[derive(Debug, PartialEq, Eq)]
pub enum BootFailure {
    /// The command executor cannot tell what it has applied
    LastApplied(String),
    /// The storage failed
    Storage(StorageError),
}

/// How far a node has come up.
#[derive(Debug, PartialEq, Eq)]
pub enum BootPhase {
    /// Connecting to the other servers
    Connecting,
    /// Asking the command executor what it has applied
    ReadingLastApplied,
    /// Opening the storage
    OpeningStorage {
        /// Position of the last entry that the command executor has applied
        last_applied: LogIndex,
    },
    /// Reading the storage
    Recovering {
        /// Position of the last entry that the command executor has applied
        last_applied: LogIndex,
    },
    /// Making the state machine
    Creating,
    /// Starting the workers that execute commands
    StartingWorkers,
    /// Starting the garbage collection
    StartingGc,
    /// Starting the background tasks
    StartingTasks,
    /// Up, or failed
    Finished,
}

/// The bringing up of a node.
#[derive(Debug, PartialEq, Eq)]
pub struct Boot<C> {
    /// Whether the node is to lead from the start
    pub is_leader: bool,
    /// How far it has come
    pub phase: BootPhase,
    /// The commands in the log
    pub commands: PhantomData<C>,
}

/// How the last action went.
#[derive(Debug, PartialEq, Eq)]
pub enum BootEvent<C> {
    /// The other servers are connected
    Connected,
    /// What the command executor has applied
    LastApplied(Result<LogIndex, String>),
    /// Whether the storage is open
    StorageOpened(Result<(), StorageError>),
    /// What the storage holds
    Recovered(Result<Recovered<C>, StorageError>),
    /// The state machine is made
    Created,
    /// The workers run
    WorkersStarted,
    /// The garbage collection runs
    GcStarted,
    /// The background tasks run
    TasksStarted,
}

/// What to do next.
#[derive(Debug, PartialEq, Eq)]
pub enum BootAction<C> {
    /// Ask the command executor what it has applied
    ReadLastApplied,
    /// Open the storage
    OpenStorage,
    /// Read the storage
    Recover,
    /// Make a new state machine
    CreateFresh {
        /// Whether the node is to lead from the start
        is_leader: bool,
    },
    /// Make the state machine from its earlier life
    CreateRecovered {
        /// Whether the node is to lead from the start
        is_leader: bool,
        /// What the storage holds of it
        recovered: Recovered<C>,
        /// Position of the last entry that the command executor has applied
        last_applied: LogIndex,
    },
    /// Start the workers that execute commands
    StartWorkers,
    /// Start the garbage collection
    StartGc,
    /// Start the background tasks
    StartTasks,
    /// The node is up
    Ready,
    /// Fail
    Fail(BootFailure),
}

impl BootFailure {
    /// The error that bringing the node up fails with.
    pub fn into_error(self) -> (res: CurpError)
        ensures
            match (self, res) {
                (BootFailure::LastApplied(cause), CurpError::Internal(text)) =>
                    text@ == "get applied index error, "@ + cause@,
                (BootFailure::Storage(cause), CurpError::Storage(err)) => err == cause,
                _ => false,
            },
    {
        match self {
            BootFailure::LastApplied(cause) => CurpError::Internal(
                concat("get applied index error, ", cause.as_str()),
            ),
            BootFailure::Storage(cause) => CurpError::Storage(cause),
        }
    }
}

/// What making the state machine takes, given what the storage holds.
pub open spec fn creation<C>(
    is_leader: bool,
    recovered: Recovered<C>,
    last_applied: LogIndex,
) -> BootAction<C> {
    if recovered.is_fresh() {
        BootAction::CreateFresh { is_leader }
    } else {
        BootAction::CreateRecovered { is_leader, recovered, last_applied }
    }
}

impl<C> Machine for Boot<C> {
    type Event = BootEvent<C>;

    type Action = BootAction<C>;

    open spec fn awaits(self, event: BootEvent<C>) -> bool {
        match self.phase {
            BootPhase::Connecting => event is Connected,
            BootPhase::ReadingLastApplied => event is LastApplied,
            BootPhase::OpeningStorage { .. } => event is StorageOpened,
            BootPhase::Recovering { .. } => event is Recovered,
            BootPhase::Creating => event is Created,
            BootPhase::StartingWorkers => event is WorkersStarted,
            BootPhase::StartingGc => event is GcStarted,
            BootPhase::StartingTasks => event is TasksStarted,
            BootPhase::Finished => false,
        }
    }

    open spec fn next(self, event: BootEvent<C>) -> (Boot<C>, BootAction<C>) {
        let (phase, action) = match (self.phase, event) {
            (_, BootEvent::Connected) =>
                (BootPhase::ReadingLastApplied, BootAction::ReadLastApplied),
            (_, BootEvent::LastApplied(Ok(last_applied))) =>
                (BootPhase::OpeningStorage { last_applied }, BootAction::OpenStorage),
            (_, BootEvent::LastApplied(Err(cause))) =>
                (BootPhase::Finished, BootAction::Fail(BootFailure::LastApplied(cause))),
            (BootPhase::OpeningStorage { last_applied }, BootEvent::StorageOpened(Ok(_))) =>
                (BootPhase::Recovering { last_applied }, BootAction::Recover),
            (_, BootEvent::StorageOpened(Err(cause))) =>
                (BootPhase::Finished, BootAction::Fail(BootFailure::Storage(cause))),
            (BootPhase::Recovering { last_applied }, BootEvent::Recovered(Ok(recovered))) =>
                (BootPhase::Creating, creation(self.is_leader, recovered, last_applied)),
            (_, BootEvent::Recovered(Err(cause))) =>
                (BootPhase::Finished, BootAction::Fail(BootFailure::Storage(cause))),
            (_, BootEvent::Created) => (BootPhase::StartingWorkers, BootAction::StartWorkers),
            (_, BootEvent::WorkersStarted) => (BootPhase::StartingGc, BootAction::StartGc),
            (_, BootEvent::GcStarted) => (BootPhase::StartingTasks, BootAction::StartTasks),
            (_, BootEvent::TasksStarted) => (BootPhase::Finished, BootAction::Ready),
            (_, _) => arbitrary(),
        };
        (Boot { is_leader: self.is_leader, phase, commands: self.commands }, action)
    }
}

impl<C> Boot<C> {
    /// Whether this is the bringing up of a node as it begins.
    pub open spec fn is_initial(self, is_leader: bool) -> bool {
        self.is_leader == is_leader && self.phase == BootPhase::Connecting
    }

    /// Begins to bring a node up, which is to lead from the start if `is_leader`: the caller
    /// connects to the other servers.
    pub fn start(is_leader: bool) -> (res: Self)
        ensures
            res.is_initial(is_leader),
    {
        Boot { is_leader, phase: BootPhase::Connecting, commands: PhantomData }
    }

    /// Takes in how the last action went and says what to do next.
    pub fn step(self, event: BootEvent<C>) -> (res: (Self, BootAction<C>))
        requires
            self.awaits(event),
        ensures
            res == self.next(event),
    {
        let (phase, action) = match (self.phase, event) {
            (_, BootEvent::Connected) =>
                (BootPhase::ReadingLastApplied, BootAction::ReadLastApplied),
            (_, BootEvent::LastApplied(Ok(last_applied))) =>
                (BootPhase::OpeningStorage { last_applied }, BootAction::OpenStorage),
            (_, BootEvent::LastApplied(Err(cause))) =>
                (BootPhase::Finished, BootAction::Fail(BootFailure::LastApplied(cause))),
            (BootPhase::OpeningStorage { last_applied }, BootEvent::StorageOpened(Ok(_))) =>
                (BootPhase::Recovering { last_applied }, BootAction::Recover),
            (_, BootEvent::StorageOpened(Err(cause))) =>
                (BootPhase::Finished, BootAction::Fail(BootFailure::Storage(cause))),
            (BootPhase::Recovering { last_applied }, BootEvent::Recovered(Ok(recovered))) => {
                let action = if recovered.voted_for.is_none() && recovered.entries.len() == 0 {
                    BootAction::CreateFresh { is_leader: self.is_leader }
                } else {
                    BootAction::CreateRecovered {
                        is_leader: self.is_leader,
                        recovered,
                        last_applied,
                    }
                };
                (BootPhase::Creating, action)
            },
            (_, BootEvent::Recovered(Err(cause))) =>
                (BootPhase::Finished, BootAction::Fail(BootFailure::Storage(cause))),
            (_, BootEvent::Created) => (BootPhase::StartingWorkers, BootAction::StartWorkers),
            (_, BootEvent::WorkersStarted) => (BootPhase::StartingGc, BootAction::StartGc),
            (_, BootEvent::GcStarted) => (BootPhase::StartingTasks, BootAction::StartTasks),
            (_, BootEvent::TasksStarted) => (BootPhase::Finished, BootAction::Ready),
            (_, _) => unreached(),
        };
        (Boot { is_leader: self.is_leader, phase, commands: self.commands }, action)
    }
}

/// Whether an action begins to run the node: it makes the state machine or starts something.
pub open spec fn is_launch<C>(action: BootAction<C>) -> bool {
    match action {
        BootAction::CreateFresh { .. } => true,
        BootAction::CreateRecovered { .. } => true,
        BootAction::StartWorkers => true,
        BootAction::StartGc => true,
        BootAction::StartTasks => true,
        _ => false,
    }
}

/// How the first `n` events of a run led to where it stands after them.
spec fn is_boot_prefix<C>(state: Boot<C>, events: Seq<BootEvent<C>>, n: int) -> bool {
    &&& n >= 1 ==> events[0] == BootEvent::<C>::Connected
    &&& n == 0 ==> state.phase == BootPhase::Connecting
    &&& n == 1 ==> state.phase == BootPhase::ReadingLastApplied
    &&& n >= 2 && state.phase != BootPhase::Finished ==> {
        &&& events[1] matches BootEvent::LastApplied(Ok(last_applied))
        &&& n == 2 ==> state.phase == (BootPhase::OpeningStorage { last_applied })
        &&& n == 3 ==> state.phase == (BootPhase::Recovering { last_applied })
    }
    &&& n >= 3 && state.phase != BootPhase::Finished ==> (events[2] matches
        BootEvent::StorageOpened(Ok(_)))
    &&& n >= 4 && state.phase != BootPhase::Finished ==> (events[3] matches BootEvent::Recovered(
        Ok(_),
    ))
    &&& n == 4 ==> state.phase == BootPhase::Creating || state.phase == BootPhase::Finished
    &&& n == 5 ==> state.phase == BootPhase::StartingWorkers
    &&& n == 6 ==> state.phase == BootPhase::StartingGc
    &&& n == 7 ==> state.phase == BootPhase::StartingTasks
    &&& n == 8 ==> state.phase == BootPhase::Finished
    &&& n <= 8
}

proof fn lemma_boot_prefix<C>(
    start: Boot<C>,
    is_leader: bool,
    events: Seq<BootEvent<C>>,
    n: int,
)
    requires
        start.is_initial(is_leader),
        is_run(start, events),
        0 <= n <= events.len(),
    ensures
        is_boot_prefix(after(start, events.take(n)), events, n),
        after(start, events.take(n)).is_leader == is_leader,
    decreases n,
{
    if n > 0 {
        lemma_boot_prefix(start, is_leader, events, n - 1);
        lemma_after_step(start, events, n - 1);
        assert(after(start, events.take(n - 1)).awaits(events[n - 1]));
    }
}

/// The state machine starts over exactly if the storage holds neither a vote nor log
/// entries. Otherwise it is made from all that the storage holds and from what the command
/// executor has applied. Either way it leads from the start if the node is to.
pub proof fn law_recovers_what_was_stored<C>(
    start: Boot<C>,
    is_leader: bool,
    events: Seq<BootEvent<C>>,
    recovered: Recovered<C>,
    i: int,
)
    requires
        start.is_initial(is_leader),
        is_run(start, events),
        0 <= i < events.len(),
        events[i] == BootEvent::Recovered(Ok::<Recovered<C>, StorageError>(recovered)),
    ensures
        i == 3,
        recovered.voted_for is None && recovered.entries@.len() == 0 ==> action_at(
            start,
            events,
            i,
        ) == (BootAction::<C>::CreateFresh { is_leader }),
        recovered.voted_for is Some || recovered.entries@.len() > 0 ==> (events[1] matches
            BootEvent::LastApplied(Ok(last_applied)) && action_at(start, events, i)
            == (BootAction::CreateRecovered { is_leader, recovered, last_applied })),
{
    lemma_boot_prefix(start, is_leader, events, i);
    assert(after(start, events.take(i)).awaits(events[i]));
}

/// A node is up only after every step of bringing it up has succeeded, each in its turn.
pub proof fn law_ready_after_every_step<C>(
    start: Boot<C>,
    is_leader: bool,
    events: Seq<BootEvent<C>>,
    i: int,
)
    requires
        start.is_initial(is_leader),
        is_run(start, events),
        0 <= i < events.len(),
        action_at(start, events, i) is Ready,
    ensures
        events.len() == 8,
        events[0] is Connected,
        events[1] matches BootEvent::LastApplied(Ok(_)),
        events[2] matches BootEvent::StorageOpened(Ok(_)),
        events[3] matches BootEvent::Recovered(Ok(_)),
        events[4] is Created,
        events[5] is WorkersStarted,
        events[6] is GcStarted,
        events[7] is TasksStarted,
{
    lemma_boot_prefix(start, is_leader, events, i);
    assert(after(start, events.take(i)).awaits(events[i]));
    lemma_boot_prefix(start, is_leader, events, events.len() as int);
    assert forall|k: int| 4 <= k < i implies after(start, events.take(k)).awaits(
        #[trigger] events[k],
    ) && is_boot_prefix(after(start, events.take(k)), events, k) by {
        lemma_boot_prefix(start, is_leader, events, k);
    }
    assert(events[4] is Created && events[5] is WorkersStarted && events[6] is GcStarted);
    lemma_after_step(start, events, i);
    if i + 1 < events.len() {
        assert(after(start, events.take(i + 1)).awaits(events[i + 1]));
    }
}

/// A failure leaves nothing running: it ends the bringing up, and neither was a state
/// machine made nor anything started before it.
pub proof fn law_failure_leaves_nothing_running<C>(
    start: Boot<C>,
    is_leader: bool,
    events: Seq<BootEvent<C>>,
    i: int,
)
    requires
        start.is_initial(is_leader),
        is_run(start, events),
        0 <= i < events.len(),
        action_at(start, events, i) is Fail,
    ensures
        i == events.len() - 1,
        forall|k: int|
            0 <= k < events.len() ==> !is_launch(#[trigger] action_at(start, events, k)),
{
    lemma_boot_prefix(start, is_leader, events, i);
    assert(after(start, events.take(i)).awaits(events[i]));
    lemma_after_step(start, events, i);
    if i + 1 < events.len() {
        assert(after(start, events.take(i + 1)).awaits(events[i + 1]));
    }
    assert forall|k: int| 0 <= k < events.len() implies !is_launch(
        #[trigger] action_at(start, events, k),
    ) by {
        lemma_boot_prefix(start, is_leader, events, k);
        assert(after(start, events.take(k)).awaits(events[k]));
    }
}

/// What bringing a node up asks for, step by step and whether it is to lead or not: what the
/// command executor has applied, the storage, what it holds, the state machine, the workers,
/// the garbage collection and the background tasks. The first failure is told as it is. The
/// state machine is new exactly if the storage holds neither a vote nor log entries.
pub proof fn law_steps_are_asked_for_in_turn<C>(
    start: Boot<C>,
    is_leader: bool,
    events: Seq<BootEvent<C>>,
    i: int,
)
    requires
        start.is_initial(is_leader),
        is_run(start, events),
        0 <= i < events.len(),
    ensures
        match events[i] {
            BootEvent::Connected => i == 0 && action_at(start, events, i) == BootAction::<
                C,
            >::ReadLastApplied,
            BootEvent::LastApplied(Ok(_)) => i == 1 && action_at(start, events, i) == BootAction::<
                C,
            >::OpenStorage,
            BootEvent::LastApplied(Err(cause)) => i == 1 && action_at(start, events, i)
                == BootAction::<C>::Fail(BootFailure::LastApplied(cause)),
            BootEvent::StorageOpened(Ok(_)) => i == 2 && action_at(start, events, i)
                == BootAction::<C>::Recover,
            BootEvent::StorageOpened(Err(cause)) => i == 2 && action_at(start, events, i)
                == BootAction::<C>::Fail(BootFailure::Storage(cause)),
            BootEvent::Recovered(Ok(recovered)) => {
                &&& i == 3
                &&& events[1] matches BootEvent::LastApplied(Ok(last_applied))
                &&& action_at(start, events, i) == (if recovered.voted_for is None
                    && recovered.entries@.len() == 0 {
                    BootAction::CreateFresh { is_leader }
                } else {
                    BootAction::CreateRecovered { is_leader, recovered, last_applied }
                })
            },
            BootEvent::Recovered(Err(cause)) => i == 3 && action_at(start, events, i)
                == BootAction::<C>::Fail(BootFailure::Storage(cause)),
            BootEvent::Created => i == 4 && action_at(start, events, i) == BootAction::<
                C,
            >::StartWorkers,
            BootEvent::WorkersStarted => i == 5 && action_at(start, events, i) == BootAction::<
                C,
            >::StartGc,
            BootEvent::GcStarted => i == 6 && action_at(start, events, i) == BootAction::<
                C,
            >::StartTasks,
            BootEvent::TasksStarted => i == 7 && action_at(start, events, i) == BootAction::<
                C,
            >::Ready,
        },
{
    lemma_boot_prefix(start, is_leader, events, i);
    assert(after(start, events.take(i)).awaits(events[i]));
}

/// A node that is up has had everything asked for, each exactly once: the making of its state
/// machine, then the workers, then the garbage collection, then the background tasks.
pub proof fn law_everything_is_started_once<C>(
    start: Boot<C>,
    is_leader: bool,
    events: Seq<BootEvent<C>>,
    i: int,
    k: int,
)
    requires
        start.is_initial(is_leader),
        is_run(start, events),
        0 <= i < events.len(),
        action_at(start, events, i) is Ready,
        0 <= k < events.len(),
    ensures
        i == 7,
        events.len() == 8,
        k == 3 <==> action_at(start, events, k) is CreateFresh || action_at(start, events, k) is
            CreateRecovered,
        k == 4 <==> action_at(start, events, k) is StartWorkers,
        k == 5 <==> action_at(start, events, k) is StartGc,
        k == 6 <==> action_at(start, events, k) is StartTasks,
        k == 7 <==> action_at(start, events, k) is Ready,
{
    law_ready_after_every_step(start, is_leader, events, i);
    law_steps_are_asked_for_in_turn(start, is_leader, events, i);
    law_steps_are_asked_for_in_turn(start, is_leader, events, k);
}

/// Every action is answered by how it went and by nothing else, readiness or a failure by
/// nothing at all. Bringing a node up begins with the connections.
pub proof fn law_each_boot_action_is_answered<C>(
    start: Boot<C>,
    is_leader: bool,
    events: Seq<BootEvent<C>>,
    event: BootEvent<C>,
)
    requires
        start.is_initial(is_leader),
        is_run(start, events),
    ensures
        events.len() == 0 ==> (after(start, events).awaits(event) <==> event is Connected),
        events.len() > 0 ==> (after(start, events).awaits(event) <==> match action_at(
            start,
            events,
            events.len() - 1,
        ) {
            BootAction::ReadLastApplied => event is LastApplied,
            BootAction::OpenStorage => event is StorageOpened,
            BootAction::Recover => event is Recovered,
            BootAction::CreateFresh { .. } => event is Created,
            BootAction::CreateRecovered { .. } => event is Created,
            BootAction::StartWorkers => event is WorkersStarted,
            BootAction::StartGc => event is GcStarted,
            BootAction::StartTasks => event is TasksStarted,
            BootAction::Ready => false,
            BootAction::Fail(_) => false,
        }),
{
    if events.len() > 0 {
        let n = events.len() - 1;
        assert(events.take(n) =~= events.drop_last());
        assert(after(start, events.take(n)).awaits(events[n]));
    }
}

} // verus!
