//! Keeping one follower up to date.

use std::marker::PhantomData;

use vstd::prelude::*;

use crate::error::{SendAEError, SendSnapshotError};
use crate::machine::{action_at, after, is_run, lemma_after_step, Machine};
use crate::send_ae::AppendEntries;

verus! {

/// What the state machine has for the follower.
#[derive(Debug, PartialEq, Eq)]
pub enum SyncOutcome<C, R> {
    /// Nothing: self is no longer leader
    NotLeader,
    /// Log entries, which may be none
    AppendEntries(AppendEntries<C>),
    /// A snapshot, which is still being made, by where it will be received
    Snapshot(R),
}

/// Why the wait for the next sync is over.
#[derive(Debug, Clone, Copy, PartialEq, Eq)]
pub enum Wake {
    /// The heartbeat interval has passed
    Tick,
    /// The follower is no longer to be synced
    Shutdown,
    /// The time to gather log entries has passed
    BatchTimeout,
    /// There are new log entries
    NewEntries,
}

/// What the sync of a follower is doing.
#[derive(Debug, Clone, Copy, PartialEq, Eq)]
pub enum SyncPhase {
    /// Beginning to listen for new log entries
    Listening,
    /// Asking the state machine what the follower needs
    Syncing,
    /// Sending log entries or a heartbeat
    Appending,
    /// Waiting for a snapshot to be made
    AwaitingSnapshot,
    /// Sending a snapshot
    SendingSnapshot,
    /// Waiting for the next sync
    Waiting,
    /// Done
    Stopped,
}

/// The sync of a follower, as its leader runs it. The log carries commands `C`, a snapshot is
/// received from an `R`, and is then an `S`.
#[derive(Debug, PartialEq, Eq)]
pub struct SyncFollower<C, R, S> {
    /// Whether the follower can do without a heartbeat for now
    pub hb_opt: bool,
    /// What is being done
    pub phase: SyncPhase,
    /// What is sent
    pub payloads: PhantomData<(C, R, S)>,
}

/// How the last action went.
#[derive(Debug)]
pub enum SyncEvent<C, R, S> {
    /// New log entries from now on end the next wait
    Listening,
    /// What the state machine has for the follower
    Synced(SyncOutcome<C, R>),
    /// Whether the follower took the log entries
    AppendSent(Result<(), SendAEError>),
    /// The snapshot, or why it was not made
    SnapshotReady(Result<S, String>),
    /// Whether the follower took the snapshot
    SnapshotSent(Result<(), SendSnapshotError>),
    /// The wait is over
    Woken(Wake),
}

/// What to do next.
#[derive(Debug, PartialEq, Eq)]
pub enum SyncStep<C, R, S> {
    /// Begin to listen for new log entries
    Listen,
    /// Ask the state machine
    Sync,
    /// Send the log entries, or a heartbeat if there are none
    SendAppendEntries(AppendEntries<C>),
    /// Wait until the snapshot is made
    AwaitSnapshot(R),
    /// Send the snapshot
    SendSnapshot(S),
    /// Wait until there is reason to sync again
    Wait,
    /// Stop
    Stop,
}

impl<C, R, S> Machine for SyncFollower<C, R, S> {
    type Event = SyncEvent<C, R, S>;

    type Action = SyncStep<C, R, S>;

    open spec fn awaits(self, event: SyncEvent<C, R, S>) -> bool {
        match self.phase {
            SyncPhase::Listening => event is Listening,
            SyncPhase::Syncing => event is Synced,
            SyncPhase::Appending => event is AppendSent,
            SyncPhase::AwaitingSnapshot => event is SnapshotReady,
            SyncPhase::SendingSnapshot => event is SnapshotSent,
            SyncPhase::Waiting => event is Woken,
            SyncPhase::Stopped => false,
        }
    }

    open spec fn next(self, event: SyncEvent<C, R, S>) -> (
        SyncFollower<C, R, S>,
        SyncStep<C, R, S>,
    ) {
        (
            SyncFollower {
                hb_opt: hb_opt_after(self.hb_opt, event),
                phase: phase_of(self.step_after(event)),
                payloads: self.payloads,
            },
            self.step_after(event),
        )
    }
}

/// What is being done while a step is taken.
pub open spec fn phase_of<C, R, S>(step: SyncStep<C, R, S>) -> SyncPhase {
    match step {
        SyncStep::Listen => SyncPhase::Listening,
        SyncStep::Sync => SyncPhase::Syncing,
        SyncStep::SendAppendEntries(_) => SyncPhase::Appending,
        SyncStep::AwaitSnapshot(_) => SyncPhase::AwaitingSnapshot,
        SyncStep::SendSnapshot(_) => SyncPhase::SendingSnapshot,
        SyncStep::Wait => SyncPhase::Waiting,
        SyncStep::Stop => SyncPhase::Stopped,
    }
}

/// Whether an event is the end of a heartbeat interval.
pub open spec fn is_tick<C, R, S>(event: SyncEvent<C, R, S>) -> bool {
    event matches SyncEvent::Woken(Wake::Tick)
}

/// Whether an event makes a heartbeat unnecessary until the next tick: the follower took a
/// message, or the time to gather log entries has passed.
pub open spec fn spares_heartbeat<C, R, S>(event: SyncEvent<C, R, S>) -> bool {
    match event {
        SyncEvent::AppendSent(Ok(_)) => true,
        SyncEvent::Woken(Wake::BatchTimeout) => true,
        _ => false,
    }
}

/// Whether the follower can do without a heartbeat after an event.
pub open spec fn hb_opt_after<C, R, S>(hb_opt: bool, event: SyncEvent<C, R, S>) -> bool {
    match event {
        SyncEvent::AppendSent(Ok(_)) => true,
        SyncEvent::Woken(Wake::BatchTimeout) => true,
        SyncEvent::Woken(Wake::Tick) => false,
        _ => hb_opt,
    }
}

/// Whether an event ends the sync of a follower.
pub open spec fn is_end<C, R, S>(event: SyncEvent<C, R, S>) -> bool {
    match event {
        SyncEvent::Synced(SyncOutcome::NotLeader) => true,
        SyncEvent::AppendSent(Err(SendAEError::NotLeader)) => true,
        SyncEvent::SnapshotSent(Err(SendSnapshotError::NotLeader)) => true,
        SyncEvent::Woken(Wake::Shutdown) => true,
        _ => false,
    }
}

impl<C, R, S> SyncFollower<C, R, S> {
    /// What to do after an event. No entries are sent only if the follower needs a heartbeat.
    pub open spec fn step_after(self, event: SyncEvent<C, R, S>) -> SyncStep<C, R, S> {
        if is_end(event) {
            SyncStep::Stop
        } else {
            match event {
                SyncEvent::Listening => SyncStep::Sync,
                SyncEvent::Synced(SyncOutcome::AppendEntries(ae)) => if !self.hb_opt
                    || !ae.is_heartbeat() {
                    SyncStep::SendAppendEntries(ae)
                } else {
                    SyncStep::Wait
                },
                SyncEvent::Synced(SyncOutcome::Snapshot(pending)) =>
                    SyncStep::AwaitSnapshot(pending),
                SyncEvent::SnapshotReady(Ok(snapshot)) => SyncStep::SendSnapshot(snapshot),
                SyncEvent::Woken(_) => SyncStep::Listen,
                _ => SyncStep::Wait,
            }
        }
    }

    /// Whether this is the sync of a follower as it begins.
    pub open spec fn is_initial(self) -> bool {
        !self.hb_opt && self.phase == SyncPhase::Listening
    }

    /// The sync of a follower as it begins: the caller begins to listen for new log entries.
    pub fn start() -> (res: Self)
        ensures
            res.is_initial(),
    {
        SyncFollower { hb_opt: false, phase: SyncPhase::Listening, payloads: PhantomData }
    }

    /// Takes in how the last action went and says what to do next.
    pub fn step(self, event: SyncEvent<C, R, S>) -> (res: (Self, SyncStep<C, R, S>))
        requires
            self.awaits(event),
        ensures
            res == self.next(event),
    {
        let mut hb_opt = self.hb_opt;
        let step = match event {
            SyncEvent::Listening => SyncStep::Sync,
            SyncEvent::Synced(outcome) => match outcome {
                SyncOutcome::NotLeader => SyncStep::Stop,
                SyncOutcome::AppendEntries(ae) => if !hb_opt || ae.entries.len() != 0 {
                    SyncStep::SendAppendEntries(ae)
                } else {
                    SyncStep::Wait
                },
                SyncOutcome::Snapshot(pending) => SyncStep::AwaitSnapshot(pending),
            },
            SyncEvent::AppendSent(sent) => match sent {
                Ok(_) => {
                    hb_opt = true;
                    SyncStep::Wait
                },
                Err(SendAEError::NotLeader) => SyncStep::Stop,
                Err(_) => SyncStep::Wait,
            },
            SyncEvent::SnapshotReady(ready) => match ready {
                Ok(snapshot) => SyncStep::SendSnapshot(snapshot),
                Err(_) => SyncStep::Wait,
            },
            SyncEvent::SnapshotSent(sent) => match sent {
                Err(SendSnapshotError::NotLeader) => SyncStep::Stop,
                _ => SyncStep::Wait,
            },
            SyncEvent::Woken(wake) => match wake {
                Wake::Tick => {
                    hb_opt = false;
                    SyncStep::Listen
                },
                Wake::Shutdown => SyncStep::Stop,
                Wake::BatchTimeout => {
                    hb_opt = true;
                    SyncStep::Listen
                },
                Wake::NewEntries => SyncStep::Listen,
            },
        };
        let phase = match &step {
            SyncStep::Listen => SyncPhase::Listening,
            SyncStep::Sync => SyncPhase::Syncing,
            SyncStep::SendAppendEntries(_) => SyncPhase::Appending,
            SyncStep::AwaitSnapshot(_) => SyncPhase::AwaitingSnapshot,
            SyncStep::SendSnapshot(_) => SyncPhase::SendingSnapshot,
            SyncStep::Wait => SyncPhase::Waiting,
            SyncStep::Stop => SyncPhase::Stopped,
        };
        (SyncFollower { hb_opt, phase, payloads: self.payloads }, step)
    }
}

/// Whether, before the event at `i`, something has made a heartbeat unnecessary since the
/// last tick, or since the beginning if there was none.
pub open spec fn heartbeat_spared<C, R, S>(events: Seq<SyncEvent<C, R, S>>, i: int) -> bool {
    exists|k: int|
        0 <= k < i && #[trigger] spares_heartbeat(events[k]) && forall|t: int|
            k < t < i ==> !#[trigger] is_tick(events[t])
}

/// The sync does without a heartbeat exactly while one is spared.
proof fn lemma_hb_opt<C, R, S>(
    start: SyncFollower<C, R, S>,
    events: Seq<SyncEvent<C, R, S>>,
    i: int,
)
    requires
        start.is_initial(),
        0 <= i <= events.len(),
    ensures
        after(start, events.take(i)).hb_opt <==> heartbeat_spared(events, i),
    decreases i,
{
    if i == 0 {
        assert(events.take(0) =~= Seq::empty());
    } else {
        lemma_hb_opt(start, events, i - 1);
        lemma_after_step(start, events, i - 1);
        if spares_heartbeat(events[i - 1]) {
            assert(heartbeat_spared(events, i));
        } else if is_tick(events[i - 1]) {
            assert(!heartbeat_spared(events, i));
        } else {
            if heartbeat_spared(events, i - 1) {
                let k = choose|k: int|
                    0 <= k < i - 1 && #[trigger] spares_heartbeat(events[k]) && forall|t: int|
                        k < t < i - 1 ==> !#[trigger] is_tick(events[t]);
                assert(spares_heartbeat(events[k]));
            }
            if heartbeat_spared(events, i) {
                let k = choose|k: int|
                    0 <= k < i && #[trigger] spares_heartbeat(events[k]) && forall|t: int|
                        k < t < i ==> !#[trigger] is_tick(events[t]);
                assert(spares_heartbeat(events[k]));
                assert(k < i - 1);
            }
        }
    }
}

/// When a message goes out: what the state machine gives in a sync is sent, unless it holds no
/// log entries and something has made a heartbeat unnecessary since the last tick. It is then
/// held back, and otherwise sent as it was given.
pub proof fn law_when_a_message_goes_out<C, R, S>(
    start: SyncFollower<C, R, S>,
    events: Seq<SyncEvent<C, R, S>>,
    i: int,
    ae: AppendEntries<C>,
)
    requires
        start.is_initial(),
        is_run(start, events),
        0 <= i < events.len(),
        events[i] == SyncEvent::<C, R, S>::Synced(SyncOutcome::AppendEntries(ae)),
    ensures
        action_at(start, events, i) == (if ae.entries@.len() == 0 && heartbeat_spared(events, i) {
            SyncStep::Wait
        } else {
            SyncStep::<C, R, S>::SendAppendEntries(ae)
        }),
{
    lemma_hb_opt(start, events, i);
}

/// A new leader makes itself known: the first sync of a follower sends a message, even if
/// there are no log entries.
pub proof fn law_first_sync_sends<C, R, S>(
    start: SyncFollower<C, R, S>,
    events: Seq<SyncEvent<C, R, S>>,
    ae: AppendEntries<C>,
)
    requires
        start.is_initial(),
        is_run(start, events),
        events.len() > 1,
        events[1] == SyncEvent::<C, R, S>::Synced(SyncOutcome::AppendEntries(ae)),
    ensures
        events[0] is Listening,
        action_at(start, events, 1) == SyncStep::<C, R, S>::SendAppendEntries(ae),
{
    assert(events.take(0) =~= Seq::empty());
    assert(after(start, events.take(0)).awaits(events[0]));
    law_when_a_message_goes_out(start, events, 1, ae);
}

/// Log entries are never held back.
pub proof fn law_entries_are_sent<C, R, S>(
    start: SyncFollower<C, R, S>,
    events: Seq<SyncEvent<C, R, S>>,
    i: int,
    ae: AppendEntries<C>,
)
    requires
        start.is_initial(),
        is_run(start, events),
        0 <= i < events.len(),
        events[i] == SyncEvent::<C, R, S>::Synced(SyncOutcome::AppendEntries(ae)),
        ae.entries@.len() > 0,
    ensures
        action_at(start, events, i) == SyncStep::<C, R, S>::SendAppendEntries(ae),
{
    law_when_a_message_goes_out(start, events, i, ae);
}

/// Each heartbeat interval brings a message: the sync after a tick sends one, even if there
/// are no log entries.
pub proof fn law_tick_brings_heartbeat<C, R, S>(
    start: SyncFollower<C, R, S>,
    events: Seq<SyncEvent<C, R, S>>,
    i: int,
    ae: AppendEntries<C>,
)
    requires
        start.is_initial(),
        is_run(start, events),
        0 <= i < events.len() - 2,
        events[i] matches SyncEvent::Woken(Wake::Tick),
        events[i + 2] == SyncEvent::<C, R, S>::Synced(SyncOutcome::AppendEntries(ae)),
    ensures
        events[i + 1] is Listening,
        action_at(start, events, i + 2) == SyncStep::<C, R, S>::SendAppendEntries(ae),
{
    assert(after(start, events.take(i)).awaits(events[i]));
    lemma_after_step(start, events, i);
    assert(after(start, events.take(i + 1)).awaits(events[i + 1]));
    law_when_a_message_goes_out(start, events, i + 2, ae);
    assert(is_tick(events[i]));
    assert(!heartbeat_spared(events, i + 2));
}

/// No heartbeat is sent twice: once the follower has taken a message, or the time to gather
/// log entries has passed without any, an empty message is sent only after the next tick.
pub proof fn law_no_heartbeat_before_tick<C, R, S>(
    start: SyncFollower<C, R, S>,
    events: Seq<SyncEvent<C, R, S>>,
    i: int,
    j: int,
    ae: AppendEntries<C>,
)
    requires
        start.is_initial(),
        is_run(start, events),
        0 <= i < j < events.len(),
        (events[i] matches SyncEvent::AppendSent(Ok(_))) || (events[i] matches SyncEvent::Woken(
            Wake::BatchTimeout,
        )),
        forall|k: int|
            i < k < j ==> !(#[trigger] events[k] matches SyncEvent::Woken(Wake::Tick)),
        events[j] == SyncEvent::<C, R, S>::Synced(SyncOutcome::AppendEntries(ae)),
        ae.entries@.len() == 0,
    ensures
        action_at(start, events, j) is Wait,
{
    assert(spares_heartbeat(events[i]));
    law_when_a_message_goes_out(start, events, j, ae);
}

/// What is sent is what there was to send: log entries are those that the state machine gave
/// just before, and a snapshot is the one that came out of what the state machine gave.
pub proof fn law_sends_what_was_given<C, R, S>(
    start: SyncFollower<C, R, S>,
    events: Seq<SyncEvent<C, R, S>>,
    i: int,
)
    requires
        start.is_initial(),
        is_run(start, events),
        0 <= i < events.len(),
    ensures
        action_at(start, events, i) matches SyncStep::SendAppendEntries(ae) ==> events[i]
            == SyncEvent::<C, R, S>::Synced(SyncOutcome::AppendEntries(ae)),
        action_at(start, events, i) matches SyncStep::AwaitSnapshot(pending) ==> events[i]
            == SyncEvent::<C, R, S>::Synced(SyncOutcome::Snapshot(pending)),
        action_at(start, events, i) matches SyncStep::SendSnapshot(snapshot) ==> {
            &&& events[i] == SyncEvent::<C, R, S>::SnapshotReady(Ok(snapshot))
            &&& i >= 1
            &&& events[i - 1] matches SyncEvent::Synced(SyncOutcome::Snapshot(pending))
            &&& action_at(start, events, i - 1) == SyncStep::<C, R, S>::AwaitSnapshot(pending)
        },
{
    assert(after(start, events.take(i)).awaits(events[i]));
    if i >= 1 {
        lemma_after_step(start, events, i - 1);
    } else {
        assert(events.take(0) =~= Seq::empty());
    }
}

/// The sync of a follower ends exactly when self is found to be no longer leader or the
/// follower is no longer to be synced. No rejection, transport error or failed snapshot
/// ends it.
pub proof fn law_end_reasons<C, R, S>(
    start: SyncFollower<C, R, S>,
    events: Seq<SyncEvent<C, R, S>>,
    i: int,
)
    requires
        start.is_initial(),
        is_run(start, events),
        0 <= i < events.len(),
    ensures
        action_at(start, events, i) is Stop <==> is_end(events[i]),
        is_end(events[i]) ==> i == events.len() - 1,
{
    lemma_after_step(start, events, i);
    if is_end(events[i]) && i + 1 < events.len() {
        assert(after(start, events.take(i + 1)).awaits(events[i + 1]));
    }
}

/// No new log entries are missed: the state machine is asked only right after listening for
/// them began, so whatever comes after the question ends the wait that follows it.
pub proof fn law_listens_before_asking<C, R, S>(
    start: SyncFollower<C, R, S>,
    events: Seq<SyncEvent<C, R, S>>,
    i: int,
)
    requires
        start.is_initial(),
        is_run(start, events),
        0 <= i < events.len(),
    ensures
        action_at(start, events, i) is Sync <==> events[i] is Listening,
        events[i] is Listening && i > 0 ==> action_at(start, events, i - 1) is Listen,
        events[i] is Synced ==> i > 0 && events[i - 1] is Listening,
{
    assert(after(start, events.take(i)).awaits(events[i]));
    if i > 0 {
        lemma_after_step(start, events, i - 1);
        assert(after(start, events.take(i - 1)).awaits(events[i - 1]));
    } else {
        assert(events.take(0) =~= Seq::empty());
    }
}

/// Every sync that goes on comes to a wait before the next one: the next begins only once that
/// wait is over, be it by a tick, by new log entries or because the time to gather them has
/// passed.
pub proof fn law_sync_follows_wait<C, R, S>(
    start: SyncFollower<C, R, S>,
    events: Seq<SyncEvent<C, R, S>>,
    i: int,
)
    requires
        start.is_initial(),
        is_run(start, events),
        0 <= i < events.len(),
        action_at(start, events, i) is Listen,
    ensures
        events[i] matches SyncEvent::Woken(wake) && (wake == Wake::Tick || wake
            == Wake::NewEntries || wake == Wake::BatchTimeout),
        i >= 1,
        action_at(start, events, i - 1) is Wait,
{
    assert(after(start, events.take(i)).awaits(events[i]));
    if i >= 1 {
        lemma_after_step(start, events, i - 1);
    } else {
        assert(events.take(0) =~= Seq::empty());
    }
}

/// A snapshot that the state machine has for the follower is never held back: it is awaited as
/// soon as the state machine says so, and sent as soon as it is made, whatever heartbeats,
/// ticks or timeouts came before.
pub proof fn law_snapshot_is_awaited_and_sent<C, R, S>(
    start: SyncFollower<C, R, S>,
    events: Seq<SyncEvent<C, R, S>>,
    i: int,
)
    requires
        start.is_initial(),
        is_run(start, events),
        0 <= i < events.len(),
    ensures
        events[i] matches SyncEvent::Synced(SyncOutcome::Snapshot(pending)) ==> action_at(
            start,
            events,
            i,
        ) == SyncStep::<C, R, S>::AwaitSnapshot(pending),
        events[i] matches SyncEvent::SnapshotReady(Ok(snapshot)) ==> action_at(start, events, i)
            == SyncStep::<C, R, S>::SendSnapshot(snapshot),
{
}

/// Whatever a sync comes to, it ends in a wait unless self is no longer leader, and whatever
/// ends a wait begins the next sync unless it is the shutdown.
pub proof fn law_sync_goes_on<C, R, S>(
    start: SyncFollower<C, R, S>,
    events: Seq<SyncEvent<C, R, S>>,
    i: int,
)
    requires
        start.is_initial(),
        is_run(start, events),
        0 <= i < events.len(),
    ensures
        events[i] matches SyncEvent::AppendSent(sent) ==> action_at(start, events, i) == (
        if sent matches Err(SendAEError::NotLeader) {
            SyncStep::<C, R, S>::Stop
        } else {
            SyncStep::Wait
        }),
        events[i] matches SyncEvent::SnapshotReady(Err(_)) ==> action_at(start, events, i)
            == SyncStep::<C, R, S>::Wait,
        events[i] matches SyncEvent::SnapshotSent(sent) ==> action_at(start, events, i) == (
        if sent matches Err(SendSnapshotError::NotLeader) {
            SyncStep::<C, R, S>::Stop
        } else {
            SyncStep::Wait
        }),
        events[i] matches SyncEvent::Woken(wake) ==> action_at(start, events, i) == (if wake
            == Wake::Shutdown {
            SyncStep::<C, R, S>::Stop
        } else {
            SyncStep::Listen
        }),
        events[i] matches SyncEvent::Synced(SyncOutcome::NotLeader) ==> action_at(start, events, i)
            == SyncStep::<C, R, S>::Stop,
        events[i] is Listening ==> action_at(start, events, i) == SyncStep::<C, R, S>::Sync,
{
}

/// Every step is answered by how that step went and by nothing else, a stopped sync by
/// nothing at all. The sync begins with listening.
pub proof fn law_each_step_is_answered<C, R, S>(
    start: SyncFollower<C, R, S>,
    events: Seq<SyncEvent<C, R, S>>,
    event: SyncEvent<C, R, S>,
)
    requires
        start.is_initial(),
        is_run(start, events),
    ensures
        events.len() == 0 ==> (after(start, events).awaits(event) <==> event is Listening),
        events.len() > 0 ==> (after(start, events).awaits(event) <==> match action_at(
            start,
            events,
            events.len() - 1,
        ) {
            SyncStep::Listen => event is Listening,
            SyncStep::Sync => event is Synced,
            SyncStep::SendAppendEntries(_) => event is AppendSent,
            SyncStep::AwaitSnapshot(_) => event is SnapshotReady,
            SyncStep::SendSnapshot(_) => event is SnapshotSent,
            SyncStep::Wait => event is Woken,
            SyncStep::Stop => false,
        }),
{
    if events.len() > 0 {
        let n = events.len() - 1;
        assert(events.take(n) =~= events.drop_last());
        assert(after(start, events.take(n)).awaits(events[n]));
    }
}

} // verus!
