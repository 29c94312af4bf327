//! Which followers a leader keeps up to date.

use std::collections::HashMap;

use vstd::pervasive::unreached;
use vstd::prelude::*;

use crate::log_entry::{ConfChange, ConfChangeType, ServerId};
use crate::machine::{action_at, after, is_run, lemma_after_step, lemma_run_prefix, Machine};

verus! {

broadcast use vstd::std_specs::hash::group_hash_axioms;

/// How many tasks that sync followers can be waiting to be watched.
pub const SYNC_TASK_BACKLOG: usize = 128;

/// The running tasks that sync followers, each with the event that shuts it down.
pub struct FollowerTasks<E> {
    events: HashMap<ServerId, E>,
}

impl<E> View for FollowerTasks<E> {
    type V = Map<ServerId, E>;

    closed spec fn view(&self) -> Map<ServerId, E> {
        self.events@
    }
}

/// What a configuration change asks for.
#[derive(Debug, PartialEq, Eq)]
pub enum FollowerAction<E> {
    /// Start to sync the node
    Start(ServerId),
    /// Shut a task down by its event
    Shutdown(E),
    /// Nothing
    Keep,
}

/// Whether a configuration change brings a node into the cluster.
pub open spec fn adds_node(change: ConfChange) -> bool {
    change.change_type == ConfChangeType::Add || change.change_type == ConfChangeType::AddLearner
}

/// The tasks that are left right after a configuration change, and what it asks for.
pub open spec fn change_tasks<E>(tasks: Map<ServerId, E>, change: ConfChange) -> (
    Map<ServerId, E>,
    FollowerAction<E>,
) {
    if adds_node(change) {
        (tasks, FollowerAction::Start(change.node_id))
    } else if change.change_type == ConfChangeType::Remove {
        (tasks.remove(change.node_id), FollowerAction::Shutdown(tasks[change.node_id]))
    } else {
        (tasks, FollowerAction::Keep)
    }
}

/// The tasks once what a configuration change asks for is done; `event` is that of the task
/// if one was started.
pub open spec fn changed_tasks<E>(tasks: Map<ServerId, E>, change: ConfChange, event: E) -> Map<
    ServerId,
    E,
> {
    match change_tasks(tasks, change) {
        (left, FollowerAction::Start(node_id)) => left.insert(node_id, event),
        (left, _) => left,
    }
}

/// Whether a configuration change can come: only a node that is synced is removed.
pub open spec fn can_change<E>(tasks: Map<ServerId, E>, change: ConfChange) -> bool {
    change.change_type == ConfChangeType::Remove ==> tasks.contains_key(change.node_id)
}

impl<E> FollowerTasks<E> {
    /// No tasks.
    pub fn new() -> (res: Self)
        ensures
            res@ == Map::<ServerId, E>::empty(),
    {
        FollowerTasks { events: HashMap::new() }
    }

    /// Whether a task syncs the node.
    pub fn contains(&self, node_id: ServerId) -> (res: bool)
        ensures
            res == self@.contains_key(node_id),
    {
        self.events.contains_key(&node_id)
    }

    /// Notes that a task syncs the node from now on, and the event that shuts it down.
    pub fn started(&mut self, node_id: ServerId, event: E)
        ensures
            final(self)@ == old(self)@.insert(node_id, event),
    {
        let _ = self.events.insert(node_id, event);
    }

    /// Says what a configuration change asks for. The task of a removed node is forgotten.
    pub fn on_change(&mut self, change: &ConfChange) -> (res: FollowerAction<E>)
        requires
            can_change(old(self)@, *change),
        ensures
            (final(self)@, res) == change_tasks(old(self)@, *change),
            match change.change_type {
                ConfChangeType::Add => final(self)@ == old(self)@ && res == FollowerAction::<
                    E,
                >::Start(change.node_id),
                ConfChangeType::AddLearner => final(self)@ == old(self)@ && res
                    == FollowerAction::<E>::Start(change.node_id),
                ConfChangeType::Remove => final(self)@ == old(self)@.remove(change.node_id) && res
                    == FollowerAction::Shutdown(old(self)@[change.node_id]),
                ConfChangeType::Update => final(self)@ == old(self)@ && res == FollowerAction::<
                    E,
                >::Keep,
            },
    {
        match change.change_type {
            ConfChangeType::Add => FollowerAction::Start(change.node_id),
            ConfChangeType::AddLearner => FollowerAction::Start(change.node_id),
            ConfChangeType::Remove => match self.events.remove(&change.node_id) {
                Some(event) => FollowerAction::Shutdown(event),
                None => unreached(),
            },
            ConfChangeType::Update => FollowerAction::Keep,
        }
    }
}

/// The tasks after a series of configuration changes, each done before the next; the event
/// at `i` is that of the task that the change at `i` starts, if it starts one.
pub open spec fn tasks_after<E>(
    tasks: Map<ServerId, E>,
    changes: Seq<ConfChange>,
    events: Seq<E>,
) -> Map<ServerId, E>
    decreases changes.len(),
{
    if changes.len() == 0 {
        tasks
    } else {
        changed_tasks(
            tasks_after(tasks, changes.drop_last(), events),
            changes.last(),
            events[changes.len() - 1],
        )
    }
}

/// The nodes of the cluster after a series of configuration changes.
pub open spec fn nodes_after(nodes: Set<ServerId>, changes: Seq<ConfChange>) -> Set<ServerId>
    decreases changes.len(),
{
    if changes.len() == 0 {
        nodes
    } else {
        let before = nodes_after(nodes, changes.drop_last());
        let change = changes.last();
        match change.change_type {
            ConfChangeType::Add => before.insert(change.node_id),
            ConfChangeType::AddLearner => before.insert(change.node_id),
            ConfChangeType::Remove => before.remove(change.node_id),
            ConfChangeType::Update => before,
        }
    }
}

/// The followers that are synced are the nodes of the cluster, through every series of
/// configuration changes.
pub proof fn law_tasks_follow_configuration<E>(
    tasks: Map<ServerId, E>,
    changes: Seq<ConfChange>,
    events: Seq<E>,
)
    ensures
        tasks_after(tasks, changes, events).dom() == nodes_after(tasks.dom(), changes),
    decreases changes.len(),
{
    if changes.len() > 0 {
        law_tasks_follow_configuration(tasks, changes.drop_last(), events);
        assert(tasks_after(tasks, changes, events).dom() =~= nodes_after(tasks.dom(), changes));
    }
}

/// Changes of other nodes leave a node's task alone, and are left alone by it.
proof fn lemma_other_changes<E>(
    tasks: Map<ServerId, E>,
    node_id: ServerId,
    event: E,
    changes: Seq<ConfChange>,
    events: Seq<E>,
)
    requires
        forall|k: int| 0 <= k < changes.len() ==> (#[trigger] changes[k]).node_id != node_id,
    ensures
        tasks_after(tasks.insert(node_id, event), changes, events) == tasks_after(
            tasks.remove(node_id),
            changes,
            events,
        ).insert(node_id, event),
        !tasks_after(tasks.remove(node_id), changes, events).contains_key(node_id),
    decreases changes.len(),
{
    let with = tasks_after(tasks.insert(node_id, event), changes, events);
    let without = tasks_after(tasks.remove(node_id), changes, events);
    if changes.len() > 0 {
        lemma_other_changes(tasks, node_id, event, changes.drop_last(), events);
        assert(changes[changes.len() - 1].node_id != node_id);
    }
    assert(with =~= without.insert(node_id, event));
}

/// Removing a node undoes adding it, whatever happened to other nodes in between: the task
/// that is shut down is the one that was started for the node, and the other tasks are what
/// they would be had the node not been there.
pub proof fn law_remove_undoes_add<E>(
    tasks: Map<ServerId, E>,
    add: ConfChange,
    event: E,
    between: Seq<ConfChange>,
    events: Seq<E>,
    remove: ConfChange,
)
    requires
        adds_node(add),
        forall|k: int| 0 <= k < between.len() ==> (#[trigger] between[k]).node_id != add.node_id,
        remove.change_type == ConfChangeType::Remove,
        remove.node_id == add.node_id,
    ensures
        can_change(tasks_after(changed_tasks(tasks, add, event), between, events), remove),
        change_tasks(tasks_after(changed_tasks(tasks, add, event), between, events), remove) == (
            tasks_after(tasks.remove(add.node_id), between, events),
            FollowerAction::Shutdown(event),
        ),
        !tasks.contains_key(add.node_id) ==> change_tasks(
            tasks_after(changed_tasks(tasks, add, event), between, events),
            remove,
        ).0 == tasks_after(tasks, between, events),
{
    lemma_other_changes(tasks, add.node_id, event, between, events);
    let without = tasks_after(tasks.remove(add.node_id), between, events);
    assert(without.insert(add.node_id, event).remove(add.node_id) =~= without);
    if !tasks.contains_key(add.node_id) {
        assert(tasks.remove(add.node_id) =~= tasks);
    }
}

/// The tasks once one has been started for each of the followers in turn, with these events.
pub open spec fn brought_up<E>(followers: Seq<ServerId>, events: Seq<E>) -> Map<ServerId, E>
    decreases followers.len(),
{
    if followers.len() == 0 {
        Map::empty()
    } else {
        brought_up(followers.drop_last(), events).insert(
            followers.last(),
            events[followers.len() - 1],
        )
    }
}

/// The tasks that are brought up are those of the followers, each with the event of its own
/// task. From there on they follow the configuration: after any configuration changes they are
/// those of the followers and of the nodes that were added, without those that were removed.
pub proof fn law_bring_up_covers_followers<E>(
    followers: Seq<ServerId>,
    events: Seq<E>,
    changes: Seq<ConfChange>,
    later_events: Seq<E>,
)
    ensures
        brought_up(followers, events).dom() == followers.to_set(),
        followers.no_duplicates() ==> forall|k: int|
            0 <= k < followers.len() ==> brought_up(followers, events)[#[trigger] followers[k]]
                == events[k],
        tasks_after(brought_up(followers, events), changes, later_events).dom() == nodes_after(
            followers.to_set(),
            changes,
        ),
    decreases followers.len(),
{
    if followers.len() > 0 {
        let n = followers.len() - 1;
        law_bring_up_covers_followers(followers.drop_last(), events, changes, later_events);
        assert(followers =~= followers.drop_last().push(followers.last()));
        assert(brought_up(followers, events).dom() =~= followers.to_set()) by {
            assert forall|id: ServerId| followers.contains(id) implies followers.drop_last().contains(
                id,
            ) || id == followers.last() by {
                let k = choose|k: int| 0 <= k < followers.len() && followers[k] == id;
                assert(k < n ==> followers.drop_last()[k] == id);
            }
            assert forall|id: ServerId| followers.drop_last().contains(id) implies followers.contains(
                id,
            ) by {
                let k = choose|k: int|
                    0 <= k < followers.drop_last().len() && followers.drop_last()[k] == id;
                assert(followers[k] == id);
            }
            assert(followers[n] == followers.last());
        }
        if followers.no_duplicates() {
            assert(followers.drop_last().no_duplicates());
            assert forall|k: int| 0 <= k < followers.len() implies brought_up(followers, events)[
                #[trigger] followers[k]
            ] == events[k] by {
                if k < n {
                    assert(followers.drop_last()[k] == followers[k]);
                }
            }
        }
    } else {
        assert(brought_up(followers, events).dom() =~= followers.to_set());
    }
    law_tasks_follow_configuration(brought_up(followers, events), changes, later_events);
}

/// What the daemon that brings up the sync of followers is doing.
#[derive(Debug, PartialEq, Eq)]
pub enum SyncDaemon {
    /// Looking whether self is leader
    Checking,
    /// Waiting to become leader
    AwaitingLeadership,
    /// Looking up the followers
    Listing,
    /// Starting a task for each follower
    Starting {
        /// The followers
        followers: Vec<ServerId>,
        /// How many of them have a task already
        started: usize,
    },
    /// Waiting for the tasks to end. If there are none, the first node to be added brings one.
    Draining {
        /// How many of them run
        running: usize,
    },
}

/// How the last action went.
#[derive(Debug, PartialEq, Eq)]
pub enum DaemonEvent {
    /// Whether self is leader
    Checked(bool),
    /// Self became leader
    BecameLeader,
    /// The followers
    Followers(Vec<ServerId>),
    /// A task runs: the one that was to be started, or one for a node that was added
    TaskStarted,
    /// A task has ended
    TaskEnded,
}

/// What to do next.
#[derive(Debug, Clone, Copy, PartialEq, Eq)]
pub enum DaemonAction {
    /// Wait to become leader
    AwaitLeadership,
    /// Look up the followers
    ListFollowers,
    /// Start a task that syncs the follower
    StartTask(ServerId),
    /// Begin to handle configuration changes, then wait until a task starts or ends
    StartHandler,
    /// Wait until a task starts or ends
    AwaitTask,
    /// Stop handling configuration changes, then look whether self is leader
    StopHandlerAndCheck,
}

/// The starting of the tasks for followers of whom the first `started` have one.
pub open spec fn starting(followers: Vec<ServerId>, started: usize) -> (SyncDaemon, DaemonAction) {
    if started < followers@.len() {
        (
            SyncDaemon::Starting { followers, started },
            DaemonAction::StartTask(followers@[started as int]),
        )
    } else {
        (SyncDaemon::Draining { running: started }, DaemonAction::StartHandler)
    }
}

impl Machine for SyncDaemon {
    type Event = DaemonEvent;

    type Action = DaemonAction;

    open spec fn awaits(self, event: DaemonEvent) -> bool {
        match self {
            SyncDaemon::Checking => event is Checked,
            SyncDaemon::AwaitingLeadership => event is BecameLeader,
            SyncDaemon::Listing => event is Followers,
            SyncDaemon::Starting { followers, started } => event is TaskStarted && started
                < followers@.len(),
            SyncDaemon::Draining { running } => {
                ||| event is TaskStarted && running < usize::MAX
                ||| event is TaskEnded && running > 0
            },
        }
    }

    open spec fn next(self, event: DaemonEvent) -> (SyncDaemon, DaemonAction) {
        match (self, event) {
            (_, DaemonEvent::Checked(false)) =>
                (SyncDaemon::AwaitingLeadership, DaemonAction::AwaitLeadership),
            (_, DaemonEvent::Checked(true)) => (SyncDaemon::Listing, DaemonAction::ListFollowers),
            (_, DaemonEvent::BecameLeader) => (SyncDaemon::Listing, DaemonAction::ListFollowers),
            (_, DaemonEvent::Followers(followers)) => starting(followers, 0),
            (SyncDaemon::Starting { followers, started }, DaemonEvent::TaskStarted) =>
                starting(followers, (started + 1) as usize),
            (SyncDaemon::Draining { running }, DaemonEvent::TaskStarted) => (
                SyncDaemon::Draining { running: (running + 1) as usize },
                DaemonAction::AwaitTask,
            ),
            (SyncDaemon::Draining { running }, DaemonEvent::TaskEnded) => if running == 1 {
                (SyncDaemon::Checking, DaemonAction::StopHandlerAndCheck)
            } else {
                (
                    SyncDaemon::Draining { running: (running - 1) as usize },
                    DaemonAction::AwaitTask,
                )
            },
            (_, _) => arbitrary(),
        }
    }
}

impl SyncDaemon {
    /// The daemon as it begins: the caller looks whether self is leader.
    pub fn start() -> (res: Self)
        ensures
            res == SyncDaemon::Checking,
    {
        SyncDaemon::Checking
    }

    /// Takes in how the last action went and says what to do next.
    pub fn step(self, event: DaemonEvent) -> (res: (Self, DaemonAction))
        requires
            self.awaits(event),
        ensures
            res == self.next(event),
    {
        match (self, event) {
            (_, DaemonEvent::Checked(is_leader)) => if is_leader {
                (SyncDaemon::Listing, DaemonAction::ListFollowers)
            } else {
                (SyncDaemon::AwaitingLeadership, DaemonAction::AwaitLeadership)
            },
            (_, DaemonEvent::BecameLeader) => (SyncDaemon::Listing, DaemonAction::ListFollowers),
            (_, DaemonEvent::Followers(followers)) => Self::start_next(followers, 0),
            (SyncDaemon::Starting { followers, started }, DaemonEvent::TaskStarted) => {
                assert(started < followers.len());
                Self::start_next(followers, started + 1)
            },
            (SyncDaemon::Draining { running }, DaemonEvent::TaskStarted) =>
                (SyncDaemon::Draining { running: running + 1 }, DaemonAction::AwaitTask),
            (SyncDaemon::Draining { running }, DaemonEvent::TaskEnded) => if running == 1 {
                (SyncDaemon::Checking, DaemonAction::StopHandlerAndCheck)
            } else {
                (SyncDaemon::Draining { running: running - 1 }, DaemonAction::AwaitTask)
            },
            (_, _) => unreached(),
        }
    }

    fn start_next(followers: Vec<ServerId>, started: usize) -> (res: (Self, DaemonAction))
        ensures
            res == starting(followers, started),
    {
        if started < followers.len() {
            let follower_id = followers[started];
            (SyncDaemon::Starting { followers, started }, DaemonAction::StartTask(follower_id))
        } else {
            (SyncDaemon::Draining { running: started }, DaemonAction::StartHandler)
        }
    }
}

/// Followers are synced only by a leader: they are looked up only right after self was found
/// to be leader or became leader.
pub proof fn law_bring_up_needs_leadership(events: Seq<DaemonEvent>, i: int)
    requires
        is_run(SyncDaemon::Checking, events),
        0 <= i < events.len(),
    ensures
        action_at(SyncDaemon::Checking, events, i) == DaemonAction::ListFollowers <==> events[i]
            == DaemonEvent::Checked(true) || events[i] == DaemonEvent::BecameLeader,
{
    assert(after(SyncDaemon::Checking, events.take(i)).awaits(events[i]));
}

/// Every follower gets its task: of the followers that were looked up, the one at `k` gets
/// its task as the `k`-th of them, and once all have theirs, configuration changes are
/// handled.
pub proof fn law_every_follower_gets_a_task(
    events: Seq<DaemonEvent>,
    i: int,
    followers: Vec<ServerId>,
    k: int,
)
    requires
        is_run(SyncDaemon::Checking, events),
        0 <= i < events.len(),
        events[i] == DaemonEvent::Followers(followers),
        0 <= k <= followers@.len(),
        i + k < events.len(),
    ensures
        k < followers@.len() ==> action_at(SyncDaemon::Checking, events, i + k)
            == DaemonAction::StartTask(followers@[k]),
        k == followers@.len() ==> action_at(SyncDaemon::Checking, events, i + k)
            == DaemonAction::StartHandler,
        after(SyncDaemon::Checking, events.take(i + k + 1)) == starting(followers, k as usize).0,
    decreases k,
{
    let start = SyncDaemon::Checking;
    assert(k <= followers.len());
    assert(after(start, events.take(i)).awaits(events[i]));
    lemma_after_step(start, events, i + k);
    if k > 0 {
        law_every_follower_gets_a_task(events, i, followers, k - 1);
        assert(after(start, events.take(i + k)).awaits(events[i + k]));
    }
}

/// How many tasks run after the events: those that were started since the followers were last
/// looked up, without those that have ended.
pub open spec fn running_tasks(events: Seq<DaemonEvent>) -> int
    decreases events.len(),
{
    if events.len() == 0 {
        0
    } else {
        match events.last() {
            DaemonEvent::Followers(_) => 0,
            DaemonEvent::TaskStarted => running_tasks(events.drop_last()) + 1,
            DaemonEvent::TaskEnded => running_tasks(events.drop_last()) - 1,
            _ => running_tasks(events.drop_last()),
        }
    }
}

/// What the daemon knows of how many tasks run. While it looks for leadership or followers,
/// none does.
proof fn lemma_running(events: Seq<DaemonEvent>)
    requires
        is_run(SyncDaemon::Checking, events),
    ensures
        running_tasks(events) == match after(SyncDaemon::Checking, events) {
            SyncDaemon::Starting { started, .. } => started as int,
            SyncDaemon::Draining { running } => running as int,
            _ => 0,
        },
    decreases events.len(),
{
    if events.len() > 0 {
        let n = events.len() - 1;
        lemma_run_prefix(SyncDaemon::Checking, events, n);
        assert(events.take(n) =~= events.drop_last());
        lemma_running(events.drop_last());
        let before = after(SyncDaemon::Checking, events.take(n));
        assert(before.awaits(events[n]));
        if let SyncDaemon::Starting { followers, started } = before {
            assert(started < followers.len());
        }
        if let DaemonEvent::Followers(followers) = events[n] {
            assert(0 <= followers.len());
        }
    }
}

/// A leadership comes to its end: as soon as the end of a task leaves none running, and at no
/// other time, the handling of configuration changes stops and the daemon looks again whether
/// self is leader. If so it looks up the followers again, and otherwise waits to become leader.
pub proof fn law_goes_on_when_all_tasks_ended(events: Seq<DaemonEvent>, i: int)
    requires
        is_run(SyncDaemon::Checking, events),
        0 <= i < events.len(),
    ensures
        running_tasks(events.take(i + 1)) >= 0,
        action_at(SyncDaemon::Checking, events, i) == DaemonAction::StopHandlerAndCheck
            <==> events[i] is TaskEnded && running_tasks(events.take(i + 1)) == 0,
        action_at(SyncDaemon::Checking, events, i) == DaemonAction::StopHandlerAndCheck && i + 1
            < events.len() ==> (events[i + 1] matches DaemonEvent::Checked(is_leader) && action_at(
            SyncDaemon::Checking,
            events,
            i + 1,
        ) == if is_leader {
            DaemonAction::ListFollowers
        } else {
            DaemonAction::AwaitLeadership
        }),
{
    let start = SyncDaemon::Checking;
    lemma_run_prefix(start, events, i);
    lemma_run_prefix(start, events, i + 1);
    lemma_running(events.take(i));
    lemma_running(events.take(i + 1));
    assert(events.take(i + 1).drop_last() =~= events.take(i));
    lemma_after_step(start, events, i);
    assert(after(start, events.take(i)).awaits(events[i]));
    if i + 1 < events.len() {
        assert(after(start, events.take(i + 1)).awaits(events[i + 1]));
    }
}

/// No follower is synced twice at a time: followers are looked up only while no task runs, so
/// between two times all tasks of the first have ended.
pub proof fn law_bring_up_after_drain(events: Seq<DaemonEvent>, i: int)
    requires
        is_run(SyncDaemon::Checking, events),
        0 <= i < events.len(),
        events[i] is Followers,
    ensures
        running_tasks(events.take(i)) == 0,
{
    lemma_run_prefix(SyncDaemon::Checking, events, i);
    lemma_running(events.take(i));
    assert(after(SyncDaemon::Checking, events.take(i)).awaits(events[i]));
}

/// What a configuration change comes to: a node that is added, as a voter or as a learner, is
/// synced under the event of its new task; the task of a node that is removed is shut down by
/// its own event; a node whose address changes is synced as before; and no change touches the
/// task of any other node.
pub proof fn law_change_touches_its_node_only<E>(
    tasks: Map<ServerId, E>,
    change: ConfChange,
    event: E,
    other: ServerId,
)
    requires
        can_change(tasks, change),
    ensures
        match change.change_type {
            ConfChangeType::Add => changed_tasks(tasks, change, event) == tasks.insert(
                change.node_id,
                event,
            ),
            ConfChangeType::AddLearner => changed_tasks(tasks, change, event) == tasks.insert(
                change.node_id,
                event,
            ),
            ConfChangeType::Remove => changed_tasks(tasks, change, event) == tasks.remove(
                change.node_id,
            ) && change_tasks(tasks, change).1 == FollowerAction::Shutdown(
                tasks[change.node_id],
            ),
            ConfChangeType::Update => changed_tasks(tasks, change, event) == tasks,
        },
        other != change.node_id ==> {
            &&& tasks.contains_key(other) <==> changed_tasks(tasks, change, event).contains_key(
                other,
            )
            &&& tasks.contains_key(other) ==> changed_tasks(tasks, change, event)[other]
                == tasks[other]
        },
{
}

/// Any configuration change can come except the removal of a node that is not synced.
pub proof fn law_only_unknown_removals_cannot_come<E>(tasks: Map<ServerId, E>, change: ConfChange)
    ensures
        !can_change(tasks, change) <==> change.change_type == ConfChangeType::Remove
            && !tasks.contains_key(change.node_id),
{
}

/// What the daemon does upon each event: it looks up the followers as soon as self is leader
/// and waits for that otherwise, begins with the first follower if there is one, and once
/// configuration changes are handled goes on waiting until the last running task has ended.
pub proof fn law_daemon_goes_on(events: Seq<DaemonEvent>, i: int)
    requires
        is_run(SyncDaemon::Checking, events),
        0 <= i < events.len(),
    ensures
        match events[i] {
            DaemonEvent::Checked(is_leader) => action_at(SyncDaemon::Checking, events, i) == (
            if is_leader {
                DaemonAction::ListFollowers
            } else {
                DaemonAction::AwaitLeadership
            }),
            DaemonEvent::BecameLeader => action_at(SyncDaemon::Checking, events, i)
                == DaemonAction::ListFollowers,
            DaemonEvent::Followers(followers) => action_at(SyncDaemon::Checking, events, i) == (
            if followers@.len() == 0 {
                DaemonAction::StartHandler
            } else {
                DaemonAction::StartTask(followers@[0])
            }),
            DaemonEvent::TaskStarted => {
                &&& i > 0
                &&& match action_at(SyncDaemon::Checking, events, i - 1) {
                    DaemonAction::StartHandler | DaemonAction::AwaitTask => action_at(
                        SyncDaemon::Checking,
                        events,
                        i,
                    ) == DaemonAction::AwaitTask,
                    DaemonAction::StartTask(_) => action_at(SyncDaemon::Checking, events, i)
                        == DaemonAction::StartHandler || action_at(
                        SyncDaemon::Checking,
                        events,
                        i,
                    ) is StartTask,
                    _ => false,
                }
            },
            DaemonEvent::TaskEnded => {
                &&& i > 0
                &&& action_at(SyncDaemon::Checking, events, i - 1) == DaemonAction::StartHandler
                    || action_at(SyncDaemon::Checking, events, i - 1) == DaemonAction::AwaitTask
                &&& action_at(SyncDaemon::Checking, events, i) == (if running_tasks(
                    events.take(i + 1),
                ) == 0 {
                    DaemonAction::StopHandlerAndCheck
                } else {
                    DaemonAction::AwaitTask
                })
            },
        },
{
    let start = SyncDaemon::Checking;
    lemma_run_prefix(start, events, i);
    lemma_run_prefix(start, events, i + 1);
    lemma_running(events.take(i));
    lemma_running(events.take(i + 1));
    assert(events.take(i + 1).drop_last() =~= events.take(i));
    lemma_after_step(start, events, i);
    assert(after(start, events.take(i)).awaits(events[i]));
    if i > 0 {
        lemma_after_step(start, events, i - 1);
        assert(after(start, events.take(i - 1)).awaits(events[i - 1]));
    } else {
        assert(events.take(0) =~= Seq::empty());
    }
}

/// Every action is answered by how it went and by nothing else: while configuration changes are
/// handled, by a task that starts or by one of those that run and ends. The daemon begins by
/// looking whether self is leader.
pub proof fn law_each_daemon_action_is_answered(events: Seq<DaemonEvent>, event: DaemonEvent)
    requires
        is_run(SyncDaemon::Checking, events),
    ensures
        events.len() == 0 ==> (after(SyncDaemon::Checking, events).awaits(event) <==> event is
            Checked),
        events.len() > 0 ==> (after(SyncDaemon::Checking, events).awaits(event) <==> match action_at(
            SyncDaemon::Checking,
            events,
            events.len() - 1,
        ) {
            DaemonAction::AwaitLeadership => event is BecameLeader,
            DaemonAction::ListFollowers => event is Followers,
            DaemonAction::StartTask(_) => event is TaskStarted,
            DaemonAction::StartHandler | DaemonAction::AwaitTask => {
                ||| event is TaskStarted && running_tasks(events) < usize::MAX
                ||| event is TaskEnded && running_tasks(events) > 0
            },
            DaemonAction::StopHandlerAndCheck => event is Checked,
        }),
{
    let start = SyncDaemon::Checking;
    lemma_running(events);
    if events.len() > 0 {
        let n = events.len() - 1;
        assert(events.take(n) =~= events.drop_last());
        assert(after(start, events.take(n)).awaits(events[n]));
    }
}

} // verus!
