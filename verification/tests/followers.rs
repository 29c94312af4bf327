//! Which followers are synced.

use curp::followers::{
    DaemonAction, DaemonEvent, FollowerAction, FollowerTasks, SyncDaemon, SYNC_TASK_BACKLOG,
};
use curp::log_entry::{ConfChange, ConfChangeType};

fn learner(node_id: u64) -> ConfChange {
    ConfChange { change_type: ConfChangeType::AddLearner, node_id, address: "address".to_owned() }
}

#[test]
fn added_nodes_are_synced() {
    let mut tasks = FollowerTasks::new();
    assert_eq!(
        tasks.on_change(&ConfChange::add(4, "address".to_owned())),
        FollowerAction::Start(4)
    );
    assert!(!tasks.contains(4));
    tasks.started(4, "event-4");
    assert!(tasks.contains(4));
    assert_eq!(tasks.on_change(&learner(5)), FollowerAction::Start(5));
    tasks.started(5, "event-5");
    assert!(tasks.contains(5));
}

#[test]
fn removed_node_is_shut_down_by_its_own_event() {
    let mut tasks = FollowerTasks::new();
    tasks.started(4, "event-4");
    tasks.started(5, "event-5");
    assert_eq!(tasks.on_change(&ConfChange::remove(4)), FollowerAction::Shutdown("event-4"));
    assert!(!tasks.contains(4));
    assert!(tasks.contains(5));
}

#[test]
fn node_that_is_added_twice_is_shut_down_by_the_later_event() {
    let mut tasks = FollowerTasks::new();
    tasks.started(4, "first");
    tasks.started(4, "second");
    assert_eq!(tasks.on_change(&ConfChange::remove(4)), FollowerAction::Shutdown("second"));
}

#[test]
fn changes_of_other_nodes_do_not_touch_a_task() {
    let mut tasks = FollowerTasks::new();
    tasks.started(1, "event-1");
    tasks.started(4, "event-4");
    tasks.started(5, "event-5");
    assert_eq!(tasks.on_change(&ConfChange::remove(1)), FollowerAction::Shutdown("event-1"));
    assert_eq!(tasks.on_change(&ConfChange::remove(4)), FollowerAction::Shutdown("event-4"));
    assert!(!tasks.contains(4));
    assert!(tasks.contains(5));
}

#[test]
fn updated_node_is_synced_as_before() {
    let mut tasks = FollowerTasks::new();
    tasks.started(4, "event-4");
    let change = ConfChange::update(4, "new_addr".to_owned());
    assert_eq!(tasks.on_change(&change), FollowerAction::Keep);
    assert!(tasks.contains(4));
}

#[test]
fn synced_followers_are_those_of_the_configuration() {
    let mut tasks = FollowerTasks::new();
    for node_id in [1, 2, 3] {
        tasks.started(node_id, node_id);
    }
    let changes = vec![
        ConfChange::add(4, "address".to_owned()),
        ConfChange::remove(2),
        learner(5),
        ConfChange::remove(4),
        ConfChange::update(1, "new_addr".to_owned()),
    ];
    for change in changes {
        if let FollowerAction::Start(node_id) = tasks.on_change(&change) {
            tasks.started(node_id, node_id);
        }
    }
    let synced: Vec<u64> = (0..10).filter(|node_id| tasks.contains(*node_id)).collect();
    assert_eq!(synced, vec![1, 3, 5]);
}

fn run(events: Vec<DaemonEvent>) -> Vec<DaemonAction> {
    let mut state = SyncDaemon::start();
    let mut actions = vec![];
    for event in events {
        let (next, action) = state.step(event);
        state = next;
        actions.push(action);
    }
    actions
}

#[test]
fn tasks_that_are_brought_up_are_those_of_the_followers() {
    let mut state = SyncDaemon::start().step(DaemonEvent::Checked(true)).0;
    let mut tasks = FollowerTasks::new();
    let mut event = DaemonEvent::Followers(vec![7, 8, 9]);
    loop {
        let (next, action) = state.step(event);
        state = next;
        match action {
            DaemonAction::StartTask(id) => tasks.started(id, id * 10),
            _ => break,
        }
        event = DaemonEvent::TaskStarted;
    }
    let synced: Vec<u64> = (0..20).filter(|id| tasks.contains(*id)).collect();
    assert_eq!(synced, vec![7, 8, 9]);
    assert_eq!(tasks.on_change(&ConfChange::remove(8)), FollowerAction::Shutdown(80));
}

#[test]
fn leader_starts_a_task_for_every_follower() {
    let actions = run(vec![
        DaemonEvent::Checked(true),
        DaemonEvent::Followers(vec![7, 8, 9]),
        DaemonEvent::TaskStarted,
        DaemonEvent::TaskStarted,
        DaemonEvent::TaskStarted,
        DaemonEvent::TaskEnded,
        DaemonEvent::TaskEnded,
        DaemonEvent::TaskEnded,
    ]);
    assert_eq!(
        actions,
        vec![
            DaemonAction::ListFollowers,
            DaemonAction::StartTask(7),
            DaemonAction::StartTask(8),
            DaemonAction::StartTask(9),
            DaemonAction::StartHandler,
            DaemonAction::AwaitTask,
            DaemonAction::AwaitTask,
            DaemonAction::StopHandlerAndCheck,
        ]
    );
}

#[test]
fn leadership_is_looked_at_again_when_the_last_task_ends() {
    let actions = run(vec![
        DaemonEvent::Checked(true),
        DaemonEvent::Followers(vec![7]),
        DaemonEvent::TaskStarted,
        DaemonEvent::TaskStarted,
        DaemonEvent::TaskEnded,
        DaemonEvent::TaskEnded,
        DaemonEvent::Checked(false),
        DaemonEvent::BecameLeader,
        DaemonEvent::Followers(vec![8]),
    ]);
    assert_eq!(
        actions[2..],
        [
            DaemonAction::StartHandler,
            DaemonAction::AwaitTask,
            DaemonAction::AwaitTask,
            DaemonAction::StopHandlerAndCheck,
            DaemonAction::AwaitLeadership,
            DaemonAction::ListFollowers,
            DaemonAction::StartTask(8),
        ]
    );
}

#[test]
fn leader_without_followers_waits_for_one() {
    let actions = run(vec![
        DaemonEvent::Checked(false),
        DaemonEvent::BecameLeader,
        DaemonEvent::Followers(vec![]),
        DaemonEvent::TaskStarted,
        DaemonEvent::TaskEnded,
        DaemonEvent::Checked(true),
    ]);
    assert_eq!(
        actions,
        vec![
            DaemonAction::AwaitLeadership,
            DaemonAction::ListFollowers,
            DaemonAction::StartHandler,
            DaemonAction::AwaitTask,
            DaemonAction::StopHandlerAndCheck,
            DaemonAction::ListFollowers,
        ]
    );
}

#[test]
fn backlog_of_tasks_is_bounded() {
    assert_eq!(SYNC_TASK_BACKLOG, 128);
}
