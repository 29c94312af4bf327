//! Keeping a follower up to date.

use std::sync::Arc;

use curp::error::{SendAEError, SendSnapshotError};
use curp::log_entry::{EntryData, LogEntry, ProposeId};
use curp::send_ae::AppendEntries;
use curp::sync_follower::{SyncEvent, SyncFollower, SyncOutcome, SyncStep, Wake};

type Event = SyncEvent<u32, &'static str, Vec<u8>>;

type Step = SyncStep<u32, &'static str, Vec<u8>>;

/// Runs the sync on the events, listens whenever that is asked for, and gives the steps that
/// answer the events.
fn run(events: Vec<Event>) -> Vec<Step> {
    let (mut state, first) = SyncFollower::start().step(SyncEvent::Listening);
    assert_eq!(first, SyncStep::Sync);
    let mut steps = vec![];
    for event in events {
        let (next, step) = state.step(event);
        state = next;
        if step == SyncStep::Listen {
            let (listening, step) = state.step(SyncEvent::Listening);
            state = listening;
            assert_eq!(step, SyncStep::Sync);
        }
        steps.push(step);
    }
    steps
}

fn append_entries(count: u64) -> AppendEntries<u32> {
    let entry = |index: u64| LogEntry {
        term: 3,
        index,
        entry_data: EntryData::Shutdown(ProposeId::new(format!("stop-{index}"))),
    };
    AppendEntries {
        term: 3,
        leader_id: 1,
        prev_log_index: 10,
        prev_log_term: 2,
        leader_commit: 9,
        entries: (11..11 + count).map(|index| Arc::new(entry(index))).collect(),
    }
}

fn entries(count: u64) -> Event {
    SyncEvent::Synced(SyncOutcome::AppendEntries(append_entries(count)))
}

fn send(count: u64) -> Step {
    SyncStep::SendAppendEntries(append_entries(count))
}

fn snapshot() -> Event {
    SyncEvent::Synced(SyncOutcome::Snapshot("pending"))
}

fn ready() -> Event {
    SyncEvent::SnapshotReady(Ok(vec![1, 2]))
}

#[test]
fn sync_task_will_send_hb() {
    let steps = run(vec![entries(0), SyncEvent::AppendSent(Ok(()))]);
    assert_eq!(steps, vec![send(0), SyncStep::Wait]);
}

#[test]
fn listening_begins_before_the_state_machine_is_asked() {
    let (state, step) = SyncFollower::<u32, &'static str, Vec<u8>>::start().step(SyncEvent::Listening);
    assert_eq!(step, SyncStep::Sync);
    let (state, _) = state.step(entries(1));
    let (state, _) = state.step(SyncEvent::AppendSent(Ok(())));
    let (state, step) = state.step(SyncEvent::Woken(Wake::NewEntries));
    assert_eq!(step, SyncStep::Listen);
    let (_, step) = state.step(SyncEvent::Listening);
    assert_eq!(step, SyncStep::Sync);
}

#[test]
fn no_second_heartbeat_before_the_tick() {
    let steps = run(vec![
        entries(0),
        SyncEvent::AppendSent(Ok(())),
        SyncEvent::Woken(Wake::BatchTimeout),
        entries(0),
        SyncEvent::Woken(Wake::NewEntries),
        entries(0),
        SyncEvent::Woken(Wake::Tick),
        entries(0),
    ]);
    assert_eq!(
        steps,
        vec![
            send(0),
            SyncStep::Wait,
            SyncStep::Listen,
            SyncStep::Wait,
            SyncStep::Listen,
            SyncStep::Wait,
            SyncStep::Listen,
            send(0),
        ]
    );
}

#[test]
fn failed_heartbeat_is_sent_again() {
    let steps = run(vec![
        entries(0),
        SyncEvent::AppendSent(Err(SendAEError::Transport("down".to_owned()))),
        SyncEvent::Woken(Wake::NewEntries),
        entries(0),
    ]);
    assert_eq!(steps[3], send(0));
}

#[test]
fn batch_timeout_makes_a_heartbeat_unnecessary() {
    let steps = run(vec![
        entries(0),
        SyncEvent::AppendSent(Err(SendAEError::Rejected)),
        SyncEvent::Woken(Wake::BatchTimeout),
        entries(0),
    ]);
    assert_eq!(steps[3], SyncStep::Wait);
}

#[test]
fn entries_are_always_sent() {
    let steps = run(vec![
        entries(2),
        SyncEvent::AppendSent(Ok(())),
        SyncEvent::Woken(Wake::NewEntries),
        entries(1),
        SyncEvent::AppendSent(Err(SendAEError::Rejected)),
        SyncEvent::Woken(Wake::BatchTimeout),
        entries(1),
    ]);
    assert_eq!(steps[0], send(2));
    assert_eq!(steps[3], send(1));
    assert_eq!(steps[6], send(1));
}

#[test]
fn snapshot_is_awaited_then_sent() {
    let steps = run(vec![
        snapshot(),
        ready(),
        SyncEvent::SnapshotSent(Ok(())),
        SyncEvent::Woken(Wake::NewEntries),
        snapshot(),
        SyncEvent::SnapshotReady(Err("dropped".to_owned())),
    ]);
    assert_eq!(
        steps,
        vec![
            SyncStep::AwaitSnapshot("pending"),
            SyncStep::SendSnapshot(vec![1, 2]),
            SyncStep::Wait,
            SyncStep::Listen,
            SyncStep::AwaitSnapshot("pending"),
            SyncStep::Wait,
        ]
    );
}

#[test]
fn a_snapshot_does_not_stand_in_for_a_heartbeat() {
    let steps = run(vec![
        snapshot(),
        ready(),
        SyncEvent::SnapshotSent(Ok(())),
        SyncEvent::Woken(Wake::NewEntries),
        entries(0),
    ]);
    assert_eq!(steps[4], send(0));
}

#[test]
fn sync_stops_when_no_longer_leader_or_shut_down() {
    assert_eq!(run(vec![SyncEvent::Synced(SyncOutcome::NotLeader)]), vec![SyncStep::Stop]);
    let steps = run(vec![entries(1), SyncEvent::AppendSent(Err(SendAEError::NotLeader))]);
    assert_eq!(steps[1], SyncStep::Stop);
    let steps = run(vec![
        snapshot(),
        ready(),
        SyncEvent::SnapshotSent(Err(SendSnapshotError::NotLeader)),
    ]);
    assert_eq!(steps[2], SyncStep::Stop);
    let steps = run(vec![
        entries(0),
        SyncEvent::AppendSent(Ok(())),
        SyncEvent::Woken(Wake::Shutdown),
    ]);
    assert_eq!(steps[2], SyncStep::Stop);
}

#[test]
fn other_errors_do_not_stop_the_sync() {
    let err = bincode::deserialize::<bool>(&[2]).unwrap_err();
    let steps = run(vec![entries(1), SyncEvent::AppendSent(Err(SendAEError::EncodeDecode(err)))]);
    assert_eq!(steps[1], SyncStep::Wait);
    let steps = run(vec![
        snapshot(),
        ready(),
        SyncEvent::SnapshotSent(Err(SendSnapshotError::Transport("down".to_owned()))),
    ]);
    assert_eq!(steps[2], SyncStep::Wait);
}
