//! Bringing a node up.

use curp::boot::{Boot, BootAction, BootEvent, BootFailure, Recovered};
use curp::error::{CurpError, StorageError};
use curp::log_entry::{EntryData, LogEntry, ProposeId};

fn run(is_leader: bool, events: Vec<BootEvent<u32>>) -> Vec<BootAction<u32>> {
    let mut state = Boot::start(is_leader);
    let mut actions = vec![];
    for event in events {
        let (next, action) = state.step(event);
        state = next;
        actions.push(action);
    }
    actions
}

fn stored(recovered: Recovered<u32>) -> Vec<BootEvent<u32>> {
    vec![
        BootEvent::Connected,
        BootEvent::LastApplied(Ok(6)),
        BootEvent::StorageOpened(Ok(())),
        BootEvent::Recovered(Ok(recovered)),
    ]
}

fn entry() -> LogEntry<u32> {
    LogEntry {
        term: 1,
        index: 1,
        entry_data: EntryData::Shutdown(ProposeId::new("stop".to_owned())),
    }
}

fn disk_error() -> StorageError {
    StorageError { message: "disk full".to_owned() }
}

#[test]
fn node_without_earlier_life_starts_over() {
    let mut events = stored(Recovered { voted_for: None, entries: vec![] });
    events.extend([
        BootEvent::Created,
        BootEvent::WorkersStarted,
        BootEvent::GcStarted,
        BootEvent::TasksStarted,
    ]);
    assert_eq!(
        run(true, events),
        vec![
            BootAction::ReadLastApplied,
            BootAction::OpenStorage,
            BootAction::Recover,
            BootAction::CreateFresh { is_leader: true },
            BootAction::StartWorkers,
            BootAction::StartGc,
            BootAction::StartTasks,
            BootAction::Ready,
        ]
    );
}

#[test]
fn node_with_a_vote_is_recovered() {
    let actions = run(false, stored(Recovered { voted_for: Some((4, 2)), entries: vec![] }));
    assert_eq!(
        actions[3],
        BootAction::CreateRecovered {
            is_leader: false,
            recovered: Recovered { voted_for: Some((4, 2)), entries: vec![] },
            last_applied: 6,
        }
    );
}

#[test]
fn node_that_is_to_lead_does_so_after_recovery() {
    let recovered = Recovered { voted_for: Some((4, 2)), entries: vec![] };
    let actions = run(true, stored(recovered));
    assert!(matches!(actions[3], BootAction::CreateRecovered { is_leader: true, .. }));
    let actions = run(false, stored(Recovered { voted_for: None, entries: vec![] }));
    assert_eq!(actions[3], BootAction::CreateFresh { is_leader: false });
}

#[test]
fn node_with_entries_is_recovered() {
    let actions = run(false, stored(Recovered { voted_for: None, entries: vec![entry()] }));
    assert_eq!(
        actions[3],
        BootAction::CreateRecovered {
            is_leader: false,
            recovered: Recovered { voted_for: None, entries: vec![entry()] },
            last_applied: 6,
        }
    );
}

#[test]
fn unknown_applied_index_is_an_internal_error() {
    let actions =
        run(false, vec![BootEvent::Connected, BootEvent::LastApplied(Err("no such key".to_owned()))]);
    let failure = BootFailure::LastApplied("no such key".to_owned());
    assert_eq!(actions[1], BootAction::Fail(failure));
    assert_eq!(
        BootFailure::LastApplied("no such key".to_owned()).into_error(),
        CurpError::Internal("get applied index error, no such key".to_owned())
    );
}

#[test]
fn failing_storage_is_a_storage_error() {
    let actions = run(false, vec![
        BootEvent::Connected,
        BootEvent::LastApplied(Ok(6)),
        BootEvent::StorageOpened(Err(disk_error())),
    ]);
    assert_eq!(actions[2], BootAction::Fail(BootFailure::Storage(disk_error())));
    let actions = run(false, vec![
        BootEvent::Connected,
        BootEvent::LastApplied(Ok(6)),
        BootEvent::StorageOpened(Ok(())),
        BootEvent::Recovered(Err(disk_error())),
    ]);
    assert_eq!(actions[3], BootAction::Fail(BootFailure::Storage(disk_error())));
    assert!(!actions.contains(&BootAction::StartWorkers));
    assert_eq!(
        BootFailure::Storage(disk_error()).into_error(),
        CurpError::Storage(disk_error())
    );
}
