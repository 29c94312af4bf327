//! Sending log entries and snapshots, and answering log entries.

use std::sync::Arc;

use curp::error::{CurpError, SendAEError, SendSnapshotError};
use curp::handlers::{append_call, append_response};
use curp::log_entry::{Command, LogEntry, ProposeId};
use curp::rpc::{
    AppendEntriesRequest, AppendEntriesResponse, InstallSnapshotResponse, Snapshot, SnapshotMeta,
};
use curp::send_ae::{
    snapshot_report, snapshot_result, AppendEntries, AppendHeader, AppendReport, SendAction,
    SendAppendEntries, SendEvent, SendSnapshot, SendSnapshotAction, SendSnapshotEvent,
    SnapshotReport, SnapshotSending,
};
use curp::sync_follower::{SyncEvent, SyncFollower, SyncOutcome, SyncStep};

#[derive(Debug, PartialEq, Eq)]
struct Noop {
    id: ProposeId,
}

impl Command for Noop {
    fn id(&self) -> &ProposeId {
        &self.id
    }
}

fn entry(index: u64) -> LogEntry<Noop> {
    LogEntry::new_cmd(index, 3, Arc::new(Noop { id: ProposeId::new(format!("noop-{index}")) }))
}

fn append_entries(prev_log_index: u64, count: u64) -> AppendEntries<Noop> {
    let mut entries = vec![];
    for i in 0..count {
        entries.push(Arc::new(entry(prev_log_index + 1 + i)));
    }
    AppendEntries {
        term: 3,
        leader_id: 1,
        prev_log_index,
        prev_log_term: 2,
        leader_commit: 9,
        entries,
    }
}

const HEADER: AppendHeader =
    AppendHeader { term: 3, leader_id: 1, prev_log_index: 10, prev_log_term: 2, leader_commit: 9 };

#[test]
fn last_sent_index_is_that_of_the_last_entry() {
    let (sending, entries) = SendAppendEntries::start(6, append_entries(10, 3));
    assert_eq!(entries.len(), 3);
    assert_eq!(entries[2].index, 13);
    assert_eq!(sending.last_sent_index, Some(13));
    assert!(!sending.is_heartbeat());
}

#[test]
fn heartbeat_sends_no_index() {
    let (sending, entries) = SendAppendEntries::start(6, append_entries(10, 0));
    assert_eq!(entries.len(), 0);
    assert_eq!(sending.last_sent_index, None);
    assert!(sending.is_heartbeat());
}

#[test]
fn entries_at_the_end_of_the_index_range_can_be_sent() {
    let ae = append_entries(u64::MAX - 1, 1);
    let (sending, _) = SendAppendEntries::start(6, ae);
    assert_eq!(sending.last_sent_index, Some(u64::MAX));
}

#[test]
fn answer_is_reported_with_what_was_sent() {
    let (sending, _) = SendAppendEntries::start(6, append_entries(10, 2));
    let (sending, action) = sending.step(SendEvent::Encoded(Ok(vec![vec![1], vec![2]])));
    match action {
        SendAction::Send(req) => assert_eq!(
            req,
            AppendEntriesRequest {
                term: 3,
                leader_id: 1,
                prev_log_index: 10,
                prev_log_term: 2,
                entries: vec![vec![1], vec![2]],
                leader_commit: 9,
            }
        ),
        _ => panic!("nothing is sent"),
    }
    let resp = AppendEntriesResponse { term: 4, success: false, hint_index: 8 };
    let (sending, action) = sending.step(SendEvent::Responded(Ok(resp)));
    match action {
        SendAction::Report(report) => assert_eq!(
            report,
            AppendReport {
                follower_id: 6,
                last_sent_index: Some(12),
                term: 4,
                success: false,
                hint_index: 8,
            }
        ),
        _ => panic!("nothing is reported"),
    }
    let (_, action) = sending.step(SendEvent::Reported(Ok(true)));
    assert!(matches!(action, SendAction::Finish(Ok(()))));
}

fn sent() -> SendAppendEntries {
    let (sending, _) = SendAppendEntries::start(6, append_entries(10, 1));
    sending.step(SendEvent::Encoded(Ok(vec![vec![1]]))).0
}

fn answered() -> SendAppendEntries {
    let resp = AppendEntriesResponse { term: 4, success: true, hint_index: 0 };
    sent().step(SendEvent::Responded(Ok(resp))).0
}

#[test]
fn rejection_and_lost_leadership_are_told_apart() {
    let (_, action) = answered().step(SendEvent::Reported(Ok(false)));
    assert!(matches!(action, SendAction::Finish(Err(SendAEError::Rejected))));
    let (_, action) = answered().step(SendEvent::Reported(Err(())));
    assert!(matches!(action, SendAction::Finish(Err(SendAEError::NotLeader))));
}

fn sync_after(sending: SendAppendEntries, event: SendEvent) -> SyncStep<Noop, (), ()> {
    let outcome = SyncEvent::Synced(SyncOutcome::AppendEntries(append_entries(10, 1)));
    let (sync, _) = SyncFollower::start().step(SyncEvent::Listening);
    let (sync, _) = sync.step(outcome);
    match sending.step(event).1 {
        SendAction::Finish(result) => sync.step(SyncEvent::AppendSent(result)).1,
        _ => panic!("sending goes on"),
    }
}

#[test]
fn only_lost_leadership_ends_the_sync() {
    assert_eq!(sync_after(answered(), SendEvent::Reported(Err(()))), SyncStep::Stop);
    assert_eq!(sync_after(answered(), SendEvent::Reported(Ok(false))), SyncStep::Wait);
    assert_eq!(sync_after(answered(), SendEvent::Reported(Ok(true))), SyncStep::Wait);
    let broken = SendEvent::Responded(Err("down".to_owned()));
    assert_eq!(sync_after(sent(), broken), SyncStep::Wait);
}

#[test]
fn sending_fails_with_its_cause() {
    let (_, action) = sent().step(SendEvent::Responded(Err("down".to_owned())));
    match action {
        SendAction::Finish(Err(err)) => assert_eq!(err.message(), "transport error, down"),
        _ => panic!("sending goes on"),
    }
    let (sending, _) = SendAppendEntries::start(6, append_entries(10, 1));
    let err = bincode::deserialize::<bool>(&[2]).unwrap_err();
    let (_, action) = sending.step(SendEvent::Encoded(Err(err)));
    assert!(matches!(action, SendAction::Finish(Err(SendAEError::EncodeDecode(_)))));
}

#[test]
fn follower_takes_in_what_the_leader_sent() {
    let (sending, _) = SendAppendEntries::start(6, append_entries(10, 1));
    let (_, action) = sending.step(SendEvent::Encoded(Ok(vec![vec![1]])));
    match action {
        SendAction::Send(req) => {
            let call = append_call(&req, Ok(vec![entry(11)])).unwrap();
            assert_eq!(call.header, HEADER);
            assert_eq!(call.entries, vec![entry(11)]);
            assert_eq!(req.entries, vec![vec![1]]);
        }
        _ => panic!("nothing is sent"),
    }
}

#[test]
fn entries_that_cannot_be_decoded_are_an_error() {
    let req = AppendEntriesRequest {
        term: 3,
        leader_id: 1,
        prev_log_index: 10,
        prev_log_term: 2,
        entries: vec![vec![1]],
        leader_commit: 9,
    };
    let err = CurpError::EncodeDecode("bad".to_owned());
    assert_eq!(
        append_call::<Noop>(&req, Err(err)),
        Err(CurpError::EncodeDecode("bad".to_owned()))
    );
}

#[test]
fn followers_verdict_reaches_the_leader() {
    let accepted = append_response(Ok(4));
    assert_eq!(accepted, AppendEntriesResponse { term: 4, success: true, hint_index: 0 });
    let rejected = append_response(Err((5, 7)));
    assert_eq!(rejected, AppendEntriesResponse { term: 5, success: false, hint_index: 7 });
    let (_, action) = sent().step(SendEvent::Responded(Ok(rejected)));
    match action {
        SendAction::Report(report) => {
            assert_eq!(report.term, 5);
            assert!(!report.success);
            assert_eq!(report.hint_index, 7);
        }
        _ => panic!("nothing is reported"),
    }
}

#[test]
fn snapshot_answer_is_reported_with_what_was_sent() {
    let meta = SnapshotMeta { last_included_index: 20, last_included_term: 2 };
    assert_eq!(
        snapshot_report(6, meta, Ok(InstallSnapshotResponse { term: 4 })),
        Ok(SnapshotReport { follower_id: 6, meta, term: 4 })
    );
    assert_eq!(
        snapshot_report(6, meta, Err("down".to_owned())),
        Err(SendSnapshotError::Transport("down".to_owned()))
    );
    assert_eq!(snapshot_result(Ok(())), Ok(()));
    assert_eq!(snapshot_result(Err(())), Err(SendSnapshotError::NotLeader));
}

#[test]
fn snapshot_is_sent_and_reported_as_it_is() {
    let meta = SnapshotMeta { last_included_index: 8, last_included_term: 2 };
    let (sending, sent) = SendSnapshot::start(6, 3, 1, Snapshot { meta, data: vec![1u8, 2] });
    assert_eq!(
        sent,
        SnapshotSending { term: 3, leader_id: 1, snapshot: Snapshot { meta, data: vec![1, 2] } }
    );
    let resp = InstallSnapshotResponse { term: 4 };
    let (reporting, action) = sending.step(SendSnapshotEvent::Responded(Ok(resp)));
    assert_eq!(
        action,
        SendSnapshotAction::Report(SnapshotReport { follower_id: 6, meta, term: 4 })
    );
    let (_, action) = reporting.step(SendSnapshotEvent::Reported(Ok(())));
    assert_eq!(action, SendSnapshotAction::Finish(Ok(())));
    let (_, action) = reporting.step(SendSnapshotEvent::Reported(Err(())));
    assert_eq!(action, SendSnapshotAction::Finish(Err(SendSnapshotError::NotLeader)));
    let (_, action) = sending.step(SendSnapshotEvent::Responded(Err("down".to_owned())));
    let err = SendSnapshotError::Transport("down".to_owned());
    assert_eq!(action, SendSnapshotAction::Finish(Err(err)));
}
