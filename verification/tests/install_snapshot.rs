//! Receiving a snapshot.

use curp::error::CurpError;
use curp::install_snapshot::{
    InstallSnapshot, SnapshotAction, SnapshotEvent, SnapshotFailure, SnapshotOffer,
};
use curp::rpc::{InstallSnapshotRequest, InstallSnapshotResponse, SnapshotMeta};

fn piece(offset: u64, data: &[u8], done: bool) -> InstallSnapshotRequest {
    InstallSnapshotRequest {
        term: 3,
        leader_id: 11,
        last_included_index: 20,
        last_included_term: 2,
        offset,
        data: data.to_vec(),
        done,
    }
}

fn item(req: InstallSnapshotRequest) -> SnapshotEvent {
    SnapshotEvent::Item(Some(Ok(req)))
}

/// Runs the receipt on the events and gives the actions.
fn run(events: Vec<SnapshotEvent>) -> Vec<SnapshotAction> {
    let mut state = InstallSnapshot::start();
    let mut actions = vec![];
    for event in events {
        let (next, action) = state.step(event);
        state = next;
        actions.push(action);
    }
    actions
}

const OFFER: SnapshotOffer =
    SnapshotOffer { term: 3, leader_id: 11, last_included_index: 20, last_included_term: 2 };

const META: SnapshotMeta = SnapshotMeta { last_included_index: 20, last_included_term: 2 };

#[test]
fn whole_snapshot_is_written_and_installed() {
    let actions = run(vec![
        SnapshotEvent::Allocated(true),
        item(piece(0, &[1, 2, 3], false)),
        SnapshotEvent::Verified(true),
        SnapshotEvent::Written(Ok(())),
        item(piece(3, &[4, 5], true)),
        SnapshotEvent::Verified(true),
        SnapshotEvent::Written(Ok(())),
        SnapshotEvent::ResetSent(Ok(())),
        SnapshotEvent::Term(8),
    ]);
    assert_eq!(
        actions,
        vec![
            SnapshotAction::NextItem,
            SnapshotAction::Verify(OFFER),
            SnapshotAction::Write(vec![1, 2, 3]),
            SnapshotAction::NextItem,
            SnapshotAction::Verify(OFFER),
            SnapshotAction::Write(vec![4, 5]),
            SnapshotAction::SendReset { meta: META, expected_size: Some(5) },
            SnapshotAction::ReadTerm,
            SnapshotAction::Reply(InstallSnapshotResponse { term: 8 }),
        ]
    );
}

#[test]
fn written_bytes_are_those_of_the_accepted_pieces() {
    let actions = run(vec![
        SnapshotEvent::Allocated(true),
        item(piece(0, &[9], false)),
        SnapshotEvent::Verified(true),
        SnapshotEvent::Written(Ok(())),
        item(piece(1, &[], false)),
        SnapshotEvent::Verified(true),
        SnapshotEvent::Written(Ok(())),
        item(piece(1, &[7, 8], true)),
        SnapshotEvent::Verified(false),
        SnapshotEvent::Term(4),
    ]);
    let mut bytes = vec![];
    for action in actions {
        if let SnapshotAction::Write(data) = action {
            bytes.extend(data);
        }
    }
    assert_eq!(bytes, vec![9]);
}

#[test]
fn refused_piece_is_answered_with_the_term() {
    let actions = run(vec![
        SnapshotEvent::Allocated(true),
        item(piece(0, &[1], true)),
        SnapshotEvent::Verified(false),
        SnapshotEvent::Term(6),
    ]);
    assert_eq!(actions[2], SnapshotAction::ReadTerm);
    assert_eq!(actions[3], SnapshotAction::Reply(InstallSnapshotResponse { term: 6 }));
}

#[test]
fn end_beyond_64_bits_has_no_expected_size() {
    let actions = run(vec![
        SnapshotEvent::Allocated(true),
        item(piece(u64::MAX, &[1], true)),
        SnapshotEvent::Verified(true),
        SnapshotEvent::Written(Ok(())),
    ]);
    assert_eq!(actions[3], SnapshotAction::SendReset { meta: META, expected_size: None });
    let actions = run(vec![
        SnapshotEvent::Allocated(true),
        item(piece(u64::MAX - 1, &[1], true)),
        SnapshotEvent::Verified(true),
        SnapshotEvent::Written(Ok(())),
    ]);
    assert_eq!(actions[3], SnapshotAction::SendReset { meta: META, expected_size: Some(u64::MAX) });
}

#[test]
fn failed_allocation_is_an_internal_error() {
    let actions = run(vec![SnapshotEvent::Allocated(false)]);
    assert_eq!(actions, vec![SnapshotAction::Fail(SnapshotFailure::Allocate)]);
    assert_eq!(
        SnapshotFailure::Allocate.into_error(),
        CurpError::Internal("failed to allocate a new snapshot".to_owned()),
    );
}

#[test]
fn broken_stream_is_a_transport_error() {
    let actions = run(vec![
        SnapshotEvent::Allocated(true),
        SnapshotEvent::Item(Some(Err("reset by peer".to_owned()))),
    ]);
    let failure = SnapshotFailure::Stream("reset by peer".to_owned());
    assert_eq!(actions[1], SnapshotAction::Fail(failure));
    let failure = SnapshotFailure::Stream("reset by peer".to_owned());
    assert_eq!(failure.into_error(), CurpError::Transport("reset by peer".to_owned()));
}

#[test]
fn incomplete_stream_is_a_transport_error() {
    let actions = run(vec![
        SnapshotEvent::Allocated(true),
        item(piece(0, &[1], false)),
        SnapshotEvent::Verified(true),
        SnapshotEvent::Written(Ok(())),
        SnapshotEvent::Item(None),
    ]);
    assert_eq!(actions[4], SnapshotAction::Fail(SnapshotFailure::Incomplete));
    assert!(!actions.iter().any(|action| matches!(action, SnapshotAction::SendReset { .. })));
    assert_eq!(
        SnapshotFailure::Incomplete.into_error(),
        CurpError::Transport("failed to receive a complete snapshot".to_owned()),
    );
}

#[test]
fn failed_write_is_an_io_error() {
    let actions = run(vec![
        SnapshotEvent::Allocated(true),
        item(piece(0, &[1], true)),
        SnapshotEvent::Verified(true),
        SnapshotEvent::Written(Err("disk full".to_owned())),
    ]);
    assert_eq!(actions[3], SnapshotAction::Fail(SnapshotFailure::Write("disk full".to_owned())));
    assert_eq!(
        SnapshotFailure::Write("disk full".to_owned()).into_error(),
        CurpError::IO("disk full".to_owned()),
    );
}

#[test]
fn failed_reset_is_an_internal_error() {
    let actions = run(vec![
        SnapshotEvent::Allocated(true),
        item(piece(0, &[1], true)),
        SnapshotEvent::Verified(true),
        SnapshotEvent::Written(Ok(())),
        SnapshotEvent::ResetSent(Err("closed".to_owned())),
    ]);
    assert_eq!(actions[4], SnapshotAction::Fail(SnapshotFailure::Reset("closed".to_owned())));
    assert_eq!(
        SnapshotFailure::Reset("closed".to_owned()).into_error(),
        CurpError::Internal(
            "failed to reset the command executor by snapshot, closed".to_owned()
        ),
    );
}
