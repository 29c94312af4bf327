//! Answering requests.

use std::sync::Arc;

use curp::error::CurpError;
use curp::handlers::{
    after_propose, conf_change_proposal, conf_change_response, fetch_cluster, fetch_leader,
    fetch_read_state, proposed_command, synced_results, PendingProposal, ProposeStep,
    SyncedResults,
};
use curp::log_entry::{Command, ConfChange, LogEntry, ProposeConfChangeRequest, ProposeId};
use curp::rpc::{
    ExeResult, FetchClusterResponse, FetchLeaderResponse, FetchReadStateResponse,
    ProposeConfChangeResponse, ProposeResponse,
};

#[derive(Debug, PartialEq, Eq)]
struct Get {
    id: ProposeId,
}

impl Command for Get {
    fn id(&self) -> &ProposeId {
        &self.id
    }
}

fn get() -> Get {
    Get { id: ProposeId::new("get-1".to_owned()) }
}

#[test]
fn leader_answers_with_the_result_of_the_execution() {
    let step: ProposeStep<Vec<u32>, String> = after_propose(&get(), Some(1), 3, Ok(true));
    let pending = match step {
        ProposeStep::AwaitResult(pending) => pending,
        ProposeStep::Reply(_) => panic!("answered before the execution"),
    };
    assert_eq!(
        pending,
        PendingProposal {
            leader_id: Some(1),
            term: 3,
            id: ProposeId::new("get-1".to_owned()),
        }
    );
    let resp: ProposeResponse<Vec<u32>, String> = pending.executed(vec![0]);
    assert_eq!(
        resp,
        ProposeResponse {
            leader_id: Some(1),
            term: 3,
            exe_result: Some(ExeResult::Result(vec![0])),
        }
    );
}

#[test]
fn follower_answers_empty_at_once() {
    let step: ProposeStep<Vec<u32>, String> = after_propose(&get(), Some(1), 3, Ok(false));
    assert_eq!(
        step,
        ProposeStep::Reply(ProposeResponse { leader_id: Some(1), term: 3, exe_result: None })
    );
}

#[test]
fn conflicting_command_is_answered_with_an_error() {
    let step: ProposeStep<Vec<u32>, String> =
        after_propose(&get(), None, 3, Err("key conflict".to_owned()));
    assert_eq!(
        step,
        ProposeStep::Reply(ProposeResponse {
            leader_id: None,
            term: 3,
            exe_result: Some(ExeResult::Error("key conflict".to_owned())),
        })
    );
}

#[test]
fn command_that_cannot_be_decoded_is_not_proposed() {
    assert_eq!(proposed_command(Ok(get())), Ok(Arc::new(get())));
    assert_eq!(
        proposed_command::<Get>(Err(CurpError::EncodeDecode("bad".to_owned()))),
        Err(CurpError::EncodeDecode("bad".to_owned()))
    );
}

#[test]
fn conf_change_is_waited_for_under_the_id_it_is_proposed_with() {
    let (id, entry) = conf_change_proposal(ProposeConfChangeRequest {
        id: "grow".to_owned(),
        changes: vec![ConfChange::add(4, "address".to_owned()), ConfChange::remove(2)],
    });
    assert_eq!(id.as_str(), "grow");
    assert_eq!(entry.id(), &id);
    assert_eq!(entry.changes.len(), 2);
    assert_eq!(entry.changes[1], ConfChange::remove(2));
    let in_log: LogEntry<Get> = LogEntry::new_conf_change(12, 3, entry);
    assert_eq!(in_log.id(), &id);
}

#[test]
fn conf_change_error_is_told_by_its_code() {
    assert_eq!(
        conf_change_response::<bool, u64>(Ok(true), vec![1, 2, 3, 4]),
        ProposeConfChangeResponse { error: None, members: vec![1, 2, 3, 4] }
    );
    assert_eq!(
        conf_change_response::<bool, u64>(Err(2), vec![1, 2, 3]),
        ProposeConfChangeResponse { error: Some(2), members: vec![1, 2, 3] }
    );
}

#[test]
fn synced_command_is_told_with_both_results() {
    assert_eq!(synced_results(1, Some(2)), SyncedResults { er: Some(1), asr: Some(2) });
    assert_eq!(synced_results::<i32, i32>(1, None), SyncedResults { er: Some(1), asr: None });
}

#[test]
fn questions_for_leader_and_cluster_are_always_answered() {
    assert_eq!(
        fetch_leader((Some(1), 3)),
        Ok(FetchLeaderResponse { leader_id: Some(1), term: 3 })
    );
    assert_eq!(
        fetch_cluster((None, 3), vec!["S0", "S1"]),
        Ok(FetchClusterResponse { leader_id: None, all_members: vec!["S0", "S1"], term: 3 })
    );
}

#[test]
fn read_state_is_told_or_its_error() {
    assert_eq!(fetch_read_state(Ok(17)), Ok(FetchReadStateResponse { read_state: 17 }));
    assert_eq!(
        fetch_read_state::<u64>(Err(CurpError::Internal("x".to_owned()))),
        Err(CurpError::Internal("x".to_owned()))
    );
}
