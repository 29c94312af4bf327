//! Answering the requests that need no more than one decision.

use std::sync::Arc;

use vstd::prelude::*;

use crate::error::CurpError;
use crate::log_entry::{
    Command, ConfChangeEntry, LogEntry, LogIndex, ProposeConfChangeRequest, ProposeId, ServerId,
};
use crate::rpc::{
    AppendEntriesRequest, AppendEntriesResponse, ExeResult, FetchClusterResponse,
    FetchLeaderResponse, FetchReadStateResponse, ProposeConfChangeResponse, ProposeResponse,
};
use crate::send_ae::AppendHeader;

verus! {

/// A proposal whose command is being executed.
#[derive(Debug, PartialEq, Eq)]
pub struct PendingProposal {
    /// The leader that the node knew of when the proposal came
    pub leader_id: Option<ServerId>,
    /// The node's term when the proposal came
    pub term: u64,
    /// The proposal id of the command
    pub id: ProposeId,
}

/// How a proposal goes on once the state machine has taken it in.
#[derive(Debug, PartialEq, Eq)]
pub enum ProposeStep<R, E> {
    /// Wait for the result of the command's execution
    AwaitResult(PendingProposal),
    /// Give this answer
    Reply(ProposeResponse<R, E>),
}

/// The command of a proposal as the state machine takes it in.
pub fn proposed_command<C>(decoded: Result<C, CurpError>) -> (res: Result<Arc<C>, CurpError>)
    ensures
        res == match decoded {
            Ok(cmd) => Ok::<Arc<C>, CurpError>(Arc::new(cmd)),
            Err(err) => Err(err),
        },
{
    match decoded {
        Ok(cmd) => Ok(Arc::new(cmd)),
        Err(err) => Err(err),
    }
}

/// How a proposal goes on, given what the state machine made of it: whether it executes the
/// command speculatively, or why it refuses.
pub fn after_propose<C: Command, R, E>(
    cmd: &C,
    leader_id: Option<ServerId>,
    term: u64,
    result: Result<bool, E>,
) -> (res: ProposeStep<R, E>)
    ensures
        match result {
            Ok(true) => {
                &&& res matches ProposeStep::AwaitResult(pending)
                &&& pending.leader_id == leader_id
                &&& pending.term == term
                &&& call_ensures(C::id, (cmd,), &pending.id)
            },
            Ok(false) => res == ProposeStep::<R, E>::Reply(
                ProposeResponse { leader_id, term, exe_result: None },
            ),
            Err(err) => res == ProposeStep::<R, E>::Reply(
                ProposeResponse { leader_id, term, exe_result: Some(ExeResult::Error(err)) },
            ),
        },
{
    match result {
        Ok(true) => ProposeStep::AwaitResult(
            PendingProposal { leader_id, term, id: cmd.id().clone() },
        ),
        Ok(false) => ProposeStep::Reply(ProposeResponse::new_empty(leader_id, term)),
        Err(err) => ProposeStep::Reply(ProposeResponse::new_error(leader_id, term, err)),
    }
}

impl PendingProposal {
    /// The answer, once the command has been executed with this result.
    pub fn executed<R, E>(self, result: R) -> (res: ProposeResponse<R, E>)
        ensures
            res == (ProposeResponse::<R, E> {
                leader_id: self.leader_id,
                term: self.term,
                exe_result: Some(ExeResult::Result(result)),
            }),
    {
        ProposeResponse::new_result(self.leader_id, self.term, result)
    }
}

/// Whether a configuration change is waited for under the id and taken in as the entry.
pub open spec fn is_conf_change_proposal(
    req: ProposeConfChangeRequest,
    id: ProposeId,
    entry: ConfChangeEntry,
) -> bool {
    &&& id@ == req.id@
    &&& entry.id@ == req.id@
    &&& entry.changes == req.changes
}

/// The id that a configuration change is waited for under, and the entry that the state
/// machine takes in.
pub fn conf_change_proposal(req: ProposeConfChangeRequest) -> (res: (ProposeId, ConfChangeEntry))
    ensures
        is_conf_change_proposal(req, res.0, res.1),
        res.0@ == req.id@,
        res.1.id@ == req.id@,
        res.1.changes == req.changes,
{
    let id = ProposeId::new(req.id.clone());
    (id, ConfChangeEntry::from(req))
}

/// The answer to a configuration change, given what the wait for it came to and the members.
pub open spec fn conf_response_of<T, M>(
    result: Result<T, i32>,
    members: Vec<M>,
) -> ProposeConfChangeResponse<M> {
    ProposeConfChangeResponse {
        error: match result {
            Ok(_) => None,
            Err(code) => Some(code),
        },
        members,
    }
}

/// The answer to a configuration change. Only what the wait for the change came to counts:
/// an error is told by its code.
pub fn conf_change_response<T, M>(result: Result<T, i32>, members: Vec<M>) -> (res:
    ProposeConfChangeResponse<M>)
    ensures
        res == conf_response_of(result, members),
        res.members == members,
        res.error == match result {
            Ok(_) => None,
            Err(code) => Some(code),
        },
{
    let error = match result {
        Ok(_) => None,
        Err(code) => Some(code),
    };
    ProposeConfChangeResponse { error, members }
}

/// Log entries from a leader as the state machine takes them in.
#[derive(Debug, PartialEq, Eq)]
pub struct AppendCall<C> {
    /// Everything but the entries
    pub header: AppendHeader,
    /// The new entries
    pub entries: Vec<LogEntry<C>>,
}

/// Everything in a request but its entries.
pub open spec fn header_of(req: AppendEntriesRequest) -> AppendHeader {
    AppendHeader {
        term: req.term,
        leader_id: req.leader_id,
        prev_log_index: req.prev_log_index,
        prev_log_term: req.prev_log_term,
        leader_commit: req.leader_commit,
    }
}

/// What the state machine takes in, given the request and its entries decoded.
pub fn append_call<C>(
    req: &AppendEntriesRequest,
    decoded: Result<Vec<LogEntry<C>>, CurpError>,
) -> (res: Result<AppendCall<C>, CurpError>)
    ensures
        res == match decoded {
            Ok(entries) => Ok::<AppendCall<C>, CurpError>(
                AppendCall { header: header_of(*req), entries },
            ),
            Err(err) => Err(err),
        },
        res matches Ok(call) ==> {
            &&& call.header.term == req.term
            &&& call.header.leader_id == req.leader_id
            &&& call.header.prev_log_index == req.prev_log_index
            &&& call.header.prev_log_term == req.prev_log_term
            &&& call.header.leader_commit == req.leader_commit
        },
{
    match decoded {
        Ok(entries) => {
            let header = AppendHeader {
                term: req.term,
                leader_id: req.leader_id,
                prev_log_index: req.prev_log_index,
                prev_log_term: req.prev_log_term,
                leader_commit: req.leader_commit,
            };
            Ok(AppendCall { header, entries })
        },
        Err(err) => Err(err),
    }
}

/// The answer to log entries on which the state machine came to the given result.
pub open spec fn response_of(result: Result<u64, (u64, LogIndex)>) -> AppendEntriesResponse {
    match result {
        Ok(term) => AppendEntriesResponse { term, success: true, hint_index: 0 },
        Err((term, hint_index)) => AppendEntriesResponse { term, success: false, hint_index },
    }
}

/// The answer to log entries, given what the state machine made of them: its term, or its
/// term and where the leader should try next.
pub fn append_response(result: Result<u64, (u64, LogIndex)>) -> (res: AppendEntriesResponse)
    ensures
        res == response_of(result),
        match result {
            Ok(term) => res == (AppendEntriesResponse { term, success: true, hint_index: 0 }),
            Err((term, hint_index)) => res == (AppendEntriesResponse {
                term,
                success: false,
                hint_index,
            }),
        },
{
    match result {
        Ok(term) => AppendEntriesResponse::new_accept(term),
        Err((term, hint_index)) => AppendEntriesResponse::new_reject(term, hint_index),
    }
}

/// What is known of a command that has been synced.
#[derive(Debug, PartialEq, Eq)]
pub struct SyncedResults<R, A> {
    /// The result of its execution
    pub er: Option<R>,
    /// The result of what was done after the sync, if anything was
    pub asr: Option<A>,
}

/// What a client that waits for the sync of a command is told.
pub fn synced_results<R, A>(er: R, asr: Option<A>) -> (res: SyncedResults<R, A>)
    ensures
        res == (SyncedResults { er: Some(er), asr }),
{
    SyncedResults { er: Some(er), asr }
}

/// The answer to a question for the leader.
pub fn fetch_leader(leader: (Option<ServerId>, u64)) -> (res: Result<
    FetchLeaderResponse,
    CurpError,
>)
    ensures
        res == Ok::<FetchLeaderResponse, CurpError>(
            FetchLeaderResponse { leader_id: leader.0, term: leader.1 },
        ),
{
    Ok(FetchLeaderResponse::new(leader.0, leader.1))
}

/// The answer to a question for the cluster.
pub fn fetch_cluster<M>(leader: (Option<ServerId>, u64), all_members: M) -> (res: Result<
    FetchClusterResponse<M>,
    CurpError,
>)
    ensures
        res == Ok::<FetchClusterResponse<M>, CurpError>(
            FetchClusterResponse { leader_id: leader.0, all_members, term: leader.1 },
        ),
{
    Ok(FetchClusterResponse::new(leader.0, all_members, leader.1))
}

/// The answer to a question for the read state of a command.
pub fn fetch_read_state<S>(state: Result<S, CurpError>) -> (res: Result<
    FetchReadStateResponse<S>,
    CurpError,
>)
    ensures
        res == match state {
            Ok(read_state) => Ok::<FetchReadStateResponse<S>, CurpError>(
                FetchReadStateResponse { read_state },
            ),
            Err(err) => Err(err),
        },
{
    match state {
        Ok(read_state) => Ok(FetchReadStateResponse::new(read_state)),
        Err(err) => Err(err),
    }
}

} // verus!
