//! Messages between nodes, and between clients and nodes.

use vstd::prelude::*;

use crate::log_entry::{LogIndex, ServerId};

verus! {

/// What a proposal came to on the node that answers.
#[derive(Debug, PartialEq, Eq)]
pub enum ExeResult<R, E> {
    /// The result of the speculative execution
    Result(R),
    /// The proposal was refused
    Error(E),
}

/// Answer to a proposal.
#[derive(Debug, PartialEq, Eq)]
pub struct ProposeResponse<R, E> {
    /// The leader that the node knows of
    pub leader_id: Option<ServerId>,
    /// The node's term
    pub term: u64,
    /// The outcome, if the node has one to tell
    pub exe_result: Option<ExeResult<R, E>>,
}

impl<R, E> ProposeResponse<R, E> {
    /// The command was executed, with this result.
    pub fn new_result(leader_id: Option<ServerId>, term: u64, result: R) -> (res: Self)
        ensures
            res == (ProposeResponse::<R, E> {
                leader_id,
                term,
                exe_result: Some(ExeResult::Result(result)),
            }),
    {
        ProposeResponse { leader_id, term, exe_result: Some(ExeResult::Result(result)) }
    }

    /// The node has no outcome to tell.
    pub fn new_empty(leader_id: Option<ServerId>, term: u64) -> (res: Self)
        ensures
            res == (ProposeResponse::<R, E> { leader_id, term, exe_result: None }),
    {
        ProposeResponse { leader_id, term, exe_result: None }
    }

    /// The proposal was refused.
    pub fn new_error(leader_id: Option<ServerId>, term: u64, error: E) -> (res: Self)
        ensures
            res == (ProposeResponse::<R, E> {
                leader_id,
                term,
                exe_result: Some(ExeResult::Error(error)),
            }),
    {
        ProposeResponse { leader_id, term, exe_result: Some(ExeResult::Error(error)) }
    }
}

/// Answer to a configuration change.
#[derive(Debug, PartialEq, Eq)]
pub struct ProposeConfChangeResponse<M> {
    /// The code of the error, if the change failed
    pub error: Option<i32>,
    /// The members of the cluster
    pub members: Vec<M>,
}

/// A leader's entries for a follower; no entries make it a heartbeat.
#[derive(Debug, PartialEq, Eq)]
pub struct AppendEntriesRequest {
    /// The leader's term
    pub term: u64,
    /// The leader
    pub leader_id: ServerId,
    /// Position of the entry before the new ones
    pub prev_log_index: LogIndex,
    /// Term of the entry before the new ones
    pub prev_log_term: u64,
    /// The new entries, each encoded
    pub entries: Vec<Vec<u8>>,
    /// The leader's commit index
    pub leader_commit: LogIndex,
}

/// Answer to `AppendEntriesRequest`.
#[derive(Debug, Clone, Copy, PartialEq, Eq)]
pub struct AppendEntriesResponse {
    /// The follower's term
    pub term: u64,
    /// Whether the follower took the entries
    pub success: bool,
    /// Where the leader should try next, after a rejection
    pub hint_index: LogIndex,
}

impl AppendEntriesResponse {
    /// The follower took the entries.
    pub fn new_accept(term: u64) -> (res: Self)
        ensures
            res == (AppendEntriesResponse { term, success: true, hint_index: 0 }),
    {
        AppendEntriesResponse { term, success: true, hint_index: 0 }
    }

    /// The follower rejected the entries.
    pub fn new_reject(term: u64, hint_index: LogIndex) -> (res: Self)
        ensures
            res == (AppendEntriesResponse { term, success: false, hint_index }),
    {
        AppendEntriesResponse { term, success: false, hint_index }
    }
}

/// A candidate's request for a vote.
#[derive(Debug, Clone, Copy, PartialEq, Eq)]
pub struct VoteRequest {
    /// The candidate's term
    pub term: u64,
    /// The candidate
    pub candidate_id: ServerId,
    /// Position of the candidate's last entry
    pub last_log_index: LogIndex,
    /// Term of the candidate's last entry
    pub last_log_term: u64,
}

impl VoteRequest {
    /// A request with the given parts.
    pub fn new(
        term: u64,
        candidate_id: ServerId,
        last_log_index: LogIndex,
        last_log_term: u64,
    ) -> (res: Self)
        ensures
            res == (VoteRequest { term, candidate_id, last_log_index, last_log_term }),
    {
        VoteRequest { term, candidate_id, last_log_index, last_log_term }
    }
}

/// Answer to `VoteRequest`.
#[derive(Debug, PartialEq, Eq)]
pub struct VoteResponse {
    /// The voter's term
    pub term: u64,
    /// Whether the vote was granted
    pub vote_granted: bool,
    /// The commands of the voter's speculative pool, each encoded
    pub spec_pool: Vec<Vec<u8>>,
}

impl VoteResponse {
    /// The vote is granted; the voter tells its speculative pool.
    pub fn new_accept(term: u64, spec_pool: Vec<Vec<u8>>) -> (res: Self)
        ensures
            res == (VoteResponse { term, vote_granted: true, spec_pool }),
    {
        VoteResponse { term, vote_granted: true, spec_pool }
    }

    /// The vote is denied.
    pub fn new_reject(term: u64) -> (res: Self)
        ensures
            res.term == term,
            !res.vote_granted,
            res.spec_pool@.len() == 0,
    {
        VoteResponse { term, vote_granted: false, spec_pool: Vec::new() }
    }
}

/// Answer to a question for the leader.
#[derive(Debug, Clone, Copy, PartialEq, Eq)]
pub struct FetchLeaderResponse {
    /// The leader that the node knows of
    pub leader_id: Option<ServerId>,
    /// The node's term
    pub term: u64,
}

impl FetchLeaderResponse {
    /// A response with the given parts.
    pub fn new(leader_id: Option<ServerId>, term: u64) -> (res: Self)
        ensures
            res == (FetchLeaderResponse { leader_id, term }),
    {
        FetchLeaderResponse { leader_id, term }
    }
}

/// Answer to a question for the cluster.
#[derive(Debug, PartialEq, Eq)]
pub struct FetchClusterResponse<M> {
    /// The leader that the node knows of
    pub leader_id: Option<ServerId>,
    /// All members, with their addresses
    pub all_members: M,
    /// The node's term
    pub term: u64,
}

impl<M> FetchClusterResponse<M> {
    /// A response with the given parts.
    pub fn new(leader_id: Option<ServerId>, all_members: M, term: u64) -> (res: Self)
        ensures
            res == (FetchClusterResponse { leader_id, all_members, term }),
    {
        FetchClusterResponse { leader_id, all_members, term }
    }
}

/// Answer to a question for the read state of a command.
#[derive(Debug, PartialEq, Eq)]
pub struct FetchReadStateResponse<S> {
    /// What a read has to wait for
    pub read_state: S,
}

impl<S> FetchReadStateResponse<S> {
    /// A response with the given state.
    pub fn new(read_state: S) -> (res: Self)
        ensures
            res == (FetchReadStateResponse { read_state }),
    {
        FetchReadStateResponse { read_state }
    }
}

/// One piece of a snapshot that a leader streams to a follower.
#[derive(Debug, PartialEq, Eq)]
pub struct InstallSnapshotRequest {
    /// The leader's term
    pub term: u64,
    /// The leader
    pub leader_id: ServerId,
    /// Position of the last entry in the snapshot
    pub last_included_index: LogIndex,
    /// Term of the last entry in the snapshot
    pub last_included_term: u64,
    /// Where in the snapshot the piece starts
    pub offset: u64,
    /// The piece
    pub data: Vec<u8>,
    /// Whether it is the last piece
    pub done: bool,
}

/// What a snapshot covers.
#[derive(Debug, Clone, Copy, PartialEq, Eq)]
pub struct SnapshotMeta {
    /// Position of the last entry in the snapshot
    pub last_included_index: LogIndex,
    /// Term of the last entry in the snapshot
    pub last_included_term: u64,
}

/// A snapshot.
#[derive(Debug, PartialEq, Eq)]
pub struct Snapshot<D> {
    /// What it covers
    pub meta: SnapshotMeta,
    /// Its bytes
    pub data: D,
}

/// Answer to a snapshot.
#[derive(Debug, Clone, Copy, PartialEq, Eq)]
pub struct InstallSnapshotResponse {
    /// The follower's term
    pub term: u64,
}

impl InstallSnapshotResponse {
    /// A response with the given term.
    pub fn new(term: u64) -> (res: Self)
        ensures
            res == (InstallSnapshotResponse { term }),
    {
        InstallSnapshotResponse { term }
    }
}

} // verus!
