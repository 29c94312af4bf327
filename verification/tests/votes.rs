//! Asking for votes and giving them.

use std::sync::Arc;

use curp::error::{CurpError, StorageError};
use curp::rpc::{VoteRequest, VoteResponse};
use curp::vote_handler::{Ballot, BallotAction, BallotEvent, VoteHandler};
use curp::vote_round::{requests_to, CastVote, RoundAction, RoundEvent, Vote, VoteRound};

const REQUEST: VoteRequest =
    VoteRequest { term: 5, candidate_id: 2, last_log_index: 7, last_log_term: 4 };

fn round(events: Vec<RoundEvent<u32>>) -> Vec<RoundAction<u32>> {
    let mut state = VoteRound::start();
    let mut actions = vec![];
    for event in events {
        let (next, action) = state.step(event);
        state = next;
        actions.push(action);
    }
    actions
}

fn reply(from: u64, resp: VoteResponse) -> RoundEvent<u32> {
    RoundEvent::Reply(Some((from, Ok(resp))))
}

fn ballots(events: Vec<BallotEvent<u32>>) -> Vec<BallotAction<u32>> {
    let mut state = VoteHandler::start(&REQUEST);
    let mut actions = vec![];
    for event in events {
        let (next, action) = state.step(event);
        state = next;
        actions.push(action);
    }
    actions
}

#[test]
fn request_holds_what_is_put_to_the_vote() {
    let vote = Vote { term: 5, candidate_id: 2, last_log_index: 7, last_log_term: 4 };
    assert_eq!(vote.request(), REQUEST);
}

#[test]
fn every_server_is_asked_once() {
    let req = VoteRequest { term: 5, candidate_id: 1, last_log_index: 12, last_log_term: 4 };
    assert_eq!(requests_to(&vec![3, 2, 7], req), vec![(3, req), (2, req), (7, req)]);
    assert_eq!(requests_to(&vec![], req), vec![]);
}

#[test]
fn every_vote_is_counted_until_one_settles_the_election() {
    let actions = round(vec![
        reply(8, VoteResponse { term: 5, vote_granted: false, spec_pool: vec![vec![1]] }),
        RoundEvent::Decoded(Ok(vec![Arc::new(1)])),
        RoundEvent::Counted(Ok(false)),
        reply(9, VoteResponse { term: 5, vote_granted: true, spec_pool: vec![] }),
        RoundEvent::Decoded(Ok(vec![])),
        RoundEvent::Counted(Ok(true)),
    ]);
    assert_eq!(
        actions,
        vec![
            RoundAction::Decode(vec![vec![1]]),
            RoundAction::Count(CastVote {
                from: 8,
                term: 5,
                vote_granted: false,
                spec_pool: vec![Arc::new(1)],
            }),
            RoundAction::NextReply,
            RoundAction::Decode(vec![]),
            RoundAction::Count(CastVote {
                from: 9,
                term: 5,
                vote_granted: true,
                spec_pool: vec![],
            }),
            RoundAction::Finish,
        ]
    );
}

#[test]
fn failed_requests_and_bad_pools_are_skipped() {
    let actions = round(vec![
        RoundEvent::Reply(Some((8, Err("down".to_owned())))),
        reply(9, VoteResponse { term: 5, vote_granted: true, spec_pool: vec![vec![]] }),
        RoundEvent::Decoded(Err("bad".to_owned())),
        RoundEvent::Reply(None),
    ]);
    assert_eq!(
        actions,
        vec![
            RoundAction::NextReply,
            RoundAction::Decode(vec![vec![]]),
            RoundAction::NextReply,
            RoundAction::Finish,
        ]
    );
}

#[test]
fn round_ends_when_no_longer_candidate() {
    let actions = round(vec![
        reply(9, VoteResponse { term: 6, vote_granted: false, spec_pool: vec![] }),
        RoundEvent::Decoded(Ok(vec![])),
        RoundEvent::Counted(Err(())),
    ]);
    assert_eq!(actions[2], RoundAction::Finish);
}

#[test]
fn vote_is_written_before_it_is_granted() {
    let actions = ballots(vec![
        BallotEvent::Decided(Ok((5, vec![Arc::new(3)]))),
        BallotEvent::Persisted(Ok(())),
        BallotEvent::Encoded(Ok(vec![vec![3]])),
    ]);
    assert_eq!(
        actions,
        vec![
            BallotAction::Persist { term: 5, candidate_id: 2 },
            BallotAction::Encode(vec![Arc::new(3)]),
            BallotAction::Reply(Ballot::Granted { term: 5, spec_pool: vec![vec![3]] }),
        ]
    );
}

#[test]
fn denial_writes_nothing() {
    let actions = ballots(vec![BallotEvent::Decided(Err(9))]);
    assert_eq!(actions, vec![BallotAction::Reply(Ballot::Denied { term: 9 })]);
}

#[test]
fn vote_that_cannot_be_written_is_not_granted() {
    let err = StorageError { message: "disk full".to_owned() };
    let actions =
        ballots(vec![BallotEvent::Decided(Ok((5, vec![]))), BallotEvent::Persisted(Err(err))]);
    let err = CurpError::Storage(StorageError { message: "disk full".to_owned() });
    assert_eq!(actions[1], BallotAction::Fail(err));
}

#[test]
fn vote_whose_pool_cannot_be_encoded_is_not_granted() {
    let actions = ballots(vec![
        BallotEvent::Decided(Ok((5, vec![]))),
        BallotEvent::Persisted(Ok(())),
        BallotEvent::Encoded(Err(CurpError::EncodeDecode("bad".to_owned()))),
    ]);
    assert_eq!(actions[2], BallotAction::Fail(CurpError::EncodeDecode("bad".to_owned())));
}

#[test]
fn ballots_are_sent_and_counted_as_they_are() {
    let granted = Ballot::Granted { term: 5, spec_pool: vec![vec![3]] }.into_response();
    assert_eq!(granted, VoteResponse { term: 5, vote_granted: true, spec_pool: vec![vec![3]] });
    let denied = Ballot::Denied { term: 9 }.into_response();
    assert_eq!(denied, VoteResponse { term: 9, vote_granted: false, spec_pool: vec![] });
    let actions = round(vec![reply(4, denied), RoundEvent::Decoded(Ok(vec![]))]);
    assert_eq!(
        actions[1],
        RoundAction::Count(CastVote {
            from: 4,
            term: 9,
            vote_granted: false,
            spec_pool: vec![],
        })
    );
}
