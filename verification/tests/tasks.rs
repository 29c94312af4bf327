//! The background tasks.

use curp::error::StorageError;
use curp::rpc::VoteRequest;
use curp::tasks::{
    delay_millis, election_delay, election_tick, LogPersist, PersistAction, PersistEvent,
};
use curp::vote_round::Vote;

#[test]
fn election_waits_less_than_a_heartbeat_interval() {
    assert_eq!(election_delay(1), 0);
    let mut some_before_the_last = false;
    for _ in 0..1000 {
        let delay = election_delay(300);
        assert!(delay < 300);
        some_before_the_last = some_before_the_last || delay < 299;
    }
    assert!(some_before_the_last);
}

#[test]
fn longest_heartbeat_interval_has_a_delay() {
    let _delay = election_delay(u128::from(u64::MAX) + 1);
}

#[test]
fn delay_is_what_was_drawn() {
    assert_eq!(delay_millis(0), 0);
    assert_eq!(delay_millis(299), 299);
    assert_eq!(delay_millis(u128::from(u64::MAX)), u64::MAX);
}

#[test]
fn tick_asks_for_votes_only_if_there_is_something_to_vote_on() {
    assert_eq!(election_tick(None), None);
    let vote = Vote { term: 5, candidate_id: 2, last_log_index: 7, last_log_term: 4 };
    assert_eq!(
        election_tick(Some(vote)),
        Some(VoteRequest { term: 5, candidate_id: 2, last_log_index: 7, last_log_term: 4 })
    );
}

#[test]
fn storage_error_holds_no_later_entry_back() {
    let mut state = LogPersist::start();
    let mut written = vec![];
    let mut last = PersistAction::Receive;
    let events = vec![
        PersistEvent::Received(Some("a")),
        PersistEvent::Written(Ok(())),
        PersistEvent::Received(Some("b")),
        PersistEvent::Written(Err(StorageError { message: "disk full".to_owned() })),
        PersistEvent::Received(Some("c")),
        PersistEvent::Written(Ok(())),
        PersistEvent::Received(None),
    ];
    for event in events {
        let (next, action) = state.step(event);
        state = next;
        if let PersistAction::Write(entry) = action {
            written.push(entry);
        }
        last = action;
    }
    assert_eq!(written, vec!["a", "b", "c"]);
    assert_eq!(last, PersistAction::Exit);
}
