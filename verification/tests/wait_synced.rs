//! Waiting for the sync of a command.

use curp::error::CurpError;
use curp::handlers::SyncedResults;
use curp::log_entry::ProposeId;
use curp::wait_synced::{WaitAction, WaitEvent, WaitFailure, WaitSynced};

type Event = WaitEvent<i32, i32, &'static str>;

type Action = WaitAction<i32, i32, &'static str>;

fn run(events: Vec<Event>) -> Vec<Action> {
    let mut state = WaitSynced::start();
    let mut actions = vec![];
    for event in events {
        let (next, action) = state.step(event);
        state = next;
        actions.push(action);
    }
    actions
}

fn get() -> ProposeId {
    ProposeId::new("get-1".to_owned())
}

fn bad_bool() -> bincode::Error {
    bincode::deserialize::<bool>(&[2]).unwrap_err()
}

#[test]
fn client_is_told_both_results_of_its_command() {
    let actions = run(vec![
        WaitEvent::IdDecoded(Ok(get())),
        WaitEvent::Synced { er: 1, asr: Some(2) },
        WaitEvent::Encoded(Ok("answer")),
    ]);
    match &actions[0] {
        WaitAction::Wait(id) => assert_eq!(id, &get()),
        _ => panic!("the command is not waited for"),
    }
    match &actions[1] {
        WaitAction::Encode(results) => {
            assert_eq!(results, &SyncedResults { er: Some(1), asr: Some(2) });
        }
        _ => panic!("the results are not encoded"),
    }
    assert!(matches!(actions[2], WaitAction::Reply("answer")));
}

#[test]
fn id_that_cannot_be_decoded_is_an_encode_decode_error() {
    let mut actions = run(vec![WaitEvent::IdDecoded(Err(bad_bool()))]);
    match actions.remove(0) {
        WaitAction::Fail(failure) => {
            assert!(matches!(failure, WaitFailure::DecodeId(_)));
            assert_eq!(
                failure.into_error(),
                CurpError::EncodeDecode(bad_bool().to_string())
            );
        }
        _ => panic!("a bad id is waited for"),
    }
}

#[test]
fn answer_that_cannot_be_encoded_is_an_encode_decode_error() {
    let mut actions = run(vec![
        WaitEvent::IdDecoded(Ok(get())),
        WaitEvent::Synced { er: 1, asr: None },
        WaitEvent::Encoded(Err(bad_bool())),
    ]);
    match actions.remove(2) {
        WaitAction::Fail(failure) => {
            assert!(matches!(failure, WaitFailure::EncodeAnswer(_)));
            assert_eq!(
                failure.into_error(),
                CurpError::EncodeDecode(bad_bool().to_string())
            );
        }
        _ => panic!("a bad answer is given"),
    }
}
