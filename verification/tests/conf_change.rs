//! Answering a configuration change.

use curp::conf_change::{ConfChangeAction, ConfChangeEvent, ConfChangeHandler};
use curp::log_entry::{ConfChange, ProposeConfChangeRequest, ProposeId};
use curp::rpc::ProposeConfChangeResponse;

fn run(result: Result<(), i32>, members: Vec<u64>) -> Vec<ConfChangeAction<u64>> {
    let (handler, entry) = ConfChangeHandler::start(ProposeConfChangeRequest {
        id: "shrink".to_owned(),
        changes: vec![ConfChange::remove(2)],
    });
    assert_eq!(entry.id().as_str(), "shrink");
    assert_eq!(entry.changes, vec![ConfChange::remove(2)]);
    let (handler, first) = handler.step(ConfChangeEvent::Proposed);
    let (handler, second) = handler.step(ConfChangeEvent::Settled(result));
    let (_, third) = handler.step(ConfChangeEvent::Members(members));
    vec![first, second, third]
}

#[test]
fn members_are_read_once_the_change_is_done() {
    assert_eq!(
        run(Ok(()), vec![1, 3]),
        vec![
            ConfChangeAction::Wait(ProposeId::new("shrink".to_owned())),
            ConfChangeAction::ReadMembers,
            ConfChangeAction::Reply(ProposeConfChangeResponse { error: None, members: vec![1, 3] }),
        ]
    );
}

#[test]
fn members_are_told_with_the_error_of_a_failed_change() {
    let mut actions = run(Err(2), vec![1, 2, 3]);
    assert_eq!(
        actions.remove(2),
        ConfChangeAction::Reply(ProposeConfChangeResponse {
            error: Some(2),
            members: vec![1, 2, 3]
        })
    );
}
