//! Log entries and errors.

use std::sync::Arc;

use curp::error::{CurpError, SendAEError, SendSnapshotError, StorageError};
use curp::log_entry::{
    Command, ConfChange, ConfChangeEntry, ConfChangeType, EntryData, LogEntry,
    ProposeConfChangeRequest, ProposeId,
};

#[derive(Debug, PartialEq, Eq)]
struct TestCommand {
    id: ProposeId,
}

impl TestCommand {
    fn new(id: &str) -> Self {
        TestCommand { id: ProposeId::new(id.to_owned()) }
    }
}

impl Command for TestCommand {
    fn id(&self) -> &ProposeId {
        &self.id
    }
}

#[test]
fn command_entry_has_the_id_of_its_command() {
    let cmd = Arc::new(TestCommand::new("put-1"));
    let entry = LogEntry::new_cmd(4, 2, Arc::clone(&cmd));
    assert_eq!(entry.index, 4);
    assert_eq!(entry.term, 2);
    assert_eq!(entry.entry_data, EntryData::Command(cmd));
    assert_eq!(entry.id().as_str(), "put-1");
}

#[test]
fn shutdown_entry_has_its_own_id() {
    let entry = LogEntry::<TestCommand>::new_shutdown(9, 3, ProposeId::new("stop".to_owned()));
    assert_eq!(entry.index, 9);
    assert_eq!(entry.term, 3);
    assert_eq!(entry.entry_data, EntryData::Shutdown(ProposeId::new("stop".to_owned())));
    assert_eq!(entry.id().as_str(), "stop");
}

#[test]
fn conf_change_entry_has_the_id_of_its_change() {
    let change = ConfChangeEntry::from(ProposeConfChangeRequest {
        id: "grow".to_owned(),
        changes: vec![ConfChange::add(7, "address".to_owned())],
    });
    let entry = LogEntry::<TestCommand>::new_conf_change(1, 1, change);
    assert_eq!(entry.id().as_str(), "grow");
    match entry.entry_data {
        EntryData::ConfChange(change) => {
            assert_eq!(change.id().as_str(), "grow");
            assert_eq!(change.changes.len(), 1);
            assert_eq!(change.changes[0].node_id, 7);
        }
        _ => panic!("not a configuration change"),
    }
}

#[test]
fn conf_changes_name_what_they_do() {
    let add = ConfChange::add(1, "address".to_owned());
    assert_eq!(add.change_type, ConfChangeType::Add);
    assert_eq!(add.address, "address");
    let remove = ConfChange::remove(2);
    assert_eq!(remove.change_type, ConfChangeType::Remove);
    assert_eq!(remove.node_id, 2);
    assert_eq!(remove.address, "");
    let update = ConfChange::update(3, "new_addr".to_owned());
    assert_eq!(update.change_type, ConfChangeType::Update);
    assert_eq!(update.clone(), update);
    assert_eq!(update.address, "new_addr");
}

#[test]
fn bincode_errors_become_encode_decode_errors() {
    let err = bincode::deserialize::<bool>(&[2]).unwrap_err();
    assert_eq!(
        CurpError::from(err),
        CurpError::EncodeDecode(
            "invalid u8 while decoding bool, expected 0 or 1, found 2".to_owned()
        ),
    );
    let err = bincode::deserialize::<bool>(&[2]).unwrap_err();
    assert!(matches!(SendAEError::from(err), SendAEError::EncodeDecode(_)));
}

#[test]
fn storage_errors_keep_their_text() {
    let err = CurpError::from(StorageError { message: "disk full".to_owned() });
    assert_eq!(err.message(), "storage error, disk full");
}

#[test]
fn errors_are_shown_with_their_cause() {
    assert_eq!(CurpError::EncodeDecode("x".to_owned()).message(), "encode or decode error");
    assert_eq!(CurpError::Transport("x".to_owned()).message(), "transport error, x");
    assert_eq!(CurpError::IO("x".to_owned()).message(), "io error, x");
    assert_eq!(CurpError::Internal("x".to_owned()).message(), "internal error, x");
    assert_eq!(SendAEError::NotLeader.message(), "self is no longer leader");
    assert_eq!(SendAEError::Rejected.message(), "follower rejected");
    assert_eq!(SendAEError::Transport("x".to_owned()).message(), "transport error, x");
    let err = bincode::deserialize::<bool>(&[2]).unwrap_err();
    assert_eq!(SendAEError::EncodeDecode(err).message(), "encode or decode error");
    assert_eq!(SendSnapshotError::NotLeader.message(), "self is no longer leader");
    assert_eq!(SendSnapshotError::Transport("x".to_owned()).message(), "transport error, x");
}
