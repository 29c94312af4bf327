//! Errors of the node.

use vstd::prelude::*;

verus! {

/// bincode's error kind; its errors are boxed kinds.
#[verifier::external_type_specification]
#[verifier::external_body]
pub struct ExErrorKind(bincode::ErrorKind);

/// An error of the storage, by its text.
#[derive(Debug, PartialEq, Eq)]
pub struct StorageError {
    /// What went wrong
    pub message: String,
}

/// What a request handler fails with.
#[derive(Debug, PartialEq, Eq)]
pub enum CurpError {
    /// Encode or decode error
    EncodeDecode(String),
    /// Storage error
    Storage(StorageError),
    /// Transport error
    Transport(String),
    /// Io error, by its text
    IO(String),
    /// Internal error
    Internal(String),
}

impl CurpError {
    /// The text that is shown for the error.
    pub open spec fn text(&self) -> Seq<char> {
        match *self {
            CurpError::EncodeDecode(_) => "encode or decode error"@,
            CurpError::Storage(err) => "storage error, "@ + err.message@,
            CurpError::Transport(text) => "transport error, "@ + text@,
            CurpError::IO(text) => "io error, "@ + text@,
            CurpError::Internal(text) => "internal error, "@ + text@,
        }
    }

    /// The text that is shown for the error.
    pub fn message(&self) -> (res: String)
        ensures
            res@ == self.text(),
            res@ == match *self {
                CurpError::EncodeDecode(_) => "encode or decode error"@,
                CurpError::Storage(err) => "storage error, "@ + err.message@,
                CurpError::Transport(text) => "transport error, "@ + text@,
                CurpError::IO(text) => "io error, "@ + text@,
                CurpError::Internal(text) => "internal error, "@ + text@,
            },
    {
        match self {
            CurpError::EncodeDecode(_) => "encode or decode error".to_owned(),
            CurpError::Storage(err) => concat("storage error, ", err.message.as_str()),
            CurpError::Transport(text) => concat("transport error, ", text.as_str()),
            CurpError::IO(text) => concat("io error, ", text.as_str()),
            CurpError::Internal(text) => concat("internal error, ", text.as_str()),
        }
    }
}

impl vstd::std_specs::convert::FromSpecImpl<bincode::Error> for CurpError {
    open spec fn obeys_from_spec() -> bool {
        false
    }

    open spec fn from_spec(v: bincode::Error) -> Self {
        arbitrary()
    }
}

impl From<bincode::Error> for CurpError {
    fn from(err: bincode::Error) -> (res: Self)
        ensures
            res matches CurpError::EncodeDecode(text)
                && vstd::string::to_string_from_display_ensures::<bincode::Error>(&err, text),
    {
        CurpError::EncodeDecode(err.to_string())
    }
}

impl vstd::std_specs::convert::FromSpecImpl<StorageError> for CurpError {
    open spec fn obeys_from_spec() -> bool {
        true
    }

    open spec fn from_spec(v: StorageError) -> Self {
        CurpError::Storage(v)
    }
}

impl From<StorageError> for CurpError {
    fn from(err: StorageError) -> (res: Self)
        ensures
            res == CurpError::Storage(err),
    {
        CurpError::Storage(err)
    }
}

/// One text after the other.
pub(crate) fn concat(head: &str, tail: &str) -> (res: String)
    ensures
        res@ == head@ + tail@,
{
    let mut res = head.to_owned();
    res.append(tail);
    res
}

/// Why sending `append_entries` failed.
#[derive(Debug)]
pub enum SendAEError {
    /// When self is no longer leader
    NotLeader,
    /// When the follower rejects
    Rejected,
    /// Transport error, by its text
    Transport(String),
    /// Encode or decode error
    EncodeDecode(bincode::Error),
}

impl SendAEError {
    /// The text that is shown for the error.
    pub fn message(&self) -> (res: String)
        ensures
            res@ == match *self {
                SendAEError::NotLeader => "self is no longer leader"@,
                SendAEError::Rejected => "follower rejected"@,
                SendAEError::Transport(text) => "transport error, "@ + text@,
                SendAEError::EncodeDecode(_) => "encode or decode error"@,
            },
    {
        match self {
            SendAEError::NotLeader => "self is no longer leader".to_owned(),
            SendAEError::Rejected => "follower rejected".to_owned(),
            SendAEError::Transport(text) => concat("transport error, ", text.as_str()),
            SendAEError::EncodeDecode(_) => "encode or decode error".to_owned(),
        }
    }
}

impl vstd::std_specs::convert::FromSpecImpl<bincode::Error> for SendAEError {
    open spec fn obeys_from_spec() -> bool {
        true
    }

    open spec fn from_spec(v: bincode::Error) -> Self {
        SendAEError::EncodeDecode(v)
    }
}

impl From<bincode::Error> for SendAEError {
    fn from(err: bincode::Error) -> (res: Self)
        ensures
            res == SendAEError::EncodeDecode(err),
    {
        SendAEError::EncodeDecode(err)
    }
}

/// Why sending a snapshot failed.
#[derive(Debug, PartialEq, Eq)]
pub enum SendSnapshotError {
    /// When self is no longer leader
    NotLeader,
    /// Transport error, by its text
    Transport(String),
}

impl SendSnapshotError {
    /// The text that is shown for the error.
    pub fn message(&self) -> (res: String)
        ensures
            res@ == match *self {
                SendSnapshotError::NotLeader => "self is no longer leader"@,
                SendSnapshotError::Transport(text) => "transport error, "@ + text@,
            },
    {
        match self {
            SendSnapshotError::NotLeader => "self is no longer leader".to_owned(),
            SendSnapshotError::Transport(text) => concat("transport error, ", text.as_str()),
        }
    }
}

} // verus!
