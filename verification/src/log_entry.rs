//! Log entries and what they carry.

use std::sync::Arc;

use vstd::prelude::*;

verus! {

/// Identifies a server of the cluster.
pub type ServerId = u64;

/// Position of an entry in the log. Position 0 holds a placeholder.
pub type LogIndex = u64;

/// Identifies a proposal. Its view is the text of the id.
#[derive(Debug, PartialEq, Eq, Hash)]
pub struct ProposeId {
    id: String,
}

impl View for ProposeId {
    type V = Seq<char>;

    closed spec fn view(&self) -> Seq<char> {
        self.id@
    }
}

impl ProposeId {
    /// The proposal id with the given text.
    pub fn new(id: String) -> (res: Self)
        ensures
            res@ == id@,
    {
        ProposeId { id }
    }

    /// The text of the id.
    pub fn as_str(&self) -> (res: &str)
        ensures
            res@ == self@,
    {
        self.id.as_str()
    }
}

impl Clone for ProposeId {
    fn clone(&self) -> (res: Self)
        ensures
            res == *self,
    {
        ProposeId { id: self.id.clone() }
    }
}

/// A command that the cluster replicates. The node's users implement it.
pub trait Command {
    /// The command's proposal id.
    fn id(&self) -> &ProposeId;
}

/// What a configuration change does to its node.
#[derive(Debug, Clone, Copy, PartialEq, Eq, Structural)]
pub enum ConfChangeType {
    /// Add the node as a voter
    Add,
    /// Remove the node
    Remove,
    /// Change the node's address
    Update,
    /// Add the node as a learner
    AddLearner,
}

/// One configuration change.
#[derive(Debug, PartialEq, Eq)]
pub struct ConfChange {
    /// What is done
    pub change_type: ConfChangeType,
    /// The node it is done to
    pub node_id: ServerId,
    /// The node's address, empty where the change needs none
    pub address: String,
}

impl Clone for ConfChange {
    fn clone(&self) -> (res: Self)
        ensures
            res == *self,
    {
        ConfChange {
            change_type: self.change_type,
            node_id: self.node_id,
            address: self.address.clone(),
        }
    }
}

impl ConfChange {
    /// Add a node as a voter.
    pub fn add(node_id: ServerId, address: String) -> (res: Self)
        ensures
            res == (ConfChange { change_type: ConfChangeType::Add, node_id, address }),
    {
        ConfChange { change_type: ConfChangeType::Add, node_id, address }
    }

    /// Remove a node.
    pub fn remove(node_id: ServerId) -> (res: Self)
        ensures
            res.change_type == ConfChangeType::Remove,
            res.node_id == node_id,
            res.address@ == Seq::<char>::empty(),
    {
        ConfChange { change_type: ConfChangeType::Remove, node_id, address: String::new() }
    }

    /// Change a node's address.
    pub fn update(node_id: ServerId, address: String) -> (res: Self)
        ensures
            res == (ConfChange { change_type: ConfChangeType::Update, node_id, address }),
    {
        ConfChange { change_type: ConfChangeType::Update, node_id, address }
    }
}

/// A client's request to change the configuration.
#[derive(Debug, PartialEq, Eq)]
pub struct ProposeConfChangeRequest {
    /// The proposal id, as text
    pub id: String,
    /// The changes, in the order in which they apply
    pub changes: Vec<ConfChange>,
}

/// A configuration change as it stands in the log.
#[derive(Debug, Clone, PartialEq, Eq)]
pub struct ConfChangeEntry {
    /// The proposal id
    pub id: ProposeId,
    /// The changes, in the order in which they apply
    pub changes: Vec<ConfChange>,
}

impl vstd::std_specs::convert::FromSpecImpl<ProposeConfChangeRequest> for ConfChangeEntry {
    open spec fn obeys_from_spec() -> bool {
        true
    }

    closed spec fn from_spec(v: ProposeConfChangeRequest) -> Self {
        ConfChangeEntry { id: ProposeId { id: v.id }, changes: v.changes }
    }
}

impl From<ProposeConfChangeRequest> for ConfChangeEntry {
    fn from(req: ProposeConfChangeRequest) -> (res: Self)
        ensures
            res.id@ == req.id@,
            res.changes == req.changes,
    {
        ConfChangeEntry { id: ProposeId { id: req.id }, changes: req.changes }
    }
}

impl ConfChangeEntry {
    /// The proposal id.
    pub fn id(&self) -> (res: &ProposeId)
        ensures
            *res == self.id,
    {
        &self.id
    }
}

/// What a log entry carries.
#[derive(Debug, Clone, PartialEq, Eq)]
pub enum EntryData<C> {
    /// A command
    Command(Arc<C>),
    /// A configuration change
    ConfChange(ConfChangeEntry),
    /// The shutdown of the cluster
    Shutdown(ProposeId),
}

/// A log entry.
#[derive(Debug, Clone, PartialEq, Eq)]
pub struct LogEntry<C> {
    /// The term in which a leader made the entry
    pub term: u64,
    /// Its position in the log
    pub index: LogIndex,
    /// What it carries
    pub entry_data: EntryData<C>,
}

impl<C> LogEntry<C> where C: Command {
    /// Whether this is the proposal id of the entry: one that its command gives, or that of
    /// whatever else it carries.
    pub open spec fn has_id(&self, id: &ProposeId) -> bool {
        match self.entry_data {
            EntryData::Command(cmd) => call_ensures(C::id, (&*cmd,), id),
            EntryData::ConfChange(entry) => *id == entry.id,
            EntryData::Shutdown(propose_id) => *id == propose_id,
        }
    }

    /// A log entry that carries a command.
    pub fn new_cmd(index: LogIndex, term: u64, cmd: Arc<C>) -> (res: Self)
        ensures
            res == (LogEntry { term, index, entry_data: EntryData::Command(cmd) }),
    {
        LogEntry { term, index, entry_data: EntryData::Command(cmd) }
    }

    /// A log entry that shuts the cluster down.
    pub fn new_shutdown(index: LogIndex, term: u64, propose_id: ProposeId) -> (res: Self)
        ensures
            res == (LogEntry::<C> { term, index, entry_data: EntryData::Shutdown(propose_id) }),
    {
        LogEntry { term, index, entry_data: EntryData::Shutdown(propose_id) }
    }

    /// A log entry that carries a configuration change.
    pub fn new_conf_change(index: LogIndex, term: u64, conf_change: ConfChangeEntry) -> (res: Self)
        ensures
            res == (LogEntry::<C> { term, index, entry_data: EntryData::ConfChange(conf_change) }),
    {
        LogEntry { term, index, entry_data: EntryData::ConfChange(conf_change) }
    }

    /// The proposal id of the entry.
    pub fn id(&self) -> (res: &ProposeId)
        ensures
            self.has_id(res),
            match self.entry_data {
                EntryData::Command(cmd) => call_ensures(C::id, (&*cmd,), res),
                EntryData::ConfChange(entry) => *res == entry.id,
                EntryData::Shutdown(propose_id) => *res == propose_id,
            },
    {
        match &self.entry_data {
            EntryData::Command(cmd) => cmd.id(),
            EntryData::ConfChange(entry) => entry.id(),
            EntryData::Shutdown(id) => id,
        }
    }
}

} // verus!
