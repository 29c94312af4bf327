//! Sending log entries and snapshots to one follower.

use std::sync::Arc;

use vstd::pervasive::unreached;
use vstd::prelude::*;

use crate::cast::usize_to_u64;
use crate::error::{SendAEError, SendSnapshotError};
use crate::log_entry::{LogEntry, LogIndex, ServerId};
use crate::machine::{action_at, after, is_run, lemma_after_step, Machine};
use crate::rpc::{
    AppendEntriesRequest, AppendEntriesResponse, InstallSnapshotResponse, Snapshot, SnapshotMeta,
};

verus! {

/// What the state machine has a leader send to a follower.
#[derive(Debug, PartialEq, Eq)]
pub struct AppendEntries<C> {
    /// The leader's term
    pub term: u64,
    /// The leader
    pub leader_id: ServerId,
    /// Position of the entry before the new ones
    pub prev_log_index: LogIndex,
    /// Term of the entry before the new ones
    pub prev_log_term: u64,
    /// The leader's commit index
    pub leader_commit: LogIndex,
    /// The new entries
    pub entries: Vec<Arc<LogEntry<C>>>,
}

/// What stays of an [`AppendEntries`] without its entries.
#[derive(Debug, Clone, Copy, PartialEq, Eq)]
pub struct AppendHeader {
    /// The leader's term
    pub term: u64,
    /// The leader
    pub leader_id: ServerId,
    /// Position of the entry before the new ones
    pub prev_log_index: LogIndex,
    /// Term of the entry before the new ones
    pub prev_log_term: u64,
    /// The leader's commit index
    pub leader_commit: LogIndex,
}

/// A follower's answer as the state machine takes it in.
#[derive(Debug, Clone, Copy, PartialEq, Eq)]
pub struct AppendReport {
    /// Who answered
    pub follower_id: ServerId,
    /// Position of the last entry that was sent, if any was
    pub last_sent_index: Option<LogIndex>,
    /// The follower's term
    pub term: u64,
    /// Whether the follower took the entries
    pub success: bool,
    /// Where the leader should try next, after a rejection
    pub hint_index: LogIndex,
}

/// What the sending of log entries is doing.
#[derive(Debug, Clone, Copy, PartialEq, Eq)]
pub enum SendPhase {
    /// The entries are being encoded
    Encoding(AppendHeader),
    /// The answer is awaited
    Sending,
    /// The state machine is taking the answer in
    Reporting,
    /// Done
    Finished,
}

/// The sending of log entries to a follower.
#[derive(Debug, Clone, Copy, PartialEq, Eq)]
pub struct SendAppendEntries {
    /// The follower
    pub follower_id: ServerId,
    /// Position of the last entry that is sent, if any is
    pub last_sent_index: Option<LogIndex>,
    /// What is being done
    pub phase: SendPhase,
}

/// How the last action went.
#[derive(Debug)]
pub enum SendEvent {
    /// The entries, each encoded
    Encoded(Result<Vec<Vec<u8>>, bincode::Error>),
    /// The follower's answer
    Responded(Result<AppendEntriesResponse, String>),
    /// What the state machine made of the answer: whether the follower is in step with it,
    /// or that self is no longer leader
    Reported(Result<bool, ()>),
}

/// What to do next.
#[derive(Debug)]
pub enum SendAction {
    /// Send the request
    Send(AppendEntriesRequest),
    /// Have the state machine take the answer in
    Report(AppendReport),
    /// Stop, with this result
    Finish(Result<(), SendAEError>),
}

impl Machine for SendAppendEntries {
    type Event = SendEvent;

    type Action = SendAction;

    open spec fn awaits(self, event: SendEvent) -> bool {
        match self.phase {
            SendPhase::Encoding(_) => event is Encoded,
            SendPhase::Sending => event is Responded,
            SendPhase::Reporting => event is Reported,
            SendPhase::Finished => false,
        }
    }

    open spec fn next(self, event: SendEvent) -> (SendAppendEntries, SendAction) {
        let (phase, action) = match (self.phase, event) {
            (SendPhase::Encoding(header), SendEvent::Encoded(Ok(entries))) =>
                (SendPhase::Sending, SendAction::Send(request_of(header, entries))),
            (_, SendEvent::Responded(Ok(resp))) => (
                SendPhase::Reporting,
                SendAction::Report(
                    AppendReport {
                        follower_id: self.follower_id,
                        last_sent_index: self.last_sent_index,
                        term: resp.term,
                        success: resp.success,
                        hint_index: resp.hint_index,
                    },
                ),
            ),
            (_, SendEvent::Encoded(Ok(_))) => arbitrary(),
            (_, _) => (SendPhase::Finished, SendAction::Finish(result_of(event))),
        };
        (SendAppendEntries { phase, ..self }, action)
    }
}

/// What sending comes to with an event that ends it.
pub open spec fn result_of(event: SendEvent) -> Result<(), SendAEError> {
    match event {
        SendEvent::Encoded(Err(err)) => Err(SendAEError::EncodeDecode(err)),
        SendEvent::Responded(Err(cause)) => Err(SendAEError::Transport(cause)),
        SendEvent::Reported(Err(_)) => Err(SendAEError::NotLeader),
        SendEvent::Reported(Ok(false)) => Err(SendAEError::Rejected),
        _ => Ok(()),
    }
}

/// The request with the given parts.
pub open spec fn request_of(header: AppendHeader, entries: Vec<Vec<u8>>) -> AppendEntriesRequest {
    AppendEntriesRequest {
        term: header.term,
        leader_id: header.leader_id,
        prev_log_index: header.prev_log_index,
        prev_log_term: header.prev_log_term,
        entries,
        leader_commit: header.leader_commit,
    }
}

impl<C> AppendEntries<C> {
    /// Everything but the entries.
    pub open spec fn header(&self) -> AppendHeader {
        AppendHeader {
            term: self.term,
            leader_id: self.leader_id,
            prev_log_index: self.prev_log_index,
            prev_log_term: self.prev_log_term,
            leader_commit: self.leader_commit,
        }
    }

    /// Whether there are no entries, which makes it a heartbeat.
    pub open spec fn is_heartbeat(&self) -> bool {
        self.entries@.len() == 0
    }

    /// Position of the last entry, if there is any.
    pub open spec fn last_index(&self) -> Option<LogIndex> {
        if self.is_heartbeat() {
            None
        } else {
            Some((self.prev_log_index + self.entries@.len()) as u64)
        }
    }

    /// Whether the entries stand in the log one after the other, behind `prev_log_index`.
    pub open spec fn is_consecutive(&self) -> bool {
        forall|i: int|
            0 <= i < self.entries@.len() ==> (#[trigger] self.entries@[i]).index
                == self.prev_log_index + 1 + i
    }
}

impl SendAppendEntries {
    /// Whether this is the sending of `ae` to a follower as it begins.
    pub open spec fn is_initial<C>(self, follower_id: ServerId, ae: AppendEntries<C>) -> bool {
        self == SendAppendEntries {
            follower_id,
            last_sent_index: ae.last_index(),
            phase: SendPhase::Encoding(ae.header()),
        }
    }

    /// Begins to send: the caller encodes the entries that this gives back.
    pub fn start<C>(follower_id: ServerId, ae: AppendEntries<C>) -> (res: (
        Self,
        Vec<Arc<LogEntry<C>>>,
    ))
        requires
            ae.prev_log_index + ae.entries@.len() <= u64::MAX,
        ensures
            res.0.is_initial(follower_id, ae),
            res.1 == ae.entries,
    {
        let last_sent_index = if ae.entries.len() != 0 {
            Some(ae.prev_log_index + usize_to_u64(ae.entries.len()))
        } else {
            None
        };
        let header = AppendHeader {
            term: ae.term,
            leader_id: ae.leader_id,
            prev_log_index: ae.prev_log_index,
            prev_log_term: ae.prev_log_term,
            leader_commit: ae.leader_commit,
        };
        let sending = SendAppendEntries {
            follower_id,
            last_sent_index,
            phase: SendPhase::Encoding(header),
        };
        (sending, ae.entries)
    }

    /// Whether no entries are sent.
    pub fn is_heartbeat(&self) -> (res: bool)
        ensures
            res == (self.last_sent_index is None),
    {
        self.last_sent_index.is_none()
    }

    /// Takes in how the last action went and says what to do next.
    pub fn step(self, event: SendEvent) -> (res: (Self, SendAction))
        requires
            self.awaits(event),
        ensures
            res == self.next(event),
    {
        let (phase, action) = match event {
            SendEvent::Encoded(Ok(entries)) => match self.phase {
                SendPhase::Encoding(header) => (
                    SendPhase::Sending,
                    SendAction::Send(
                        AppendEntriesRequest {
                            term: header.term,
                            leader_id: header.leader_id,
                            prev_log_index: header.prev_log_index,
                            prev_log_term: header.prev_log_term,
                            entries,
                            leader_commit: header.leader_commit,
                        },
                    ),
                ),
                _ => unreached(),
            },
            SendEvent::Encoded(Err(err)) =>
                (SendPhase::Finished, SendAction::Finish(Err(SendAEError::from(err)))),
            SendEvent::Responded(Ok(resp)) => (
                SendPhase::Reporting,
                SendAction::Report(
                    AppendReport {
                        follower_id: self.follower_id,
                        last_sent_index: self.last_sent_index,
                        term: resp.term,
                        success: resp.success,
                        hint_index: resp.hint_index,
                    },
                ),
            ),
            SendEvent::Responded(Err(cause)) =>
                (SendPhase::Finished, SendAction::Finish(Err(SendAEError::Transport(cause)))),
            SendEvent::Reported(Ok(succeeded)) => if succeeded {
                (SendPhase::Finished, SendAction::Finish(Ok(())))
            } else {
                (SendPhase::Finished, SendAction::Finish(Err(SendAEError::Rejected)))
            },
            SendEvent::Reported(Err(_)) =>
                (SendPhase::Finished, SendAction::Finish(Err(SendAEError::NotLeader))),
        };
        (SendAppendEntries { phase, ..self }, action)
    }
}

/// The position that is reported as sent is that of the last entry, for entries that stand
/// in the log one after the other; a heartbeat reports none.
pub proof fn law_last_sent_index<C>(ae: AppendEntries<C>)
    requires
        ae.is_consecutive(),
    ensures
        ae.is_heartbeat() ==> ae.last_index() is None,
        !ae.is_heartbeat() ==> ae.last_index() == Some(ae.entries@.last().index),
{
    if !ae.is_heartbeat() {
        assert(ae.entries@[ae.entries@.len() - 1].index == ae.prev_log_index
            + ae.entries@.len());
    }
}

/// A sending in full: the entries are encoded and sent, the answer is reported to the state
/// machine together with what was sent, and the state machine's word is the result.
pub proof fn law_successful_sending<C>(
    start: SendAppendEntries,
    follower_id: ServerId,
    ae: AppendEntries<C>,
    events: Seq<SendEvent>,
)
    requires
        start.is_initial(follower_id, ae),
        is_run(start, events),
        events.len() == 3,
    ensures
        events[0] matches SendEvent::Encoded(Ok(entries)) && action_at(start, events, 0)
            == SendAction::Send(request_of(ae.header(), entries)),
        events[1] matches SendEvent::Responded(Ok(resp)) && action_at(start, events, 1)
            == SendAction::Report(
            AppendReport {
                follower_id,
                last_sent_index: ae.last_index(),
                term: resp.term,
                success: resp.success,
                hint_index: resp.hint_index,
            },
        ),
        events[2] matches SendEvent::Reported(verdict) && action_at(start, events, 2)
            == SendAction::Finish(
            match verdict {
                Ok(true) => Ok(()),
                Ok(false) => Err(SendAEError::Rejected),
                Err(_) => Err(SendAEError::NotLeader),
            },
        ),
{
    assert(events.take(0) =~= Seq::empty());
    assert(after(start, events.take(0)).awaits(events[0]));
    lemma_after_step(start, events, 0);
    assert(after(start, events.take(1)).awaits(events[1]));
    lemma_after_step(start, events, 1);
    assert(after(start, events.take(2)).awaits(events[2]));
}

/// Sending succeeds only if the state machine took a follower's answer in and found the
/// follower in step; it never succeeds without an answer.
pub proof fn law_success_needs_report<C>(
    start: SendAppendEntries,
    follower_id: ServerId,
    ae: AppendEntries<C>,
    events: Seq<SendEvent>,
    i: int,
)
    requires
        start.is_initial(follower_id, ae),
        is_run(start, events),
        0 <= i < events.len(),
        action_at(start, events, i) == SendAction::Finish(Ok(())),
    ensures
        i == 2,
        events[2] == SendEvent::Reported(Ok(true)),
        events[1] matches SendEvent::Responded(Ok(_)),
{
    assert(events.take(0) =~= Seq::empty());
    assert(after(start, events.take(0)).awaits(events[0]));
    lemma_after_step(start, events, 0);
    if i >= 1 {
        assert(after(start, events.take(1)).awaits(events[1]));
        lemma_after_step(start, events, 1);
    }
    if i >= 2 {
        assert(after(start, events.take(2)).awaits(events[2]));
        lemma_after_step(start, events, 2);
    }
    if i >= 3 {
        assert(after(start, events.take(3)).awaits(events[3]));
    }
}

/// A follower's answer to a snapshot as the state machine takes it in.
#[derive(Debug, Clone, Copy, PartialEq, Eq)]
pub struct SnapshotReport {
    /// Who answered
    pub follower_id: ServerId,
    /// What the snapshot covered
    pub meta: SnapshotMeta,
    /// The follower's term
    pub term: u64,
}

/// What the state machine is told of a follower's answer to a snapshot, or why it is told
/// nothing.
pub fn snapshot_report(
    follower_id: ServerId,
    meta: SnapshotMeta,
    resp: Result<InstallSnapshotResponse, String>,
) -> (res: Result<SnapshotReport, SendSnapshotError>)
    ensures
        res == match resp {
            Ok(resp) => Ok::<SnapshotReport, SendSnapshotError>(
                SnapshotReport { follower_id, meta, term: resp.term },
            ),
            Err(cause) => Err(SendSnapshotError::Transport(cause)),
        },
{
    match resp {
        Ok(resp) => Ok(SnapshotReport { follower_id, meta, term: resp.term }),
        Err(cause) => Err(SendSnapshotError::Transport(cause)),
    }
}

/// What sending a snapshot comes to once the state machine has taken the answer in.
pub fn snapshot_result(reported: Result<(), ()>) -> (res: Result<(), SendSnapshotError>)
    ensures
        res == match reported {
            Ok(_) => Ok::<(), SendSnapshotError>(()),
            Err(_) => Err(SendSnapshotError::NotLeader),
        },
{
    match reported {
        Ok(_) => Ok(()),
        Err(_) => Err(SendSnapshotError::NotLeader),
    }
}

/// A snapshot on its way to a follower.
#[derive(Debug, PartialEq, Eq)]
pub struct SnapshotSending<D> {
    /// The leader's term
    pub term: u64,
    /// The leader
    pub leader_id: ServerId,
    /// The snapshot
    pub snapshot: Snapshot<D>,
}

/// What the sending of a snapshot is doing.
#[derive(Debug, Clone, Copy, PartialEq, Eq)]
pub enum SnapshotPhase {
    /// The answer is awaited
    Sending,
    /// The state machine is taking the answer in
    Reporting,
    /// Done
    Finished,
}

/// The sending of a snapshot to a follower.
#[derive(Debug, Clone, Copy, PartialEq, Eq)]
pub struct SendSnapshot {
    /// The follower
    pub follower_id: ServerId,
    /// What the snapshot covers
    pub meta: SnapshotMeta,
    /// What is being done
    pub phase: SnapshotPhase,
}

/// How the last action went.
#[derive(Debug, PartialEq, Eq)]
pub enum SendSnapshotEvent {
    /// The follower's answer
    Responded(Result<InstallSnapshotResponse, String>),
    /// Whether the state machine took the answer in; if not, self is no longer leader
    Reported(Result<(), ()>),
}

/// What to do next.
#[derive(Debug, PartialEq, Eq)]
pub enum SendSnapshotAction {
    /// Have the state machine take the answer in
    Report(SnapshotReport),
    /// Stop, with this result
    Finish(Result<(), SendSnapshotError>),
}

impl Machine for SendSnapshot {
    type Event = SendSnapshotEvent;

    type Action = SendSnapshotAction;

    open spec fn awaits(self, event: SendSnapshotEvent) -> bool {
        match self.phase {
            SnapshotPhase::Sending => event is Responded,
            SnapshotPhase::Reporting => event is Reported,
            SnapshotPhase::Finished => false,
        }
    }

    open spec fn next(self, event: SendSnapshotEvent) -> (SendSnapshot, SendSnapshotAction) {
        let (phase, action) = match event {
            SendSnapshotEvent::Responded(Ok(resp)) => (
                SnapshotPhase::Reporting,
                SendSnapshotAction::Report(
                    SnapshotReport {
                        follower_id: self.follower_id,
                        meta: self.meta,
                        term: resp.term,
                    },
                ),
            ),
            _ => (
                SnapshotPhase::Finished,
                SendSnapshotAction::Finish(snapshot_result_of(event)),
            ),
        };
        (SendSnapshot { phase, ..self }, action)
    }
}

/// What sending a snapshot comes to with an event that ends it.
pub open spec fn snapshot_result_of(event: SendSnapshotEvent) -> Result<(), SendSnapshotError> {
    match event {
        SendSnapshotEvent::Responded(Err(cause)) => Err(SendSnapshotError::Transport(cause)),
        SendSnapshotEvent::Reported(Err(_)) => Err(SendSnapshotError::NotLeader),
        _ => Ok(()),
    }
}

impl SendSnapshot {
    /// Whether this is the sending of a snapshot to a follower as it begins.
    pub open spec fn is_initial<D>(self, follower_id: ServerId, snapshot: Snapshot<D>) -> bool {
        self == SendSnapshot { follower_id, meta: snapshot.meta, phase: SnapshotPhase::Sending }
    }

    /// Begins to send, on behalf of the leader in its term: the caller sends what this gives
    /// back.
    pub fn start<D>(
        follower_id: ServerId,
        term: u64,
        leader_id: ServerId,
        snapshot: Snapshot<D>,
    ) -> (res: (Self, SnapshotSending<D>))
        ensures
            res.0.is_initial(follower_id, snapshot),
            res.1 == (SnapshotSending { term, leader_id, snapshot }),
    {
        let sending = SendSnapshot {
            follower_id,
            meta: snapshot.meta,
            phase: SnapshotPhase::Sending,
        };
        (sending, SnapshotSending { term, leader_id, snapshot })
    }

    /// Takes in how the last action went and says what to do next.
    pub fn step(self, event: SendSnapshotEvent) -> (res: (Self, SendSnapshotAction))
        requires
            self.awaits(event),
        ensures
            res == self.next(event),
    {
        let (phase, action) = match event {
            SendSnapshotEvent::Responded(resp) => match snapshot_report(
                self.follower_id,
                self.meta,
                resp,
            ) {
                Ok(report) => (SnapshotPhase::Reporting, SendSnapshotAction::Report(report)),
                Err(err) => (SnapshotPhase::Finished, SendSnapshotAction::Finish(Err(err))),
            },
            SendSnapshotEvent::Reported(reported) =>
                (SnapshotPhase::Finished, SendSnapshotAction::Finish(snapshot_result(reported))),
        };
        (SendSnapshot { phase, ..self }, action)
    }
}

/// What is reported of a snapshot is what was sent: the follower it went to, what it covers,
/// and the term that the follower answered with. Sending succeeds only if the state machine
/// took that report in.
pub proof fn law_snapshot_report_is_of_what_was_sent<D>(
    start: SendSnapshot,
    follower_id: ServerId,
    snapshot: Snapshot<D>,
    events: Seq<SendSnapshotEvent>,
    i: int,
)
    requires
        start.is_initial(follower_id, snapshot),
        is_run(start, events),
        0 <= i < events.len(),
    ensures
        i <= 1,
        action_at(start, events, i) matches SendSnapshotAction::Report(report) ==> {
            &&& i == 0
            &&& events[0] matches SendSnapshotEvent::Responded(Ok(resp))
            &&& report == (SnapshotReport { follower_id, meta: snapshot.meta, term: resp.term })
        },
        action_at(start, events, i) == SendSnapshotAction::Finish(Ok(())) ==> {
            &&& i == 1
            &&& events[0] matches SendSnapshotEvent::Responded(Ok(_))
            &&& events[1] matches SendSnapshotEvent::Reported(Ok(_))
        },
{
    assert(events.take(0) =~= Seq::empty());
    assert(after(start, events.take(0)).awaits(events[0]));
    lemma_after_step(start, events, 0);
    if i >= 1 {
        assert(after(start, events.take(1)).awaits(events[1]));
        lemma_after_step(start, events, 1);
    }
    if i >= 2 {
        assert(after(start, events.take(2)).awaits(events[2]));
    }
}

/// Whatever is to be sent is sent: entries that could be encoded, none included, go out in a
/// request that says what the state machine said. The follower's answer is reported with the
/// position of the last entry that was sent, or with none for a heartbeat.
pub proof fn law_encoded_entries_are_sent<C>(
    start: SendAppendEntries,
    follower_id: ServerId,
    ae: AppendEntries<C>,
    events: Seq<SendEvent>,
    entries: Vec<Vec<u8>>,
)
    requires
        start.is_initial(follower_id, ae),
        is_run(start, events),
        events.len() > 0,
        events[0] == SendEvent::Encoded(Ok(entries)),
    ensures
        start.last_sent_index is None <==> ae.entries@.len() == 0,
        action_at(start, events, 0) == SendAction::Send(
            AppendEntriesRequest {
                term: ae.term,
                leader_id: ae.leader_id,
                prev_log_index: ae.prev_log_index,
                prev_log_term: ae.prev_log_term,
                entries,
                leader_commit: ae.leader_commit,
            },
        ),
        events.len() > 1 ==> events[1] is Responded,
        events.len() > 1 ==> (events[1] matches SendEvent::Responded(Ok(resp)) ==> action_at(
            start,
            events,
            1,
        ) == SendAction::Report(
            AppendReport {
                follower_id,
                last_sent_index: if ae.entries@.len() == 0 {
                    None
                } else {
                    Some((ae.prev_log_index + ae.entries@.len()) as u64)
                },
                term: resp.term,
                success: resp.success,
                hint_index: resp.hint_index,
            },
        )),
{
    assert(events.take(0) =~= Seq::empty());
    assert(after(start, events.take(0)).awaits(events[0]));
    lemma_after_step(start, events, 0);
    if events.len() > 1 {
        assert(after(start, events.take(1)).awaits(events[1]));
    }
}

/// A sending ends exactly with what could not be encoded, could not be sent, or was judged by
/// the state machine, and its result says which. It is found rejected only upon the state
/// machine's word, after a follower's answer was taken in.
pub proof fn law_sending_results<C>(
    start: SendAppendEntries,
    follower_id: ServerId,
    ae: AppendEntries<C>,
    events: Seq<SendEvent>,
    i: int,
)
    requires
        start.is_initial(follower_id, ae),
        is_run(start, events),
        0 <= i < events.len(),
    ensures
        i <= 2,
        match events[i] {
            SendEvent::Encoded(Err(err)) => i == 0 && action_at(start, events, i)
                == SendAction::Finish(Err(SendAEError::EncodeDecode(err))),
            SendEvent::Responded(Err(cause)) => i == 1 && action_at(start, events, i)
                == SendAction::Finish(Err(SendAEError::Transport(cause))),
            SendEvent::Reported(Ok(true)) => i == 2 && action_at(start, events, i)
                == SendAction::Finish(Ok(())),
            SendEvent::Reported(Ok(false)) => i == 2 && action_at(start, events, i)
                == SendAction::Finish(Err(SendAEError::Rejected)),
            SendEvent::Reported(Err(_)) => i == 2 && action_at(start, events, i)
                == SendAction::Finish(Err(SendAEError::NotLeader)),
            SendEvent::Encoded(Ok(_)) => i == 0 && action_at(start, events, i) is Send,
            SendEvent::Responded(Ok(_)) => i == 1 && action_at(start, events, i) is Report,
        },
        action_at(start, events, i) == SendAction::Finish(Err(SendAEError::Rejected)) ==> {
            &&& events[1] matches SendEvent::Responded(Ok(_))
            &&& events[i] == SendEvent::Reported(Ok(false))
        },
{
    assert(events.take(0) =~= Seq::empty());
    assert(after(start, events.take(0)).awaits(events[0]));
    lemma_after_step(start, events, 0);
    if i >= 1 {
        assert(after(start, events.take(1)).awaits(events[1]));
        lemma_after_step(start, events, 1);
    }
    if i >= 2 {
        assert(after(start, events.take(2)).awaits(events[2]));
        lemma_after_step(start, events, 2);
    }
    if i >= 3 {
        assert(after(start, events.take(3)).awaits(events[3]));
    }
}

/// Every action is answered by how it went and by nothing else, a result by nothing at all.
/// The sending begins with the encoding.
pub proof fn law_each_send_action_is_answered<C>(
    start: SendAppendEntries,
    follower_id: ServerId,
    ae: AppendEntries<C>,
    events: Seq<SendEvent>,
    event: SendEvent,
)
    requires
        start.is_initial(follower_id, ae),
        is_run(start, events),
    ensures
        events.len() == 0 ==> (after(start, events).awaits(event) <==> event is Encoded),
        events.len() > 0 ==> (after(start, events).awaits(event) <==> match action_at(
            start,
            events,
            events.len() - 1,
        ) {
            SendAction::Send(_) => event is Responded,
            SendAction::Report(_) => event is Reported,
            SendAction::Finish(_) => false,
        }),
{
    if events.len() > 0 {
        let n = events.len() - 1;
        assert(events.take(n) =~= events.drop_last());
        assert(after(start, events.take(n)).awaits(events[n]));
    }
}

/// A follower's answer to a snapshot is always reported, and the state machine's word on it is
/// the result. Without an answer the result is the transport error.
pub proof fn law_snapshot_sending_results<D>(
    start: SendSnapshot,
    follower_id: ServerId,
    snapshot: Snapshot<D>,
    events: Seq<SendSnapshotEvent>,
    i: int,
)
    requires
        start.is_initial(follower_id, snapshot),
        is_run(start, events),
        0 <= i < events.len(),
    ensures
        match events[i] {
            SendSnapshotEvent::Responded(Ok(resp)) => i == 0 && action_at(start, events, i)
                == SendSnapshotAction::Report(
                SnapshotReport { follower_id, meta: snapshot.meta, term: resp.term },
            ),
            SendSnapshotEvent::Responded(Err(cause)) => i == 0 && action_at(start, events, i)
                == SendSnapshotAction::Finish(Err(SendSnapshotError::Transport(cause))),
            SendSnapshotEvent::Reported(Ok(_)) => i == 1 && action_at(start, events, i)
                == SendSnapshotAction::Finish(Ok(())),
            SendSnapshotEvent::Reported(Err(_)) => i == 1 && action_at(start, events, i)
                == SendSnapshotAction::Finish(Err(SendSnapshotError::NotLeader)),
        },
{
    law_snapshot_report_is_of_what_was_sent(start, follower_id, snapshot, events, i);
    assert(events.take(0) =~= Seq::empty());
    assert(after(start, events.take(0)).awaits(events[0]));
    lemma_after_step(start, events, 0);
    assert(after(start, events.take(i)).awaits(events[i]));
}

/// Every action is answered by how it went and by nothing else, a result by nothing at all.
/// The sending begins with the wait for the follower's answer.
pub proof fn law_each_snapshot_action_is_answered<D>(
    start: SendSnapshot,
    follower_id: ServerId,
    snapshot: Snapshot<D>,
    events: Seq<SendSnapshotEvent>,
    event: SendSnapshotEvent,
)
    requires
        start.is_initial(follower_id, snapshot),
        is_run(start, events),
    ensures
        events.len() == 0 ==> (after(start, events).awaits(event) <==> event is Responded),
        events.len() > 0 ==> (after(start, events).awaits(event) <==> match action_at(
            start,
            events,
            events.len() - 1,
        ) {
            SendSnapshotAction::Report(_) => event is Reported,
            SendSnapshotAction::Finish(_) => false,
        }),
{
    if events.len() > 0 {
        let n = events.len() - 1;
        assert(events.take(n) =~= events.drop_last());
        assert(after(start, events.take(n)).awaits(events[n]));
    }
}

} // verus!
