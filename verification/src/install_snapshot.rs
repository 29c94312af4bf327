//! Receiving a snapshot from the leader.
//!
//! [`InstallSnapshot`] decides what to do next while a snapshot streams in.

use vstd::prelude::*;

use crate::cast::usize_to_u64;
use crate::error::{concat, CurpError};
use crate::log_entry::{LogIndex, ServerId};
use crate::machine::{action_at, after, is_run, lemma_after_step, lemma_run_prefix, Machine};
use crate::rpc::{InstallSnapshotRequest, InstallSnapshotResponse, SnapshotMeta};

verus! {

/// What the node's state machine is asked before it takes a piece of a snapshot.
#[derive(Debug, Clone, Copy, PartialEq, Eq)]
pub struct SnapshotOffer {
    /// The leader's term
    pub term: u64,
    /// The leader
    pub leader_id: ServerId,
    /// Position of the last entry in the snapshot
    pub last_included_index: LogIndex,
    /// Term of the last entry in the snapshot
    pub last_included_term: u64,
}

/// What is left to know of a piece once its bytes are on their way to the disk.
#[derive(Debug, Clone, Copy, PartialEq, Eq)]
pub struct PieceTail {
    /// What the snapshot covers
    pub meta: SnapshotMeta,
    /// Where in the snapshot the piece started
    pub offset: u64,
    /// How many bytes the piece had
    pub data_len: u64,
    /// Whether it was the last piece
    pub done: bool,
}

/// Why a snapshot was not installed.
#[derive(Debug, PartialEq, Eq)]
pub enum SnapshotFailure {
    /// No room for a new snapshot
    Allocate,
    /// The stream broke
    Stream(String),
    /// The stream ended before the last piece
    Incomplete,
    /// A piece could not be written
    Write(String),
    /// The command executor could not be reset
    Reset(String),
}

/// How the receipt of a snapshot stands.
#[derive(Debug, PartialEq, Eq)]
pub enum InstallSnapshot {
    /// A new snapshot is being allocated
    Allocating,
    /// The next piece is awaited
    Receiving,
    /// A piece is held until the state machine has judged it
    Verifying(InstallSnapshotRequest),
    /// A piece is being written
    Writing(PieceTail),
    /// The command executor is being reset to the snapshot
    Resetting,
    /// The term for the answer is being read
    Replying,
    /// Answered or failed
    Finished,
}

/// How the last action went.
#[derive(Debug, PartialEq, Eq)]
pub enum SnapshotEvent {
    /// Whether the new snapshot was allocated
    Allocated(bool),
    /// What the stream gave: a piece, an error, or its end
    Item(Option<Result<InstallSnapshotRequest, String>>),
    /// Whether the state machine takes pieces of this snapshot
    Verified(bool),
    /// Whether the piece was written
    Written(Result<(), String>),
    /// Whether the command executor was reset
    ResetSent(Result<(), String>),
    /// The node's current term
    Term(u64),
}

/// What to do next.
#[derive(Debug, PartialEq, Eq)]
pub enum SnapshotAction {
    /// Take the next item off the stream
    NextItem,
    /// Ask the state machine
    Verify(SnapshotOffer),
    /// Append the bytes to the snapshot
    Write(Vec<u8>),
    /// Reset the command executor to the snapshot. The snapshot is whole if its size is
    /// `expected_size`; no size is expected if that exceeds 64 bits.
    SendReset {
        /// What the snapshot covers
        meta: SnapshotMeta,
        /// Where the last piece ended
        expected_size: Option<u64>,
    },
    /// Read the node's current term
    ReadTerm,
    /// Give this answer
    Reply(InstallSnapshotResponse),
    /// Fail
    Fail(SnapshotFailure),
}

/// What the state machine is asked about a piece.
pub open spec fn offer_of(req: InstallSnapshotRequest) -> SnapshotOffer {
    SnapshotOffer {
        term: req.term,
        leader_id: req.leader_id,
        last_included_index: req.last_included_index,
        last_included_term: req.last_included_term,
    }
}

/// What the snapshot of a piece covers.
pub open spec fn meta_of(req: InstallSnapshotRequest) -> SnapshotMeta {
    SnapshotMeta {
        last_included_index: req.last_included_index,
        last_included_term: req.last_included_term,
    }
}

/// What is left of a piece without its bytes.
pub open spec fn tail_of(req: InstallSnapshotRequest) -> PieceTail {
    PieceTail {
        meta: meta_of(req),
        offset: req.offset,
        data_len: req.data@.len() as u64,
        done: req.done,
    }
}

/// Where a piece ends, if 64 bits can tell.
pub open spec fn end_of(tail: PieceTail) -> Option<u64> {
    if tail.offset + tail.data_len <= u64::MAX {
        Some((tail.offset + tail.data_len) as u64)
    } else {
        None
    }
}

impl SnapshotFailure {
    /// The error that the handler fails with.
    pub fn into_error(self) -> (res: CurpError)
        ensures
            match (self, res) {
                (SnapshotFailure::Allocate, CurpError::Internal(text)) =>
                    text@ == "failed to allocate a new snapshot"@,
                (SnapshotFailure::Stream(cause), CurpError::Transport(text)) => text == cause,
                (SnapshotFailure::Incomplete, CurpError::Transport(text)) =>
                    text@ == "failed to receive a complete snapshot"@,
                (SnapshotFailure::Write(cause), CurpError::IO(text)) => text == cause,
                (SnapshotFailure::Reset(cause), CurpError::Internal(text)) =>
                    text@ == "failed to reset the command executor by snapshot, "@ + cause@,
                _ => false,
            },
    {
        match self {
            SnapshotFailure::Allocate =>
                CurpError::Internal("failed to allocate a new snapshot".to_owned()),
            SnapshotFailure::Stream(cause) => CurpError::Transport(cause),
            SnapshotFailure::Incomplete =>
                CurpError::Transport("failed to receive a complete snapshot".to_owned()),
            SnapshotFailure::Write(cause) => CurpError::IO(cause),
            SnapshotFailure::Reset(cause) => CurpError::Internal(
                concat("failed to reset the command executor by snapshot, ", cause.as_str()),
            ),
        }
    }
}

impl Machine for InstallSnapshot {
    type Event = SnapshotEvent;

    type Action = SnapshotAction;

    open spec fn awaits(self, event: SnapshotEvent) -> bool {
        match self {
            InstallSnapshot::Allocating => event is Allocated,
            InstallSnapshot::Receiving => event is Item,
            InstallSnapshot::Verifying(_) => event is Verified,
            InstallSnapshot::Writing(_) => event is Written,
            InstallSnapshot::Resetting => event is ResetSent,
            InstallSnapshot::Replying => event is Term,
            InstallSnapshot::Finished => false,
        }
    }

    open spec fn next(self, event: SnapshotEvent) -> (InstallSnapshot, SnapshotAction) {
        match (self, event) {
            (_, SnapshotEvent::Allocated(true)) =>
                (InstallSnapshot::Receiving, SnapshotAction::NextItem),
            (_, SnapshotEvent::Allocated(false)) => failed(SnapshotFailure::Allocate),
            (_, SnapshotEvent::Item(None)) => failed(SnapshotFailure::Incomplete),
            (_, SnapshotEvent::Item(Some(Err(cause)))) => failed(SnapshotFailure::Stream(cause)),
            (_, SnapshotEvent::Item(Some(Ok(req)))) =>
                (InstallSnapshot::Verifying(req), SnapshotAction::Verify(offer_of(req))),
            (InstallSnapshot::Verifying(req), SnapshotEvent::Verified(true)) =>
                (InstallSnapshot::Writing(tail_of(req)), SnapshotAction::Write(req.data)),
            (_, SnapshotEvent::Verified(_)) =>
                (InstallSnapshot::Replying, SnapshotAction::ReadTerm),
            (_, SnapshotEvent::Written(Err(cause))) => failed(SnapshotFailure::Write(cause)),
            (InstallSnapshot::Writing(tail), SnapshotEvent::Written(Ok(_))) if tail.done => (
                InstallSnapshot::Resetting,
                SnapshotAction::SendReset { meta: tail.meta, expected_size: end_of(tail) },
            ),
            (_, SnapshotEvent::Written(Ok(_))) =>
                (InstallSnapshot::Receiving, SnapshotAction::NextItem),
            (_, SnapshotEvent::ResetSent(Err(cause))) => failed(SnapshotFailure::Reset(cause)),
            (_, SnapshotEvent::ResetSent(Ok(_))) =>
                (InstallSnapshot::Replying, SnapshotAction::ReadTerm),
            (_, SnapshotEvent::Term(term)) =>
                (InstallSnapshot::Finished, SnapshotAction::Reply(InstallSnapshotResponse { term })),
        }
    }
}

/// The receipt is over, with a failure.
pub open spec fn failed(failure: SnapshotFailure) -> (InstallSnapshot, SnapshotAction) {
    (InstallSnapshot::Finished, SnapshotAction::Fail(failure))
}

impl InstallSnapshot {
    /// A receipt that begins: the caller allocates a new snapshot.
    pub fn start() -> (res: Self)
        ensures
            res == InstallSnapshot::Allocating,
    {
        InstallSnapshot::Allocating
    }

    /// Takes in how the last action went and says what to do next.
    pub fn step(self, event: SnapshotEvent) -> (res: (Self, SnapshotAction))
        requires
            self.awaits(event),
        ensures
            res == self.next(event),
    {
        match event {
            SnapshotEvent::Allocated(allocated) => if allocated {
                (InstallSnapshot::Receiving, SnapshotAction::NextItem)
            } else {
                (InstallSnapshot::Finished, SnapshotAction::Fail(SnapshotFailure::Allocate))
            },
            SnapshotEvent::Item(item) => Self::on_item(item),
            SnapshotEvent::Verified(valid) => self.on_verified(valid),
            SnapshotEvent::Written(written) => self.on_written(written),
            SnapshotEvent::ResetSent(sent) => match sent {
                Ok(_) => (InstallSnapshot::Replying, SnapshotAction::ReadTerm),
                Err(cause) =>
                    (InstallSnapshot::Finished, SnapshotAction::Fail(SnapshotFailure::Reset(cause))),
            },
            SnapshotEvent::Term(term) => (
                InstallSnapshot::Finished,
                SnapshotAction::Reply(InstallSnapshotResponse::new(term)),
            ),
        }
    }

    fn on_item(item: Option<Result<InstallSnapshotRequest, String>>) -> (res: (
        Self,
        SnapshotAction,
    ))
        ensures
            res == InstallSnapshot::Receiving.next(SnapshotEvent::Item(item)),
    {
        match item {
            None => (InstallSnapshot::Finished, SnapshotAction::Fail(SnapshotFailure::Incomplete)),
            Some(Err(cause)) =>
                (InstallSnapshot::Finished, SnapshotAction::Fail(SnapshotFailure::Stream(cause))),
            Some(Ok(req)) => {
                let offer = SnapshotOffer {
                    term: req.term,
                    leader_id: req.leader_id,
                    last_included_index: req.last_included_index,
                    last_included_term: req.last_included_term,
                };
                (InstallSnapshot::Verifying(req), SnapshotAction::Verify(offer))
            },
        }
    }

    fn on_verified(self, valid: bool) -> (res: (Self, SnapshotAction))
        requires
            self is Verifying,
        ensures
            res == self.next(SnapshotEvent::Verified(valid)),
    {
        match self {
            InstallSnapshot::Verifying(req) if valid => {
                let tail = PieceTail {
                    meta: SnapshotMeta {
                        last_included_index: req.last_included_index,
                        last_included_term: req.last_included_term,
                    },
                    offset: req.offset,
                    data_len: usize_to_u64(req.data.len()),
                    done: req.done,
                };
                (InstallSnapshot::Writing(tail), SnapshotAction::Write(req.data))
            },
            _ => (InstallSnapshot::Replying, SnapshotAction::ReadTerm),
        }
    }

    fn on_written(self, written: Result<(), String>) -> (res: (Self, SnapshotAction))
        requires
            self is Writing,
        ensures
            res == self.next(SnapshotEvent::Written(written)),
    {
        match (self, written) {
            (_, Err(cause)) =>
                (InstallSnapshot::Finished, SnapshotAction::Fail(SnapshotFailure::Write(cause))),
            (InstallSnapshot::Writing(tail), Ok(_)) if tail.done => (
                InstallSnapshot::Resetting,
                SnapshotAction::SendReset {
                    meta: tail.meta,
                    expected_size: tail.offset.checked_add(tail.data_len),
                },
            ),
            (_, Ok(_)) => (InstallSnapshot::Receiving, SnapshotAction::NextItem),
        }
    }
}

/// The bytes of the pieces that the state machine accepted, in the order of the stream.
pub open spec fn accepted_bytes(events: Seq<SnapshotEvent>) -> Seq<u8>
    decreases events.len(),
{
    if events.len() < 2 {
        Seq::empty()
    } else {
        let before = accepted_bytes(events.drop_last());
        match events.last() {
            SnapshotEvent::Verified(true) => match events[events.len() - 2] {
                SnapshotEvent::Item(Some(Ok(req))) => before + req.data@,
                _ => before,
            },
            _ => before,
        }
    }
}

/// The bytes that a run appends to the snapshot.
pub open spec fn written_bytes(events: Seq<SnapshotEvent>) -> Seq<u8>
    decreases events.len(),
{
    if events.len() == 0 {
        Seq::empty()
    } else {
        let before = written_bytes(events.drop_last());
        match action_at(InstallSnapshot::Allocating, events, events.len() - 1) {
            SnapshotAction::Write(data) => before + data@,
            _ => before,
        }
    }
}

/// Whether each piece starts where the accepted ones before it end.
pub open spec fn is_contiguous(events: Seq<SnapshotEvent>) -> bool {
    forall|i: int|
        0 <= i < events.len() ==> (#[trigger] events[i] matches SnapshotEvent::Item(Some(Ok(req)))
            ==> req.offset == accepted_bytes(events.take(i)).len())
}

/// Which events led to the state that a run is in.
proof fn lemma_origin(events: Seq<SnapshotEvent>)
    requires
        is_run(InstallSnapshot::Allocating, events),
    ensures
        match after(InstallSnapshot::Allocating, events) {
            InstallSnapshot::Allocating => events.len() == 0,
            InstallSnapshot::Receiving => events.len() >= 1,
            InstallSnapshot::Verifying(req) => events.len() >= 1 && events.last()
                == SnapshotEvent::Item(Some(Ok(req))),
            InstallSnapshot::Writing(tail) => {
                &&& events.len() >= 2
                &&& events.last() == SnapshotEvent::Verified(true)
                &&& events[events.len() - 2] matches SnapshotEvent::Item(Some(Ok(req)))
                &&& tail == tail_of(req)
            },
            InstallSnapshot::Resetting => events.len() >= 3 && events.last() is Written,
            InstallSnapshot::Replying => {
                &&& events.len() >= 2
                &&& events.last() == SnapshotEvent::Verified(false) || (events.last() matches
                    SnapshotEvent::ResetSent(Ok(_)))
            },
            InstallSnapshot::Finished => events.len() >= 1,
        },
    decreases events.len(),
{
    if events.len() > 0 {
        let n = events.len() - 1;
        lemma_run_prefix(InstallSnapshot::Allocating, events, n);
        assert(events.take(n) =~= events.drop_last());
        lemma_origin(events.drop_last());
        assert(after(InstallSnapshot::Allocating, events.take(n)).awaits(events[n]));
    }
}

/// Nothing is written that the state machine has not been asked about and accepted: bytes
/// are written only upon its acceptance of the piece that came just before, and they are
/// that piece's bytes.
pub proof fn law_writes_only_accepted_pieces(events: Seq<SnapshotEvent>, i: int)
    requires
        is_run(InstallSnapshot::Allocating, events),
        0 <= i < events.len(),
        action_at(InstallSnapshot::Allocating, events, i) is Write,
    ensures
        i >= 1,
        events[i] == SnapshotEvent::Verified(true),
        events[i - 1] matches SnapshotEvent::Item(Some(Ok(req))) && action_at(
            InstallSnapshot::Allocating,
            events,
            i - 1,
        ) == SnapshotAction::Verify(offer_of(req)) && action_at(
            InstallSnapshot::Allocating,
            events,
            i,
        ) == SnapshotAction::Write(req.data),
{
    lemma_run_prefix(InstallSnapshot::Allocating, events, i);
    lemma_origin(events.take(i));
    assert(after(InstallSnapshot::Allocating, events.take(i)).awaits(events[i]));
    assert(events.take(i).last() == events[i - 1]);
}

/// The snapshot consists of the bytes of the accepted pieces, each piece once, in the order
/// in which they came.
pub proof fn law_written_is_accepted(events: Seq<SnapshotEvent>)
    requires
        is_run(InstallSnapshot::Allocating, events),
    ensures
        written_bytes(events) == accepted_bytes(events),
    decreases events.len(),
{
    if events.len() > 0 {
        let n = events.len() - 1;
        lemma_run_prefix(InstallSnapshot::Allocating, events, n);
        assert(events.take(n) =~= events.drop_last());
        law_written_is_accepted(events.drop_last());
        lemma_origin(events.drop_last());
        assert(after(InstallSnapshot::Allocating, events.take(n)).awaits(events[n]));
    }
}

/// The command executor is reset only once the last piece has been accepted and written, and
/// then to what that piece says the snapshot covers.
pub proof fn law_reset_after_last_piece(events: Seq<SnapshotEvent>, i: int)
    requires
        is_run(InstallSnapshot::Allocating, events),
        0 <= i < events.len(),
        action_at(InstallSnapshot::Allocating, events, i) is SendReset,
    ensures
        i >= 2,
        events[i] matches SnapshotEvent::Written(Ok(_)),
        events[i - 1] == SnapshotEvent::Verified(true),
        events[i - 2] matches SnapshotEvent::Item(Some(Ok(req))) && req.done && action_at(
            InstallSnapshot::Allocating,
            events,
            i,
        ) == (SnapshotAction::SendReset {
            meta: meta_of(req),
            expected_size: end_of(tail_of(req)),
        }),
{
    lemma_run_prefix(InstallSnapshot::Allocating, events, i);
    lemma_origin(events.take(i));
    assert(after(InstallSnapshot::Allocating, events.take(i)).awaits(events[i]));
    assert(events.take(i).last() == events[i - 1]);
    assert(events.take(i)[i - 2] == events[i - 2]);
}

/// A snapshot whose last piece is written is installed: the command executor is reset to it,
/// and once that is done, the node's term is read and answered.
pub proof fn law_written_snapshot_is_installed(
    events: Seq<SnapshotEvent>,
    i: int,
    req: InstallSnapshotRequest,
    term: u64,
)
    requires
        is_run(InstallSnapshot::Allocating, events),
        2 <= i < events.len(),
        events[i - 2] == SnapshotEvent::Item(Some(Ok(req))),
        req.done,
        events[i] matches SnapshotEvent::Written(Ok(_)),
    ensures
        events[i - 1] == SnapshotEvent::Verified(true),
        action_at(InstallSnapshot::Allocating, events, i) == (SnapshotAction::SendReset {
            meta: meta_of(req),
            expected_size: end_of(tail_of(req)),
        }),
        i + 2 < events.len() && events[i + 2] == SnapshotEvent::Term(term) ==> action_at(
            InstallSnapshot::Allocating,
            events,
            i + 2,
        ) == SnapshotAction::Reply(InstallSnapshotResponse { term }) && (events[i + 1] matches
            SnapshotEvent::ResetSent(Ok(_))),
{
    let start = InstallSnapshot::Allocating;
    lemma_run_prefix(start, events, i);
    lemma_origin(events.take(i));
    assert(after(start, events.take(i)).awaits(events[i]));
    assert(events.take(i).last() == events[i - 1]);
    assert(events.take(i)[i - 2] == events[i - 2]);
    lemma_after_step(start, events, i);
    if i + 1 < events.len() {
        assert(after(start, events.take(i + 1)).awaits(events[i + 1]));
        lemma_after_step(start, events, i + 1);
    }
    if i + 2 < events.len() {
        assert(after(start, events.take(i + 2)).awaits(events[i + 2]));
    }
}

/// Whether the event at `i` completes the snapshot: the last piece came, was accepted, and is
/// now written.
pub open spec fn completes_snapshot(events: Seq<SnapshotEvent>, i: int) -> bool {
    &&& i >= 2
    &&& events[i - 2] matches SnapshotEvent::Item(Some(Ok(req)))
    &&& req.done
    &&& events[i - 1] == SnapshotEvent::Verified(true)
    &&& events[i] matches SnapshotEvent::Written(Ok(_))
}

/// The command executor is reset exactly when the snapshot is complete, and at most once:
/// after it nothing more is taken off the stream, judged or written, and no second reset
/// comes.
pub proof fn law_reset_at_most_once(events: Seq<SnapshotEvent>, i: int)
    requires
        is_run(InstallSnapshot::Allocating, events),
        0 <= i < events.len(),
    ensures
        action_at(InstallSnapshot::Allocating, events, i) is SendReset <==> completes_snapshot(
            events,
            i,
        ),
        completes_snapshot(events, i) ==> forall|j: int|
            i < j < events.len() ==> match #[trigger] action_at(
                InstallSnapshot::Allocating,
                events,
                j,
            ) {
                SnapshotAction::ReadTerm => events[j] is ResetSent,
                SnapshotAction::Reply(_) => events[j] is Term,
                SnapshotAction::Fail(_) => events[j] is ResetSent,
                _ => false,
            },
{
    let start = InstallSnapshot::Allocating;
    if action_at(start, events, i) is SendReset {
        law_reset_after_last_piece(events, i);
    }
    if completes_snapshot(events, i) {
        if let SnapshotEvent::Item(Some(Ok(req))) = events[i - 2] {
            law_written_snapshot_is_installed(events, i, req, 0);
        }
        lemma_after_step(start, events, i);
        assert(after(start, events.take(i)).awaits(events[i]));
        if i + 1 < events.len() {
            assert(after(start, events.take(i + 1)).awaits(events[i + 1]));
            lemma_after_step(start, events, i + 1);
        }
        if i + 2 < events.len() {
            assert(after(start, events.take(i + 2)).awaits(events[i + 2]));
            lemma_after_step(start, events, i + 2);
        }
        if i + 3 < events.len() {
            assert(after(start, events.take(i + 3)).awaits(events[i + 3]));
        }
        assert forall|j: int| i < j < events.len() implies match #[trigger] action_at(
            start,
            events,
            j,
        ) {
            SnapshotAction::ReadTerm => events[j] is ResetSent,
            SnapshotAction::Reply(_) => events[j] is Term,
            SnapshotAction::Fail(_) => events[j] is ResetSent,
            _ => false,
        } by {
            assert(j == i + 1 || j == i + 2);
        }
    }
}

/// A stream without gaps never looks corrupted: when the command executor is reset, the size
/// that is expected is the number of bytes written.
pub proof fn law_contiguous_stream_is_whole(events: Seq<SnapshotEvent>, i: int)
    requires
        is_run(InstallSnapshot::Allocating, events),
        is_contiguous(events),
        0 <= i < events.len(),
        action_at(InstallSnapshot::Allocating, events, i) is SendReset,
        written_bytes(events.take(i)).len() <= u64::MAX,
    ensures
        action_at(InstallSnapshot::Allocating, events, i) matches SnapshotAction::SendReset {
            expected_size,
            ..
        } && expected_size == Some(written_bytes(events.take(i)).len() as u64),
{
    law_reset_after_last_piece(events, i);
    lemma_run_prefix(InstallSnapshot::Allocating, events, i);
    law_written_is_accepted(events.take(i));
    let upto = events.take(i);
    assert(upto.drop_last() =~= events.take(i - 1));
    assert(upto.last() == events[i - 1]);
    assert(upto[i - 2] == events[i - 2]);
    assert(events.take(i - 1).drop_last() =~= events.take(i - 2));
    assert(events.take(i - 1).last() == events[i - 2]);
    if let SnapshotEvent::Item(Some(Ok(req))) = events[i - 2] {
        assert(accepted_bytes(events.take(i - 1)) == accepted_bytes(events.take(i - 2)));
        assert(accepted_bytes(upto) == accepted_bytes(events.take(i - 1)) + req.data@);
        assert(req.offset == accepted_bytes(events.take(i - 2)).len());
        assert(tail_of(req).data_len == req.data@.len());
    }
}

/// An answer is given only if the state machine refused a piece or the command executor was
/// reset to the snapshot, and it tells the term that was read after that.
pub proof fn law_reply_reasons(events: Seq<SnapshotEvent>, i: int)
    requires
        is_run(InstallSnapshot::Allocating, events),
        0 <= i < events.len(),
        action_at(InstallSnapshot::Allocating, events, i) is Reply,
    ensures
        i >= 1,
        events[i] matches SnapshotEvent::Term(term) && action_at(
            InstallSnapshot::Allocating,
            events,
            i,
        ) == SnapshotAction::Reply(InstallSnapshotResponse { term }),
        events[i - 1] == SnapshotEvent::Verified(false) || (events[i - 1] matches
            SnapshotEvent::ResetSent(Ok(_))),
{
    lemma_run_prefix(InstallSnapshot::Allocating, events, i);
    lemma_origin(events.take(i));
    assert(after(InstallSnapshot::Allocating, events.take(i)).awaits(events[i]));
    assert(events.take(i).last() == events[i - 1]);
}

/// An answer or a failure ends the receipt: no event is awaited after it.
pub proof fn law_answer_is_last(events: Seq<SnapshotEvent>, i: int)
    requires
        is_run(InstallSnapshot::Allocating, events),
        0 <= i < events.len(),
        action_at(InstallSnapshot::Allocating, events, i) is Reply || action_at(
            InstallSnapshot::Allocating,
            events,
            i,
        ) is Fail,
    ensures
        i == events.len() - 1,
{
    lemma_after_step(InstallSnapshot::Allocating, events, i);
    if i + 1 < events.len() {
        assert(after(InstallSnapshot::Allocating, events.take(i + 1)).awaits(events[i + 1]));
    }
}

/// A stream that ends before its last piece installs nothing: the receipt fails, and the
/// command executor has not been reset.
pub proof fn law_incomplete_stream_installs_nothing(events: Seq<SnapshotEvent>)
    requires
        is_run(InstallSnapshot::Allocating, events),
        events.len() > 0,
        events.last() == SnapshotEvent::Item(None),
    ensures
        action_at(InstallSnapshot::Allocating, events, events.len() - 1) == SnapshotAction::Fail(
            SnapshotFailure::Incomplete,
        ),
        forall|i: int|
            0 <= i < events.len() ==> !(#[trigger] action_at(
                InstallSnapshot::Allocating,
                events,
                i,
            ) is SendReset),
{
    assert forall|i: int| 0 <= i < events.len() implies !(#[trigger] action_at(
        InstallSnapshot::Allocating,
        events,
        i,
    ) is SendReset) by {
        if action_at(InstallSnapshot::Allocating, events, i) is SendReset {
            lemma_after_step(InstallSnapshot::Allocating, events, i);
            law_reset_after_last_piece(events, i);
            assert(after(InstallSnapshot::Allocating, events.take(i)).awaits(events[i]));
            assert(after(InstallSnapshot::Allocating, events.take(i + 1)).awaits(events[i + 1]));
            lemma_after_step(InstallSnapshot::Allocating, events, i + 1);
            if i + 2 < events.len() {
                assert(after(InstallSnapshot::Allocating, events.take(i + 2)).awaits(
                    events[i + 2],
                ));
                lemma_after_step(InstallSnapshot::Allocating, events, i + 2);
                if i + 3 < events.len() {
                    assert(after(InstallSnapshot::Allocating, events.take(i + 3)).awaits(
                        events[i + 3],
                    ));
                }
            }
        }
    }
}

/// A refusal is answered: whichever piece the state machine refuses, the last or not, the term
/// is read next and told, and nothing more is taken off the stream, judged, written or
/// installed.
pub proof fn law_refusal_is_answered(events: Seq<SnapshotEvent>, i: int)
    requires
        is_run(InstallSnapshot::Allocating, events),
        0 <= i < events.len(),
        events[i] == SnapshotEvent::Verified(false),
    ensures
        action_at(InstallSnapshot::Allocating, events, i) == SnapshotAction::ReadTerm,
        events.len() <= i + 2,
        forall|j: int|
            i < j < events.len() ==> (#[trigger] events[j] matches SnapshotEvent::Term(term)
                && action_at(InstallSnapshot::Allocating, events, j) == SnapshotAction::Reply(
                InstallSnapshotResponse { term },
            )),
{
    let start = InstallSnapshot::Allocating;
    assert(after(start, events.take(i)).awaits(events[i]));
    lemma_after_step(start, events, i);
    if i + 1 < events.len() {
        assert(after(start, events.take(i + 1)).awaits(events[i + 1]));
        lemma_after_step(start, events, i + 1);
    }
    if i + 2 < events.len() {
        assert(after(start, events.take(i + 2)).awaits(events[i + 2]));
    }
}

/// Each piece is put to the state machine as it says it is, and once accepted it is written as
/// it is. After it is written the next one is taken, or the snapshot installed if it was the
/// last: with the position and term that the piece gave, and with the size at which it ended.
pub proof fn law_pieces_are_taken_in_turn(
    events: Seq<SnapshotEvent>,
    i: int,
    req: InstallSnapshotRequest,
)
    requires
        is_run(InstallSnapshot::Allocating, events),
        0 <= i < events.len(),
        events[i] == SnapshotEvent::Item(Some(Ok(req))),
    ensures
        action_at(InstallSnapshot::Allocating, events, i) == SnapshotAction::Verify(
            SnapshotOffer {
                term: req.term,
                leader_id: req.leader_id,
                last_included_index: req.last_included_index,
                last_included_term: req.last_included_term,
            },
        ),
        i + 1 < events.len() ==> events[i + 1] is Verified,
        i + 1 < events.len() && events[i + 1] == SnapshotEvent::Verified(true) ==> action_at(
            InstallSnapshot::Allocating,
            events,
            i + 1,
        ) == SnapshotAction::Write(req.data),
        i + 2 < events.len() && (events[i + 2] matches SnapshotEvent::Written(Ok(_))) ==> action_at(
            InstallSnapshot::Allocating,
            events,
            i + 2,
        ) == (if req.done {
            SnapshotAction::SendReset {
                meta: SnapshotMeta {
                    last_included_index: req.last_included_index,
                    last_included_term: req.last_included_term,
                },
                expected_size: if req.offset + req.data@.len() <= u64::MAX {
                    Some((req.offset + req.data@.len()) as u64)
                } else {
                    None
                },
            }
        } else {
            SnapshotAction::NextItem
        }),
{
    let start = InstallSnapshot::Allocating;
    assert(req.data@.len() == req.data.len());
    assert(after(start, events.take(i)).awaits(events[i]));
    lemma_after_step(start, events, i);
    if i + 1 < events.len() {
        assert(after(start, events.take(i + 1)).awaits(events[i + 1]));
        lemma_after_step(start, events, i + 1);
    }
    if i + 2 < events.len() {
        assert(after(start, events.take(i + 2)).awaits(events[i + 2]));
    }
}

/// What goes wrong is told as it went wrong, and at once: each failure has its own cause and
/// keeps its text. What goes well leads on.
pub proof fn law_receipt_goes_on_or_fails(events: Seq<SnapshotEvent>, i: int)
    requires
        is_run(InstallSnapshot::Allocating, events),
        0 <= i < events.len(),
    ensures
        events[i] matches SnapshotEvent::Allocated(allocated) ==> action_at(
            InstallSnapshot::Allocating,
            events,
            i,
        ) == (if allocated {
            SnapshotAction::NextItem
        } else {
            SnapshotAction::Fail(SnapshotFailure::Allocate)
        }),
        events[i] == SnapshotEvent::Item(None) ==> action_at(InstallSnapshot::Allocating, events, i)
            == SnapshotAction::Fail(SnapshotFailure::Incomplete),
        events[i] matches SnapshotEvent::Item(Some(Err(cause))) ==> action_at(
            InstallSnapshot::Allocating,
            events,
            i,
        ) == SnapshotAction::Fail(SnapshotFailure::Stream(cause)),
        events[i] matches SnapshotEvent::Written(Err(cause)) ==> action_at(
            InstallSnapshot::Allocating,
            events,
            i,
        ) == SnapshotAction::Fail(SnapshotFailure::Write(cause)),
        events[i] matches SnapshotEvent::ResetSent(sent) ==> action_at(
            InstallSnapshot::Allocating,
            events,
            i,
        ) == match sent {
            Ok(_) => SnapshotAction::ReadTerm,
            Err(cause) => SnapshotAction::Fail(SnapshotFailure::Reset(cause)),
        },
        events[i] matches SnapshotEvent::Term(term) ==> action_at(
            InstallSnapshot::Allocating,
            events,
            i,
        ) == SnapshotAction::Reply(InstallSnapshotResponse { term }),
{
    assert(after(InstallSnapshot::Allocating, events.take(i)).awaits(events[i]));
}

/// Every action is answered by how it went and by nothing else, an answer or a failure by
/// nothing at all. The receipt begins with the allocation.
pub proof fn law_each_receipt_action_is_answered(
    start: InstallSnapshot,
    events: Seq<SnapshotEvent>,
    event: SnapshotEvent,
)
    requires
        start == InstallSnapshot::Allocating,
        is_run(start, events),
    ensures
        events.len() == 0 ==> (after(start, events).awaits(event) <==> event is Allocated),
        events.len() > 0 ==> (after(start, events).awaits(event) <==> match action_at(
            start,
            events,
            events.len() - 1,
        ) {
            SnapshotAction::NextItem => event is Item,
            SnapshotAction::Verify(_) => event is Verified,
            SnapshotAction::Write(_) => event is Written,
            SnapshotAction::SendReset { .. } => event is ResetSent,
            SnapshotAction::ReadTerm => event is Term,
            SnapshotAction::Reply(_) => false,
            SnapshotAction::Fail(_) => false,
        }),
{
    if events.len() > 0 {
        let n = events.len() - 1;
        assert(events.take(n) =~= events.drop_last());
        assert(after(start, events.take(n)).awaits(events[n]));
    }
}

} // verus!
