//! What holds across requests, the log and the nodes that talk to each other.

use std::sync::Arc;

use vstd::prelude::*;

use crate::error::{SendAEError, SendSnapshotError};
use crate::handlers::{header_of, is_conf_change_proposal, response_of};
use crate::log_entry::{
    Command, ConfChangeEntry, EntryData, LogEntry, LogIndex, ProposeConfChangeRequest, ProposeId,
    ServerId,
};
use crate::machine::{action_at, after, is_run, lemma_after_step, Machine};
use crate::rpc::{AppendEntriesRequest, Snapshot, VoteResponse};
use crate::send_ae::{
    law_encoded_entries_are_sent, law_sending_results, law_snapshot_sending_results, request_of,
    result_of, snapshot_result_of, AppendEntries, SendAction, SendAppendEntries, SendEvent,
    SendSnapshot, SendSnapshotAction, SendSnapshotEvent,
};
use crate::sync_follower::{is_end, law_sync_goes_on, SyncEvent, SyncFollower};
use crate::vote_handler::Ballot;
use crate::vote_round::{RoundAction, RoundEvent, VoteRound};

verus! {

/// A command is found by its own id: the ids of a log entry that carries it are those that
/// the command gives, whatever the entry's term and position.
pub proof fn law_command_is_found_by_its_id<C: Command>(
    index: LogIndex,
    term: u64,
    cmd: Arc<C>,
    id: ProposeId,
)
    ensures
        (LogEntry { term, index, entry_data: EntryData::Command(cmd) }).has_id(&id)
            <==> call_ensures(C::id, (&*cmd,), &id),
{
}

/// A configuration change is waited for under the id that its log entry has: whatever id the
/// entry that carries it is found to have reads like the one that is waited for.
pub proof fn law_conf_change_is_found_by_its_id<C: Command>(
    req: ProposeConfChangeRequest,
    waited: ProposeId,
    entry: ConfChangeEntry,
    index: LogIndex,
    term: u64,
    id: ProposeId,
)
    requires
        is_conf_change_proposal(req, waited, entry),
        (LogEntry::<C> { term, index, entry_data: EntryData::ConfChange(entry) }).has_id(&id),
    ensures
        id@ == waited@,
        id@ == req.id@,
{
}

/// What a leader's state machine sends is what the follower's takes in: a request made of a
/// header and encoded entries holds just these.
pub proof fn law_append_request_round_trip<C>(ae: AppendEntries<C>, entries: Vec<Vec<u8>>)
    ensures
        header_of(request_of(ae.header(), entries)) == ae.header(),
        request_of(ae.header(), entries).entries == entries,
{
}

/// What a follower's state machine makes of log entries is what the leader's is told: its
/// term, whether it took them, and where to try next if it did not.
pub proof fn law_append_verdict_reaches_leader<C>(
    start: SendAppendEntries,
    follower_id: ServerId,
    ae: AppendEntries<C>,
    events: Seq<SendEvent>,
    verdict: Result<u64, (u64, LogIndex)>,
)
    requires
        start.is_initial(follower_id, ae),
        is_run(start, events),
        events.len() >= 2,
        events[1] == SendEvent::Responded(Ok(response_of(verdict))),
    ensures
        action_at(start, events, 1) matches SendAction::Report(report) && report.follower_id
            == follower_id && report.last_sent_index == ae.last_index() && match verdict {
            Ok(term) => report.success && report.term == term,
            Err((term, hint_index)) => !report.success && report.term == term
                && report.hint_index == hint_index,
        },
{
    assert(events.take(0) =~= Seq::empty());
    assert(after(start, events.take(0)).awaits(events[0]));
    lemma_after_step(start, events, 0);
    assert(after(start, events.take(1)).awaits(events[1]));
}

/// A leader that learns from its state machine that it is none stops syncing: of all that can
/// end the sending of log entries, only this ends the sync of the follower.
pub proof fn law_lost_leadership_ends_sync<C, R, S>(event: SendEvent)
    ensures
        is_end(SyncEvent::<C, R, S>::AppendSent(result_of(event))) <==> (event matches
            SendEvent::Reported(Err(_))),
{
}

/// The same holds of snapshots: only the state machine's word that self is no longer leader
/// turns the sending of one into the end of the sync.
pub proof fn law_lost_leadership_ends_sync_by_snapshot<C, R, S>(event: SendSnapshotEvent)
    ensures
        is_end(SyncEvent::<C, R, S>::SnapshotSent(snapshot_result_of(event))) <==> (event matches
            SendSnapshotEvent::Reported(Err(_))),
{
}

/// What a voter answers is what the candidate counts: the voter's term and whether it granted
/// its vote.
pub proof fn law_ballot_reaches_candidate<C>(
    round: VoteRound<C>,
    from: ServerId,
    ballot: Ballot,
    resp: VoteResponse,
    spec_pool: Vec<Arc<C>>,
)
    requires
        round.is_initial(),
        ballot.is_sent_as(resp),
    ensures
        is_run(round, seq![RoundEvent::Reply(Some((from, Ok(resp)))), RoundEvent::Decoded(Ok(spec_pool))]),
        action_at(
            round,
            seq![RoundEvent::Reply(Some((from, Ok(resp)))), RoundEvent::Decoded(Ok(spec_pool))],
            1,
        ) matches RoundAction::Count(vote) && vote.from == from && vote.spec_pool == spec_pool
            && match ballot {
            Ballot::Granted { term, .. } => vote.vote_granted && vote.term == term,
            Ballot::Denied { term } => !vote.vote_granted && vote.term == term,
        },
{
    let events = seq![
        RoundEvent::Reply(Some((from, Ok(resp)))),
        RoundEvent::<C>::Decoded(Ok(spec_pool)),
    ];
    assert(events.take(0) =~= Seq::empty());
    lemma_after_step(round, events, 0);
    assert forall|i: int| 0 <= i < events.len() implies #[trigger] after(
        round,
        events.take(i),
    ).awaits(events[i]) by {
        assert(i == 0 || i == 1);
    }
}

/// What a sending comes to decides on the sync: of all that can end the sending of log entries
/// to a follower, only the state machine's word that self is no longer leader stops the sync
/// of that follower, and everything else has it wait for the next.
pub proof fn law_result_of_sending_decides_on_sync<C, R, S>(
    sending: SendAppendEntries,
    follower_id: ServerId,
    ae: AppendEntries<C>,
    sends: Seq<SendEvent>,
    i: int,
    result: Result<(), SendAEError>,
    sync: SyncFollower<C, R, S>,
    events: Seq<SyncEvent<C, R, S>>,
    j: int,
)
    requires
        sending.is_initial(follower_id, ae),
        is_run(sending, sends),
        0 <= i < sends.len(),
        action_at(sending, sends, i) == SendAction::Finish(result),
        sync.is_initial(),
        is_run(sync, events),
        0 <= j < events.len(),
        events[j] == SyncEvent::<C, R, S>::AppendSent(result),
    ensures
        action_at(sync, events, j) is Stop <==> (sends[i] matches SendEvent::Reported(Err(_))),
        !(action_at(sync, events, j) is Stop) ==> action_at(sync, events, j) is Wait,
{
    law_sending_results(sending, follower_id, ae, sends, i);
    law_sync_goes_on(sync, events, j);
}

/// The same holds of the sending of a snapshot.
pub proof fn law_result_of_snapshot_decides_on_sync<C, R, S, D>(
    sending: SendSnapshot,
    follower_id: ServerId,
    snapshot: Snapshot<D>,
    sends: Seq<SendSnapshotEvent>,
    i: int,
    result: Result<(), SendSnapshotError>,
    sync: SyncFollower<C, R, S>,
    events: Seq<SyncEvent<C, R, S>>,
    j: int,
)
    requires
        sending.is_initial(follower_id, snapshot),
        is_run(sending, sends),
        0 <= i < sends.len(),
        action_at(sending, sends, i) == SendSnapshotAction::Finish(result),
        sync.is_initial(),
        is_run(sync, events),
        0 <= j < events.len(),
        events[j] == SyncEvent::<C, R, S>::SnapshotSent(result),
    ensures
        action_at(sync, events, j) is Stop <==> (sends[i] matches SendSnapshotEvent::Reported(
            Err(_),
        )),
        !(action_at(sync, events, j) is Stop) ==> action_at(sync, events, j) is Wait,
{
    law_snapshot_sending_results(sending, follower_id, snapshot, sends, i);
    law_sync_goes_on(sync, events, j);
}

/// What the leader's state machine has sent is what the follower's takes in, part by part.
pub proof fn law_follower_takes_in_what_was_sent<C>(
    start: SendAppendEntries,
    follower_id: ServerId,
    ae: AppendEntries<C>,
    events: Seq<SendEvent>,
    entries: Vec<Vec<u8>>,
    req: AppendEntriesRequest,
)
    requires
        start.is_initial(follower_id, ae),
        is_run(start, events),
        events.len() > 0,
        events[0] == SendEvent::Encoded(Ok(entries)),
        action_at(start, events, 0) == SendAction::Send(req),
    ensures
        header_of(req).term == ae.term,
        header_of(req).leader_id == ae.leader_id,
        header_of(req).prev_log_index == ae.prev_log_index,
        header_of(req).prev_log_term == ae.prev_log_term,
        header_of(req).leader_commit == ae.leader_commit,
        req.entries == entries,
{
    law_encoded_entries_are_sent(start, follower_id, ae, events, entries);
}

} // verus!
