//! Answering a configuration change.

use std::marker::PhantomData;

use vstd::pervasive::unreached;
use vstd::prelude::*;

use crate::handlers::{
    conf_change_proposal, conf_change_response, conf_response_of, is_conf_change_proposal,
};
use crate::log_entry::{ConfChangeEntry, ProposeConfChangeRequest, ProposeId};
use crate::machine::{action_at, after, is_run, lemma_after_step, Machine};
use crate::rpc::ProposeConfChangeResponse;

verus! {

/// What the answer to a configuration change waits for.
#[derive(Debug, PartialEq, Eq)]
pub enum ConfChangePhase {
    /// That the state machine has taken the change in
    Proposing {
        /// The id that the change is waited for under
        id: ProposeId,
    },
    /// That the change is done
    Waiting,
    /// The members of the cluster
    ReadingMembers {
        /// What the wait came to; an error is told by its code
        result: Result<(), i32>,
    },
    /// Nothing
    Finished,
}

/// The answering of a configuration change. The members of the cluster are `M`s.
#[derive(Debug, PartialEq, Eq)]
pub struct ConfChangeHandler<M> {
    /// What is awaited
    pub phase: ConfChangePhase,
    /// The members
    pub members: PhantomData<M>,
}

/// How the last action went.
#[derive(Debug, PartialEq, Eq)]
pub enum ConfChangeEvent<M> {
    /// The state machine has taken the change in, or refused it: only the wait tells which
    Proposed,
    /// The wait for the change is over; an error is told by its code
    Settled(Result<(), i32>),
    /// The members of the cluster
    Members(Vec<M>),
}

/// What to do next.
#[derive(Debug, PartialEq, Eq)]
pub enum ConfChangeAction<M> {
    /// Wait for the change with this id
    Wait(ProposeId),
    /// Read the members of the cluster
    ReadMembers,
    /// Give this answer
    Reply(ProposeConfChangeResponse<M>),
}

impl<M> Machine for ConfChangeHandler<M> {
    type Event = ConfChangeEvent<M>;

    type Action = ConfChangeAction<M>;

    open spec fn awaits(self, event: ConfChangeEvent<M>) -> bool {
        match self.phase {
            ConfChangePhase::Proposing { .. } => event is Proposed,
            ConfChangePhase::Waiting => event is Settled,
            ConfChangePhase::ReadingMembers { .. } => event is Members,
            ConfChangePhase::Finished => false,
        }
    }

    open spec fn next(self, event: ConfChangeEvent<M>) -> (
        ConfChangeHandler<M>,
        ConfChangeAction<M>,
    ) {
        let (phase, action) = match (self.phase, event) {
            (ConfChangePhase::Proposing { id }, ConfChangeEvent::Proposed) =>
                (ConfChangePhase::Waiting, ConfChangeAction::Wait(id)),
            (_, ConfChangeEvent::Settled(result)) =>
                (ConfChangePhase::ReadingMembers { result }, ConfChangeAction::ReadMembers),
            (ConfChangePhase::ReadingMembers { result }, ConfChangeEvent::Members(members)) => (
                ConfChangePhase::Finished,
                ConfChangeAction::Reply(conf_response_of(result, members)),
            ),
            (_, _) => arbitrary(),
        };
        (ConfChangeHandler { phase, members: self.members }, action)
    }
}

impl<M> ConfChangeHandler<M> {
    /// Whether this is the answering of a request as it begins, with `entry` as what the state
    /// machine takes in.
    pub open spec fn is_initial(
        self,
        req: ProposeConfChangeRequest,
        entry: ConfChangeEntry,
    ) -> bool {
        self.phase matches ConfChangePhase::Proposing { id } && is_conf_change_proposal(
            req,
            id,
            entry,
        )
    }

    /// Begins to answer: the caller has the state machine take in the entry that this gives
    /// back.
    pub fn start(req: ProposeConfChangeRequest) -> (res: (Self, ConfChangeEntry))
        ensures
            res.0.is_initial(req, res.1),
    {
        let (id, entry) = conf_change_proposal(req);
        let phase = ConfChangePhase::Proposing { id };
        (ConfChangeHandler { phase, members: PhantomData }, entry)
    }

    /// Takes in how the last action went and says what to do next.
    pub fn step(self, event: ConfChangeEvent<M>) -> (res: (Self, ConfChangeAction<M>))
        requires
            self.awaits(event),
        ensures
            res == self.next(event),
    {
        let (phase, action) = match (self.phase, event) {
            (ConfChangePhase::Proposing { id }, ConfChangeEvent::Proposed) =>
                (ConfChangePhase::Waiting, ConfChangeAction::Wait(id)),
            (_, ConfChangeEvent::Settled(result)) =>
                (ConfChangePhase::ReadingMembers { result }, ConfChangeAction::ReadMembers),
            (ConfChangePhase::ReadingMembers { result }, ConfChangeEvent::Members(members)) => (
                ConfChangePhase::Finished,
                ConfChangeAction::Reply(conf_change_response(result, members)),
            ),
            (_, _) => unreached(),
        };
        (ConfChangeHandler { phase, members: self.members }, action)
    }
}

/// A configuration change is answered once the wait for it is over, under the id that it was
/// requested with. The members told are those read after that wait, whether the change was
/// done or failed, and the error told is what the wait came to. Nothing but this answer ends
/// the answering.
pub proof fn law_members_are_read_after_the_wait<M>(
    start: ConfChangeHandler<M>,
    req: ProposeConfChangeRequest,
    entry: ConfChangeEntry,
    events: Seq<ConfChangeEvent<M>>,
    i: int,
)
    requires
        start.is_initial(req, entry),
        is_run(start, events),
        0 <= i < events.len(),
    ensures
        i <= 2,
        action_at(start, events, 0) matches ConfChangeAction::Wait(id) && id@ == req.id@,
        i >= 1 ==> events[1] is Settled && action_at(start, events, 1)
            == ConfChangeAction::<M>::ReadMembers,
        action_at(start, events, i) is Reply <==> i == 2,
        i == 2 ==> {
            &&& events[1] matches ConfChangeEvent::Settled(result)
            &&& events[2] matches ConfChangeEvent::Members(members)
            &&& action_at(start, events, 2) == ConfChangeAction::Reply(
                ProposeConfChangeResponse {
                    error: match result {
                        Ok(_) => None,
                        Err(code) => Some(code),
                    },
                    members,
                },
            )
        },
{
    assert(events.take(0) =~= Seq::empty());
    assert(after(start, events.take(0)).awaits(events[0]));
    lemma_after_step(start, events, 0);
    if i >= 1 {
        assert(after(start, events.take(1)).awaits(events[1]));
        lemma_after_step(start, events, 1);
    }
    if i >= 2 {
        assert(after(start, events.take(2)).awaits(events[2]));
        lemma_after_step(start, events, 2);
    }
    if i >= 3 {
        assert(after(start, events.take(3)).awaits(events[3]));
    }
}

/// What the state machine takes in is what was requested: all the changes, in their order, and
/// under the requested id, which is also the one that is waited for.
pub proof fn law_requested_changes_are_proposed<M>(
    start: ConfChangeHandler<M>,
    req: ProposeConfChangeRequest,
    entry: ConfChangeEntry,
    events: Seq<ConfChangeEvent<M>>,
)
    requires
        start.is_initial(req, entry),
        is_run(start, events),
        events.len() > 0,
    ensures
        entry.id@ == req.id@,
        entry.changes == req.changes,
        action_at(start, events, 0) matches ConfChangeAction::Wait(id) && id@ == req.id@,
{
    law_members_are_read_after_the_wait(start, req, entry, events, 0);
}

/// Every action is answered by how it went and by nothing else, the answer by nothing at all.
/// The answering begins with the proposal.
pub proof fn law_each_conf_change_action_is_answered<M>(
    start: ConfChangeHandler<M>,
    req: ProposeConfChangeRequest,
    entry: ConfChangeEntry,
    events: Seq<ConfChangeEvent<M>>,
    event: ConfChangeEvent<M>,
)
    requires
        start.is_initial(req, entry),
        is_run(start, events),
    ensures
        events.len() == 0 ==> (after(start, events).awaits(event) <==> event is Proposed),
        events.len() > 0 ==> (after(start, events).awaits(event) <==> match action_at(
            start,
            events,
            events.len() - 1,
        ) {
            ConfChangeAction::Wait(_) => event is Settled,
            ConfChangeAction::ReadMembers => event is Members,
            ConfChangeAction::Reply(_) => false,
        }),
{
    if events.len() > 0 {
        let n = events.len() - 1;
        assert(events.take(n) =~= events.drop_last());
        assert(after(start, events.take(n)).awaits(events[n]));
    }
}

} // verus!
