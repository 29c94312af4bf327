//! Answering a request for a vote.

use std::sync::Arc;

use vstd::pervasive::unreached;
use vstd::prelude::*;

use crate::error::{CurpError, StorageError};
use crate::log_entry::ServerId;
use crate::machine::{action_at, after, is_run, lemma_after_step, Machine};
use crate::rpc::{VoteRequest, VoteResponse};

verus! {

/// The answer to a request for a vote.
#[derive(Debug, PartialEq, Eq)]
pub enum Ballot {
    /// The vote is granted
    Granted {
        /// The voter's term
        term: u64,
        /// The commands of the voter's speculative pool, each encoded
        spec_pool: Vec<Vec<u8>>,
    },
    /// The vote is denied
    Denied {
        /// The voter's term
        term: u64,
    },
}

impl Ballot {
    /// Whether this is how the answer is sent: a denial tells no commands.
    pub open spec fn is_sent_as(self, resp: VoteResponse) -> bool {
        match self {
            Ballot::Granted { term, spec_pool } => resp == (VoteResponse {
                term,
                vote_granted: true,
                spec_pool,
            }),
            Ballot::Denied { term } => {
                &&& resp.term == term
                &&& !resp.vote_granted
                &&& resp.spec_pool@.len() == 0
            },
        }
    }

    /// The answer as it is sent.
    pub fn into_response(self) -> (res: VoteResponse)
        ensures
            self.is_sent_as(res),
            match self {
                Ballot::Granted { term, spec_pool } => res == (VoteResponse {
                    term,
                    vote_granted: true,
                    spec_pool,
                }),
                Ballot::Denied { term } => res.term == term && !res.vote_granted
                    && res.spec_pool@.len() == 0,
            },
    {
        match self {
            Ballot::Granted { term, spec_pool } => VoteResponse::new_accept(term, spec_pool),
            Ballot::Denied { term } => VoteResponse::new_reject(term),
        }
    }
}

/// What the answer to a request for a vote waits for.
#[derive(Debug, PartialEq, Eq)]
pub enum BallotPhase<C> {
    /// The state machine's decision
    Deciding,
    /// That the vote is on the disk
    Persisting {
        /// The voter's term
        term: u64,
        /// The voter's speculative pool
        spec_pool: Vec<Arc<C>>,
    },
    /// That the speculative pool is encoded
    Encoding {
        /// The voter's term
        term: u64,
    },
    /// Nothing
    Finished,
}

/// The answering of a request for a vote.
#[derive(Debug, PartialEq, Eq)]
pub struct VoteHandler<C> {
    /// Who asks for the vote
    pub candidate_id: ServerId,
    /// What is awaited
    pub phase: BallotPhase<C>,
}

/// How the last action went.
#[derive(Debug, PartialEq, Eq)]
pub enum BallotEvent<C> {
    /// The state machine grants the vote, with its term and speculative pool, or denies it,
    /// with its term
    Decided(Result<(u64, Vec<Arc<C>>), u64>),
    /// Whether the vote is on the disk
    Persisted(Result<(), StorageError>),
    /// The commands of the speculative pool, each encoded
    Encoded(Result<Vec<Vec<u8>>, CurpError>),
}

/// What to do next.
#[derive(Debug, PartialEq, Eq)]
pub enum BallotAction<C> {
    /// Write the vote to the disk
    Persist {
        /// The term of the vote
        term: u64,
        /// Whom it is for
        candidate_id: ServerId,
    },
    /// Encode the commands
    Encode(Vec<Arc<C>>),
    /// Give this answer
    Reply(Ballot),
    /// Fail
    Fail(CurpError),
}

impl<C> Machine for VoteHandler<C> {
    type Event = BallotEvent<C>;

    type Action = BallotAction<C>;

    open spec fn awaits(self, event: BallotEvent<C>) -> bool {
        match self.phase {
            BallotPhase::Deciding => event is Decided,
            BallotPhase::Persisting { .. } => event is Persisted,
            BallotPhase::Encoding { .. } => event is Encoded,
            BallotPhase::Finished => false,
        }
    }

    open spec fn next(self, event: BallotEvent<C>) -> (VoteHandler<C>, BallotAction<C>) {
        let candidate_id = self.candidate_id;
        let (phase, action) = match (self.phase, event) {
            (_, BallotEvent::Decided(Ok((term, spec_pool)))) => (
                BallotPhase::Persisting { term, spec_pool },
                BallotAction::Persist { term, candidate_id },
            ),
            (_, BallotEvent::Decided(Err(term))) =>
                (BallotPhase::Finished, BallotAction::Reply(Ballot::Denied { term })),
            (BallotPhase::Persisting { term, spec_pool }, BallotEvent::Persisted(Ok(_))) =>
                (BallotPhase::Encoding { term }, BallotAction::Encode(spec_pool)),
            (_, BallotEvent::Persisted(Err(err))) =>
                (BallotPhase::Finished, BallotAction::Fail(CurpError::Storage(err))),
            (BallotPhase::Encoding { term }, BallotEvent::Encoded(Ok(spec_pool))) =>
                (BallotPhase::Finished, BallotAction::Reply(Ballot::Granted { term, spec_pool })),
            (_, BallotEvent::Encoded(Err(err))) => (BallotPhase::Finished, BallotAction::Fail(err)),
            (_, _) => arbitrary(),
        };
        (VoteHandler { candidate_id, phase }, action)
    }
}

impl<C> VoteHandler<C> {
    /// Whether this is the answering of a candidate's request as it begins.
    pub open spec fn is_initial(self, candidate_id: ServerId) -> bool {
        self == VoteHandler::<C> { candidate_id, phase: BallotPhase::Deciding }
    }

    /// Begins to answer: the caller has the state machine decide on the request.
    pub fn start(req: &VoteRequest) -> (res: Self)
        ensures
            res.is_initial(req.candidate_id),
    {
        VoteHandler { candidate_id: req.candidate_id, phase: BallotPhase::Deciding }
    }

    /// Takes in how the last action went and says what to do next.
    pub fn step(self, event: BallotEvent<C>) -> (res: (Self, BallotAction<C>))
        requires
            self.awaits(event),
        ensures
            res == self.next(event),
    {
        let candidate_id = self.candidate_id;
        let (phase, action) = match (self.phase, event) {
            (_, BallotEvent::Decided(Ok((term, spec_pool)))) => (
                BallotPhase::Persisting { term, spec_pool },
                BallotAction::Persist { term, candidate_id },
            ),
            (_, BallotEvent::Decided(Err(term))) =>
                (BallotPhase::Finished, BallotAction::Reply(Ballot::Denied { term })),
            (BallotPhase::Persisting { term, spec_pool }, BallotEvent::Persisted(Ok(_))) =>
                (BallotPhase::Encoding { term }, BallotAction::Encode(spec_pool)),
            (_, BallotEvent::Persisted(Err(err))) =>
                (BallotPhase::Finished, BallotAction::Fail(CurpError::from(err))),
            (BallotPhase::Encoding { term }, BallotEvent::Encoded(Ok(spec_pool))) =>
                (BallotPhase::Finished, BallotAction::Reply(Ballot::Granted { term, spec_pool })),
            (_, BallotEvent::Encoded(Err(err))) => (BallotPhase::Finished, BallotAction::Fail(err)),
            (_, _) => unreached(),
        };
        (VoteHandler { candidate_id, phase }, action)
    }
}

/// No vote is granted before it is on the disk: a grant is the last of three steps, after
/// the state machine granted the vote in the same term and after the vote for the asking
/// candidate in that term was written.
pub proof fn law_grant_is_persisted<C>(
    start: VoteHandler<C>,
    candidate_id: ServerId,
    events: Seq<BallotEvent<C>>,
    i: int,
)
    requires
        start.is_initial(candidate_id),
        is_run(start, events),
        0 <= i < events.len(),
        action_at(start, events, i) matches BallotAction::Reply(Ballot::Granted { .. }),
    ensures
        i == 2,
        events[0] matches BallotEvent::Decided(Ok((term, pool))) && action_at(start, events, 0)
            == (BallotAction::<C>::Persist { term, candidate_id }) && action_at(start, events, 1)
            == BallotAction::Encode(pool) && (action_at(start, events, 2) matches
            BallotAction::Reply(Ballot::Granted { term: told, .. }) && told == term),
        events[1] matches BallotEvent::Persisted(Ok(_)),
{
    lemma_ballot_run(start, candidate_id, events, i);
}

/// The state machine's denial is answered at once, and nothing is written for it.
pub proof fn law_denial_writes_nothing<C>(
    start: VoteHandler<C>,
    candidate_id: ServerId,
    events: Seq<BallotEvent<C>>,
    term: u64,
)
    requires
        start.is_initial(candidate_id),
        is_run(start, events),
        events.len() > 0,
        events[0] == BallotEvent::<C>::Decided(Err(term)),
    ensures
        events.len() == 1,
        action_at(start, events, 0) == BallotAction::<C>::Reply(Ballot::Denied { term }),
{
    lemma_ballot_run(start, candidate_id, events, 0);
    if events.len() > 1 {
        assert(after(start, events.take(1)).awaits(events[1]));
    }
}

/// Where a run stands around the event at `i`.
proof fn lemma_ballot_run<C>(
    start: VoteHandler<C>,
    candidate_id: ServerId,
    events: Seq<BallotEvent<C>>,
    i: int,
)
    requires
        start.is_initial(candidate_id),
        is_run(start, events),
        0 <= i < events.len(),
    ensures
        i <= 2,
        events.take(0) == Seq::<BallotEvent<C>>::empty(),
        events[0] is Decided,
        after(start, events.take(1)) == start.next(events[0]).0,
        i >= 1 ==> events[1] is Persisted && events[0] matches BallotEvent::Decided(Ok(_)),
        i >= 1 ==> after(start, events.take(2)) == start.next(events[0]).0.next(events[1]).0,
        i >= 2 ==> events[2] is Encoded && events[1] matches BallotEvent::Persisted(Ok(_)),
{
    assert(events.take(0) =~= Seq::empty());
    assert(after(start, events.take(0)).awaits(events[0]));
    lemma_after_step(start, events, 0);
    if i >= 1 {
        assert(after(start, events.take(1)).awaits(events[1]));
        lemma_after_step(start, events, 1);
    }
    if i >= 2 {
        assert(after(start, events.take(2)).awaits(events[2]));
        lemma_after_step(start, events, 2);
    }
    if i >= 3 {
        assert(after(start, events.take(3)).awaits(events[3]));
    }
}

/// Each answer has its reason, and each reason its answer. A vote that the state machine
/// granted is written in the state machine's term for the asking candidate. Once it is on the
/// disk, the state machine's whole speculative pool is encoded, and once that is done the
/// answer is a grant, with the state machine's term and just the encoded pool, however many
/// commands that holds. A denial is answered only if the state machine denied. An error in
/// between is told as it is.
pub proof fn law_vote_is_answered_as_decided<C>(
    start: VoteHandler<C>,
    candidate_id: ServerId,
    events: Seq<BallotEvent<C>>,
    i: int,
)
    requires
        start.is_initial(candidate_id),
        is_run(start, events),
        0 <= i < events.len(),
    ensures
        match events[i] {
            BallotEvent::Decided(Ok((term, _))) => action_at(start, events, i) == (BallotAction::<
                C,
            >::Persist { term, candidate_id }),
            BallotEvent::Decided(Err(term)) => action_at(start, events, i) == BallotAction::<
                C,
            >::Reply(Ballot::Denied { term }),
            BallotEvent::Persisted(Ok(_)) => {
                &&& i == 1
                &&& events[0] matches BallotEvent::Decided(Ok((_, pool)))
                &&& action_at(start, events, i) == BallotAction::<C>::Encode(pool)
            },
            BallotEvent::Persisted(Err(err)) => action_at(start, events, i) == BallotAction::<
                C,
            >::Fail(CurpError::Storage(err)),
            BallotEvent::Encoded(Ok(encoded)) => {
                &&& i == 2
                &&& events[0] matches BallotEvent::Decided(Ok((decided, _)))
                &&& action_at(start, events, i) == BallotAction::<C>::Reply(
                    Ballot::Granted { term: decided, spec_pool: encoded },
                )
            },
            BallotEvent::Encoded(Err(err)) => action_at(start, events, i) == BallotAction::<
                C,
            >::Fail(err),
        },
        action_at(start, events, i) matches BallotAction::Reply(Ballot::Denied { term })
            ==> events[i] == BallotEvent::<C>::Decided(Err(term)),
{
    lemma_ballot_run(start, candidate_id, events, i);
}

/// A ballot is sent as it was cast: a grant with its term and its whole pool, a denial with its
/// term and no commands.
pub proof fn law_ballot_is_sent_as_cast(ballot: Ballot, resp: VoteResponse)
    requires
        ballot.is_sent_as(resp),
    ensures
        match ballot {
            Ballot::Granted { term, spec_pool } => resp.vote_granted && resp.term == term
                && resp.spec_pool == spec_pool,
            Ballot::Denied { term } => !resp.vote_granted && resp.term == term
                && resp.spec_pool@.len() == 0,
        },
{
}

/// Every action is answered by how it went and by nothing else, an answer or a failure by
/// nothing at all. The answering begins with the state machine's decision.
pub proof fn law_each_ballot_action_is_answered<C>(
    start: VoteHandler<C>,
    candidate_id: ServerId,
    events: Seq<BallotEvent<C>>,
    event: BallotEvent<C>,
)
    requires
        start.is_initial(candidate_id),
        is_run(start, events),
    ensures
        events.len() == 0 ==> (after(start, events).awaits(event) <==> event is Decided),
        events.len() > 0 ==> (after(start, events).awaits(event) <==> match action_at(
            start,
            events,
            events.len() - 1,
        ) {
            BallotAction::Persist { .. } => event is Persisted,
            BallotAction::Encode(_) => event is Encoded,
            BallotAction::Reply(_) => false,
            BallotAction::Fail(_) => false,
        }),
{
    if events.len() > 0 {
        let n = events.len() - 1;
        assert(events.take(n) =~= events.drop_last());
        assert(after(start, events.take(n)).awaits(events[n]));
    }
}

} // verus!
