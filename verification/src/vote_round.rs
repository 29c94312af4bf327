//! Asking the other servers for their votes.

use std::marker::PhantomData;
use std::sync::Arc;

use vstd::prelude::*;

use crate::log_entry::{LogIndex, ServerId};
use crate::machine::{action_at, after, is_run, lemma_after_step, lemma_run_prefix, Machine};
use crate::rpc::{VoteRequest, VoteResponse};

verus! {

/// What a candidate puts to the vote.
#[derive(Debug, Clone, Copy, PartialEq, Eq)]
pub struct Vote {
    /// The candidate's term
    pub term: u64,
    /// The candidate
    pub candidate_id: ServerId,
    /// Position of the candidate's last entry
    pub last_log_index: LogIndex,
    /// Term of the candidate's last entry
    pub last_log_term: u64,
}

impl Vote {
    /// The request that goes to every other server.
    pub fn request(&self) -> (res: VoteRequest)
        ensures
            res == (VoteRequest {
                term: self.term,
                candidate_id: self.candidate_id,
                last_log_index: self.last_log_index,
                last_log_term: self.last_log_term,
            }),
    {
        VoteRequest::new(self.term, self.candidate_id, self.last_log_index, self.last_log_term)
    }
}

/// The requests of a vote round: one for each server, in their order, and to all the same.
pub fn requests_to(servers: &Vec<ServerId>, req: VoteRequest) -> (res: Vec<
    (ServerId, VoteRequest),
>)
    ensures
        res@.len() == servers@.len(),
        forall|i: int| 0 <= i < servers@.len() ==> #[trigger] res@[i] == (servers@[i], req),
{
    let mut requests: Vec<(ServerId, VoteRequest)> = Vec::new();
    let mut asked: usize = 0;
    while asked < servers.len()
        invariant
            asked <= servers@.len(),
            requests@.len() == asked,
            forall|i: int| 0 <= i < asked ==> #[trigger] requests@[i] == (servers@[i], req),
        decreases servers@.len() - asked,
    {
        requests.push((servers[asked], req));
        asked += 1;
    }
    requests
}

/// A vote as the state machine takes it in.
#[derive(Debug, PartialEq, Eq)]
pub struct CastVote<C> {
    /// Who voted
    pub from: ServerId,
    /// The voter's term
    pub term: u64,
    /// Whether the vote was granted
    pub vote_granted: bool,
    /// The voter's speculative pool
    pub spec_pool: Vec<Arc<C>>,
}

/// What a vote round is doing.
#[derive(Debug, Clone, Copy, PartialEq, Eq)]
pub enum RoundPhase {
    /// The next reply is awaited
    Receiving,
    /// The speculative pool in a reply is being decoded
    Decoding {
        /// Who replied
        from: ServerId,
        /// The replier's term
        term: u64,
        /// Whether it granted its vote
        vote_granted: bool,
    },
    /// The state machine is counting the vote
    Counting,
    /// Over
    Finished,
}

/// A vote round: the replies come in one by one, in any order.
#[derive(Debug, PartialEq, Eq)]
pub struct VoteRound<C> {
    /// What is being done
    pub phase: RoundPhase,
    /// The commands in the speculative pools
    pub commands: PhantomData<C>,
}

/// How the last action went.
#[derive(Debug, PartialEq, Eq)]
pub enum RoundEvent<C> {
    /// The next reply and who gave it, or none if all have come
    Reply(Option<(ServerId, Result<VoteResponse, String>)>),
    /// The speculative pool in the reply
    Decoded(Result<Vec<Arc<C>>, String>),
    /// What the state machine made of the vote: whether it settles the election, or that
    /// self is no longer candidate
    Counted(Result<bool, ()>),
}

/// What to do next.
#[derive(Debug, PartialEq, Eq)]
pub enum RoundAction<C> {
    /// Wait for the next reply
    NextReply,
    /// Decode the commands
    Decode(Vec<Vec<u8>>),
    /// Have the state machine count the vote
    Count(CastVote<C>),
    /// Stop
    Finish,
}

impl<C> Machine for VoteRound<C> {
    type Event = RoundEvent<C>;

    type Action = RoundAction<C>;

    open spec fn awaits(self, event: RoundEvent<C>) -> bool {
        match self.phase {
            RoundPhase::Receiving => event is Reply,
            RoundPhase::Decoding { .. } => event is Decoded,
            RoundPhase::Counting => event is Counted,
            RoundPhase::Finished => false,
        }
    }

    open spec fn next(self, event: RoundEvent<C>) -> (VoteRound<C>, RoundAction<C>) {
        let (phase, action) = match (self.phase, event) {
            (_, RoundEvent::Reply(None)) => (RoundPhase::Finished, RoundAction::Finish),
            (_, RoundEvent::Reply(Some((from, Ok(resp))))) => (
                RoundPhase::Decoding { from, term: resp.term, vote_granted: resp.vote_granted },
                RoundAction::Decode(resp.spec_pool),
            ),
            (RoundPhase::Decoding { from, term, vote_granted }, RoundEvent::Decoded(Ok(spec_pool))) =>
                (
                    RoundPhase::Counting,
                    RoundAction::Count(CastVote { from, term, vote_granted, spec_pool }),
                ),
            (_, RoundEvent::Counted(Ok(true))) => (RoundPhase::Finished, RoundAction::Finish),
            (_, RoundEvent::Counted(Err(_))) => (RoundPhase::Finished, RoundAction::Finish),
            (_, _) => (RoundPhase::Receiving, RoundAction::NextReply),
        };
        (VoteRound { phase, commands: self.commands }, action)
    }
}

/// Whether an event ends a vote round.
pub open spec fn is_round_end<C>(event: RoundEvent<C>) -> bool {
    ||| event == RoundEvent::<C>::Reply(None)
    ||| event matches RoundEvent::Counted(result) && result != Ok::<bool, ()>(false)
}

impl<C> VoteRound<C> {
    /// A vote round as it begins: the requests are out and the first reply is awaited.
    pub open spec fn is_initial(self) -> bool {
        self.phase == RoundPhase::Receiving
    }

    /// A vote round as it begins: the requests are out and the first reply is awaited.
    pub fn start() -> (res: Self)
        ensures
            res.is_initial(),
    {
        VoteRound { phase: RoundPhase::Receiving, commands: PhantomData }
    }

    /// Takes in how the last action went and says what to do next.
    pub fn step(self, event: RoundEvent<C>) -> (res: (Self, RoundAction<C>))
        requires
            self.awaits(event),
        ensures
            res == self.next(event),
    {
        let (phase, action) = match event {
            RoundEvent::Reply(None) => (RoundPhase::Finished, RoundAction::Finish),
            RoundEvent::Reply(Some((from, Ok(resp)))) => (
                RoundPhase::Decoding { from, term: resp.term, vote_granted: resp.vote_granted },
                RoundAction::Decode(resp.spec_pool),
            ),
            RoundEvent::Reply(Some((_, Err(_)))) => (RoundPhase::Receiving, RoundAction::NextReply),
            RoundEvent::Decoded(Err(_)) => (RoundPhase::Receiving, RoundAction::NextReply),
            RoundEvent::Decoded(Ok(spec_pool)) => match self.phase {
                RoundPhase::Decoding { from, term, vote_granted } => (
                    RoundPhase::Counting,
                    RoundAction::Count(CastVote { from, term, vote_granted, spec_pool }),
                ),
                _ => (RoundPhase::Receiving, RoundAction::NextReply),
            },
            RoundEvent::Counted(Ok(settled)) => if settled {
                (RoundPhase::Finished, RoundAction::Finish)
            } else {
                (RoundPhase::Receiving, RoundAction::NextReply)
            },
            RoundEvent::Counted(Err(_)) => (RoundPhase::Finished, RoundAction::Finish),
        };
        (VoteRound { phase, commands: self.commands }, action)
    }
}

/// The votes among the events: the replies that came and whose speculative pools could be
/// decoded, in the order in which they came.
pub open spec fn votes<C>(events: Seq<RoundEvent<C>>) -> Seq<CastVote<C>>
    decreases events.len(),
{
    if events.len() < 2 {
        Seq::empty()
    } else {
        let before = votes(events.drop_last());
        match (events[events.len() - 2], events.last()) {
            (RoundEvent::Reply(Some((from, Ok(resp)))), RoundEvent::Decoded(Ok(spec_pool))) =>
                before.push(
                    CastVote {
                        from,
                        term: resp.term,
                        vote_granted: resp.vote_granted,
                        spec_pool,
                    },
                ),
            _ => before,
        }
    }
}

/// The votes that a run has the state machine count, in order.
pub open spec fn counted<C>(start: VoteRound<C>, events: Seq<RoundEvent<C>>) -> Seq<CastVote<C>>
    decreases events.len(),
{
    if events.len() == 0 {
        Seq::empty()
    } else {
        let before = counted(start, events.drop_last());
        match action_at(start, events, events.len() - 1) {
            RoundAction::Count(vote) => before.push(vote),
            _ => before,
        }
    }
}

/// What is being decoded is what came last.
proof fn lemma_decoding<C>(start: VoteRound<C>, events: Seq<RoundEvent<C>>)
    requires
        start.is_initial(),
        is_run(start, events),
    ensures
        after(start, events).phase matches RoundPhase::Decoding { from, term, vote_granted } ==> {
            &&& events.len() >= 1
            &&& events.last() matches RoundEvent::Reply(Some((replier, Ok(resp))))
            &&& replier == from
            &&& resp.term == term
            &&& resp.vote_granted == vote_granted
        },
{
    if events.len() > 0 {
        let n = events.len() - 1;
        assert(events.take(n) =~= events.drop_last());
        assert(after(start, events.take(n)).awaits(events[n]));
    }
}

/// The state machine counts every vote that came, each once, in the order in which they
/// came, and nothing else.
pub proof fn law_every_vote_is_counted<C>(start: VoteRound<C>, events: Seq<RoundEvent<C>>)
    requires
        start.is_initial(),
        is_run(start, events),
    ensures
        counted(start, events) == votes(events),
    decreases events.len(),
{
    if events.len() > 0 {
        let n = events.len() - 1;
        lemma_run_prefix(start, events, n);
        assert(events.take(n) =~= events.drop_last());
        law_every_vote_is_counted(start, events.drop_last());
        lemma_decoding(start, events.drop_last());
        assert(after(start, events.take(n)).awaits(events[n]));
        if n > 0 {
            assert(events.drop_last().last() == events[n - 1]);
        }
    }
}

/// A vote round ends exactly when a vote settles the election, self is no longer candidate,
/// or no reply is left. No failed request and no reply that cannot be decoded ends it.
pub proof fn law_round_end_reasons<C>(start: VoteRound<C>, events: Seq<RoundEvent<C>>, i: int)
    requires
        start.is_initial(),
        is_run(start, events),
        0 <= i < events.len(),
    ensures
        action_at(start, events, i) is Finish <==> is_round_end(events[i]),
        is_round_end(events[i]) ==> i == events.len() - 1,
{
    lemma_after_step(start, events, i);
    assert(after(start, events.take(i)).awaits(events[i]));
    if is_round_end(events[i]) && i + 1 < events.len() {
        assert(after(start, events.take(i + 1)).awaits(events[i + 1]));
    }
}

/// A reply that comes has its commands decoded, and if they can be, the state machine counts
/// just what the replier said. A reply that does not come, commands that cannot be decoded and
/// a vote that settles nothing have the next reply awaited. The round ends when no reply is
/// left, when a vote settles the election, and when self is no longer candidate.
pub proof fn law_replies_are_taken_in_turn<C>(
    start: VoteRound<C>,
    events: Seq<RoundEvent<C>>,
    i: int,
)
    requires
        start.is_initial(),
        is_run(start, events),
        0 <= i < events.len(),
    ensures
        match events[i] {
            RoundEvent::Reply(None) => action_at(start, events, i) == RoundAction::<C>::Finish,
            RoundEvent::Reply(Some((_, Err(_)))) => action_at(start, events, i) == RoundAction::<
                C,
            >::NextReply,
            RoundEvent::Reply(Some((_, Ok(resp)))) => action_at(start, events, i)
                == RoundAction::<C>::Decode(resp.spec_pool),
            RoundEvent::Decoded(Err(_)) => action_at(start, events, i) == RoundAction::<
                C,
            >::NextReply,
            RoundEvent::Decoded(Ok(spec_pool)) => {
                &&& i > 0
                &&& events[i - 1] matches RoundEvent::Reply(Some((from, Ok(resp))))
                &&& action_at(start, events, i) == RoundAction::<C>::Count(
                    CastVote {
                        from,
                        term: resp.term,
                        vote_granted: resp.vote_granted,
                        spec_pool,
                    },
                )
            },
            RoundEvent::Counted(Ok(settled)) => action_at(start, events, i) == (if settled {
                RoundAction::<C>::Finish
            } else {
                RoundAction::NextReply
            }),
            RoundEvent::Counted(Err(_)) => action_at(start, events, i) == RoundAction::<C>::Finish,
        },
{
    lemma_run_prefix(start, events, i);
    lemma_decoding(start, events.take(i));
    assert(after(start, events.take(i)).awaits(events[i]));
    if i > 0 {
        assert(events.take(i).last() == events[i - 1]);
    }
}

/// Every action is answered by how it went and by nothing else, the end of the round by nothing
/// at all. The round begins with the wait for a reply.
pub proof fn law_each_round_action_is_answered<C>(
    start: VoteRound<C>,
    events: Seq<RoundEvent<C>>,
    event: RoundEvent<C>,
)
    requires
        start.is_initial(),
        is_run(start, events),
    ensures
        events.len() == 0 ==> (after(start, events).awaits(event) <==> event is Reply),
        events.len() > 0 ==> (after(start, events).awaits(event) <==> match action_at(
            start,
            events,
            events.len() - 1,
        ) {
            RoundAction::NextReply => event is Reply,
            RoundAction::Decode(_) => event is Decoded,
            RoundAction::Count(_) => event is Counted,
            RoundAction::Finish => false,
        }),
{
    if events.len() > 0 {
        let n = events.len() - 1;
        assert(events.take(n) =~= events.drop_last());
        assert(after(start, events.take(n)).awaits(events[n]));
    }
}

} // verus!
