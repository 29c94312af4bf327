//! Telling a client what its command came to once it is synced.

use std::marker::PhantomData;

use vstd::prelude::*;

use crate::error::CurpError;
use crate::handlers::{synced_results, SyncedResults};
use crate::log_entry::ProposeId;
use crate::machine::{action_at, after, is_run, lemma_after_step, Machine};

verus! {

/// Why a client that waits for the sync of a command is not told.
#[derive(Debug)]
pub enum WaitFailure {
    /// The id of the command cannot be decoded
    DecodeId(bincode::Error),
    /// The answer cannot be encoded
    EncodeAnswer(bincode::Error),
}

impl WaitFailure {
    /// What bincode says went wrong.
    pub open spec fn cause(self) -> bincode::Error {
        match self {
            WaitFailure::DecodeId(err) => err,
            WaitFailure::EncodeAnswer(err) => err,
        }
    }

    /// The error that the handler fails with.
    pub fn into_error(self) -> (res: CurpError)
        ensures
            res matches CurpError::EncodeDecode(text)
                && vstd::string::to_string_from_display_ensures::<bincode::Error>(
                &self.cause(),
                text,
            ),
            match self {
                WaitFailure::DecodeId(err) => (res matches CurpError::EncodeDecode(text)
                    && vstd::string::to_string_from_display_ensures::<bincode::Error>(&err, text)),
                WaitFailure::EncodeAnswer(err) => (res matches CurpError::EncodeDecode(text)
                    && vstd::string::to_string_from_display_ensures::<bincode::Error>(&err, text)),
            },
    {
        match self {
            WaitFailure::DecodeId(err) => CurpError::from(err),
            WaitFailure::EncodeAnswer(err) => CurpError::from(err),
        }
    }
}

/// What the answer to a waiting client waits for.
#[derive(Debug, Clone, Copy, PartialEq, Eq)]
pub enum WaitPhase {
    /// The id of the command
    Decoding,
    /// The sync of the command
    Waiting,
    /// That the answer is encoded
    Encoding,
    /// Nothing
    Finished,
}

/// The answering of a client that waits for the sync of a command. An execution gives an `R`,
/// what is done after the sync gives an `A`, and the encoded answer is a `P`.
#[derive(Debug, PartialEq, Eq)]
pub struct WaitSynced<R, A, P> {
    /// What is awaited
    pub phase: WaitPhase,
    /// What is told
    pub results: PhantomData<(R, A, P)>,
}

/// How the last action went.
#[derive(Debug)]
pub enum WaitEvent<R, A, P> {
    /// The id of the command
    IdDecoded(Result<ProposeId, bincode::Error>),
    /// The command is synced
    Synced {
        /// The result of its execution
        er: R,
        /// The result of what was done after the sync, if anything was
        asr: Option<A>,
    },
    /// The encoded answer
    Encoded(Result<P, bincode::Error>),
}

/// What to do next.
#[derive(Debug)]
pub enum WaitAction<R, A, P> {
    /// Wait until the command with this id is executed and synced
    Wait(ProposeId),
    /// Encode the answer
    Encode(SyncedResults<R, A>),
    /// Give this answer
    Reply(P),
    /// Fail
    Fail(WaitFailure),
}

impl<R, A, P> Machine for WaitSynced<R, A, P> {
    type Event = WaitEvent<R, A, P>;

    type Action = WaitAction<R, A, P>;

    open spec fn awaits(self, event: WaitEvent<R, A, P>) -> bool {
        match self.phase {
            WaitPhase::Decoding => event is IdDecoded,
            WaitPhase::Waiting => event is Synced,
            WaitPhase::Encoding => event is Encoded,
            WaitPhase::Finished => false,
        }
    }

    open spec fn next(self, event: WaitEvent<R, A, P>) -> (
        WaitSynced<R, A, P>,
        WaitAction<R, A, P>,
    ) {
        let (phase, action) = match event {
            WaitEvent::IdDecoded(Ok(id)) => (WaitPhase::Waiting, WaitAction::Wait(id)),
            WaitEvent::IdDecoded(Err(err)) =>
                (WaitPhase::Finished, WaitAction::Fail(WaitFailure::DecodeId(err))),
            WaitEvent::Synced { er, asr } =>
                (WaitPhase::Encoding, WaitAction::Encode(SyncedResults { er: Some(er), asr })),
            WaitEvent::Encoded(Ok(answer)) => (WaitPhase::Finished, WaitAction::Reply(answer)),
            WaitEvent::Encoded(Err(err)) =>
                (WaitPhase::Finished, WaitAction::Fail(WaitFailure::EncodeAnswer(err))),
        };
        (WaitSynced { phase, results: self.results }, action)
    }
}

impl<R, A, P> WaitSynced<R, A, P> {
    /// Whether this is the answering of a client as it begins.
    pub open spec fn is_initial(self) -> bool {
        self.phase == WaitPhase::Decoding
    }

    /// Begins to answer: the caller decodes the id of the command.
    pub fn start() -> (res: Self)
        ensures
            res.is_initial(),
    {
        WaitSynced { phase: WaitPhase::Decoding, results: PhantomData }
    }

    /// Takes in how the last action went and says what to do next.
    pub fn step(self, event: WaitEvent<R, A, P>) -> (res: (Self, WaitAction<R, A, P>))
        requires
            self.awaits(event),
        ensures
            res == self.next(event),
    {
        let (phase, action) = match event {
            WaitEvent::IdDecoded(Ok(id)) => (WaitPhase::Waiting, WaitAction::Wait(id)),
            WaitEvent::IdDecoded(Err(err)) =>
                (WaitPhase::Finished, WaitAction::Fail(WaitFailure::DecodeId(err))),
            WaitEvent::Synced { er, asr } =>
                (WaitPhase::Encoding, WaitAction::Encode(synced_results(er, asr))),
            WaitEvent::Encoded(Ok(answer)) => (WaitPhase::Finished, WaitAction::Reply(answer)),
            WaitEvent::Encoded(Err(err)) =>
                (WaitPhase::Finished, WaitAction::Fail(WaitFailure::EncodeAnswer(err))),
        };
        (WaitSynced { phase, results: self.results }, action)
    }
}

/// Where a run stands around the event at `i`.
proof fn lemma_wait_run<R, A, P>(
    start: WaitSynced<R, A, P>,
    events: Seq<WaitEvent<R, A, P>>,
    i: int,
)
    requires
        start.is_initial(),
        is_run(start, events),
        0 <= i < events.len(),
    ensures
        i <= 2,
        events[0] is IdDecoded,
        i >= 1 ==> events[1] is Synced && events[0] matches WaitEvent::IdDecoded(Ok(_)),
        i >= 2 ==> events[2] is Encoded,
{
    assert(events.take(0) =~= Seq::empty());
    assert(after(start, events.take(0)).awaits(events[0]));
    lemma_after_step(start, events, 0);
    if i >= 1 {
        assert(after(start, events.take(1)).awaits(events[1]));
        lemma_after_step(start, events, 1);
    }
    if i >= 2 {
        assert(after(start, events.take(2)).awaits(events[2]));
        lemma_after_step(start, events, 2);
    }
    if i >= 3 {
        assert(after(start, events.take(3)).awaits(events[3]));
    }
}

/// A client is answered only once its command is synced: the command whose id it gave was
/// waited for, what is encoded are the two results that came, and the answer is what that
/// encodes to.
pub proof fn law_answer_tells_both_results<R, A, P>(
    start: WaitSynced<R, A, P>,
    events: Seq<WaitEvent<R, A, P>>,
    i: int,
    answer: P,
)
    requires
        start.is_initial(),
        is_run(start, events),
        0 <= i < events.len(),
        action_at(start, events, i) == WaitAction::<R, A, P>::Reply(answer),
    ensures
        i == 2,
        events[0] matches WaitEvent::IdDecoded(Ok(id)) && action_at(start, events, 0)
            == WaitAction::<R, A, P>::Wait(id),
        events[1] matches WaitEvent::Synced { er, asr } && action_at(start, events, 1)
            == WaitAction::<R, A, P>::Encode(SyncedResults { er: Some(er), asr }),
        events[2] == WaitEvent::<R, A, P>::Encoded(Ok(answer)),
{
    lemma_wait_run(start, events, i);
}

/// A client whose command's id cannot be decoded is told so at once: nothing is waited for.
pub proof fn law_bad_id_fails_at_once<R, A, P>(
    start: WaitSynced<R, A, P>,
    events: Seq<WaitEvent<R, A, P>>,
    err: bincode::Error,
)
    requires
        start.is_initial(),
        is_run(start, events),
        events.len() > 0,
        events[0] == WaitEvent::<R, A, P>::IdDecoded(Err(err)),
    ensures
        events.len() == 1,
        action_at(start, events, 0) == WaitAction::<R, A, P>::Fail(WaitFailure::DecodeId(err)),
{
    lemma_wait_run(start, events, events.len() - 1);
}

/// A client is told nothing but the answer or why there is none: the answering fails exactly
/// if the id cannot be decoded or the answer cannot be encoded.
pub proof fn law_wait_failure_reasons<R, A, P>(
    start: WaitSynced<R, A, P>,
    events: Seq<WaitEvent<R, A, P>>,
    i: int,
)
    requires
        start.is_initial(),
        is_run(start, events),
        0 <= i < events.len(),
    ensures
        action_at(start, events, i) matches WaitAction::Fail(WaitFailure::DecodeId(err))
            ==> events[i] == WaitEvent::<R, A, P>::IdDecoded(Err(err)),
        action_at(start, events, i) matches WaitAction::Fail(WaitFailure::EncodeAnswer(err))
            ==> events[i] == WaitEvent::<R, A, P>::Encoded(Err(err)),
        action_at(start, events, i) is Fail <==> (events[i] matches WaitEvent::IdDecoded(Err(_)))
            || (events[i] matches WaitEvent::Encoded(Err(_))),
{
    lemma_wait_run(start, events, i);
}

/// A command whose id is known is waited for, whatever its id; once it is synced both its
/// results are encoded; and what that gives is the answer. Each failure is told as it is.
pub proof fn law_client_is_answered<R, A, P>(
    start: WaitSynced<R, A, P>,
    events: Seq<WaitEvent<R, A, P>>,
    i: int,
)
    requires
        start.is_initial(),
        is_run(start, events),
        0 <= i < events.len(),
    ensures
        match events[i] {
            WaitEvent::IdDecoded(Ok(id)) => i == 0 && action_at(start, events, i) == WaitAction::<
                R,
                A,
                P,
            >::Wait(id),
            WaitEvent::IdDecoded(Err(err)) => i == 0 && action_at(start, events, i)
                == WaitAction::<R, A, P>::Fail(WaitFailure::DecodeId(err)),
            WaitEvent::Synced { er, asr } => i == 1 && action_at(start, events, i)
                == WaitAction::<R, A, P>::Encode(SyncedResults { er: Some(er), asr }),
            WaitEvent::Encoded(Ok(answer)) => i == 2 && action_at(start, events, i)
                == WaitAction::<R, A, P>::Reply(answer),
            WaitEvent::Encoded(Err(err)) => i == 2 && action_at(start, events, i) == WaitAction::<
                R,
                A,
                P,
            >::Fail(WaitFailure::EncodeAnswer(err)),
        },
{
    lemma_wait_run(start, events, i);
}

/// Every action is answered by how it went and by nothing else, an answer or a failure by
/// nothing at all. The answering begins with the id.
pub proof fn law_each_wait_action_is_answered<R, A, P>(
    start: WaitSynced<R, A, P>,
    events: Seq<WaitEvent<R, A, P>>,
    event: WaitEvent<R, A, P>,
)
    requires
        start.is_initial(),
        is_run(start, events),
    ensures
        events.len() == 0 ==> (after(start, events).awaits(event) <==> event is IdDecoded),
        events.len() > 0 ==> (after(start, events).awaits(event) <==> match action_at(
            start,
            events,
            events.len() - 1,
        ) {
            WaitAction::Wait(_) => event is Synced,
            WaitAction::Encode(_) => event is Encoded,
            WaitAction::Reply(_) => false,
            WaitAction::Fail(_) => false,
        }),
{
    if events.len() > 0 {
        let n = events.len() - 1;
        assert(events.take(n) =~= events.drop_last());
        assert(after(start, events.take(n)).awaits(events[n]));
    }
}

} // verus!
