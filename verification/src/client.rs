//! The push client's dispatch loop, one receive at a time.
//!
//! The loop listens on the hub's broadcast channel. Each publish of an RTMP
//! stream launches one push session to the resolved target; every other
//! event is discarded; the first failure of the channel ends the loop for
//! good. Whoever drives the client does the waiting: it hands in what a
//! receive gave and carries out the action that comes back, without waiting
//! for a launched session before the next receive.

use crate::event::{
    received_model, received_models, BroadcastEvent, EventModel, EventSourceError,
    IdentifierModel, Received, ReceivedModel, StreamIdentifier,
};
use crate::session::{session_for, session_models, PushSession, SessionModel};
use crate::target::{
    resolve_spec, PushTarget, TargetModel, TargetParseError, DEFAULT_RTMP_PORT,
};
use vstd::prelude::*;

verus! {

/// Why the client could not start, or why it stopped.
#[derive(Clone, Copy, Debug, PartialEq, Eq, Structural)]
pub enum ClientError {
    /// The push URL was refused.
    TargetParse(TargetParseError),
    /// The hub's broadcast channel failed.
    EventSource(EventSourceError),
}

/// Where the dispatch loop stands between two receives.
#[derive(Clone, Copy, Debug, PartialEq, Eq, Structural)]
pub enum LoopState {
    /// Waiting for the next event.
    Listening,
    /// The channel failed with this error. Nothing leads out of this state.
    Failed(EventSourceError),
}

/// What the driver of the loop is to do after a receive.
#[derive(Clone, Debug, PartialEq, Eq)]
pub enum Action {
    /// Open a connection and start this session on a task of its own.
    Launch(PushSession),
    /// Nothing: the event is of no concern.
    Discard,
    /// Stop receiving and give up with this error.
    Halt(ClientError),
}

/// An `Action` as plain values.
pub enum ActionModel {
    Launch(SessionModel),
    Discard,
    Halt(ClientError),
}

impl View for Action {
    type V = ActionModel;

    open spec fn view(&self) -> ActionModel {
        match *self {
            Action::Launch(session) => ActionModel::Launch(session@),
            Action::Discard => ActionModel::Discard,
            Action::Halt(error) => ActionModel::Halt(error),
        }
    }
}

/// The session that `event` calls for, if it calls for one.
pub open spec fn launch_for(target: TargetModel, event: EventModel) -> Option<SessionModel> {
    match event {
        EventModel::Publish { identifier: IdentifierModel::Rtmp { app_name, stream_name } } => Some(
            session_for(target, app_name, stream_name),
        ),
        _ => None,
    }
}

/// One turn of the loop: the state after a receive, and what to do about it.
pub open spec fn step_spec(target: TargetModel, state: LoopState, received: ReceivedModel) -> (
    LoopState,
    ActionModel,
) {
    match state {
        LoopState::Failed(error) => (state, ActionModel::Halt(ClientError::EventSource(error))),
        LoopState::Listening => match received {
            Err(error) => (
                LoopState::Failed(error),
                ActionModel::Halt(ClientError::EventSource(error)),
            ),
            Ok(event) => match launch_for(target, event) {
                Some(session) => (LoopState::Listening, ActionModel::Launch(session)),
                None => (LoopState::Listening, ActionModel::Discard),
            },
        },
    }
}

/// The loop over a run of receives: the state it ends in, and the sessions
/// it launches on the way, in order.
pub open spec fn run_spec(target: TargetModel, state: LoopState, received: Seq<ReceivedModel>) -> (
    LoopState,
    Seq<SessionModel>,
)
    decreases received.len(),
{
    if received.len() == 0 {
        (state, Seq::empty())
    } else {
        let (before, launched) = run_spec(target, state, received.drop_last());
        match step_spec(target, before, received.last()) {
            (after, ActionModel::Launch(session)) => (after, launched.push(session)),
            (after, _) => (after, launched),
        }
    }
}

/// What a run of the loop reports when it ends in `state`.
pub open spec fn result_of(state: LoopState) -> Result<(), ClientError> {
    match state {
        LoopState::Listening => Ok(()),
        LoopState::Failed(error) => Err(ClientError::EventSource(error)),
    }
}

/// After a failure, the loop takes no notice of further receives.
pub proof fn lemma_failed_stays_failed(
    target: TargetModel,
    error: EventSourceError,
    received: Seq<ReceivedModel>,
)
    ensures
        run_spec(target, LoopState::Failed(error), received) == (
            LoopState::Failed(error),
            Seq::<SessionModel>::empty(),
        ),
    decreases received.len(),
{
    if received.len() > 0 {
        lemma_failed_stays_failed(target, error, received.drop_last());
    }
}

/// A run over `first` followed by `second` is a run over `first`, then one
/// over `second` from the state the first ended in.
pub proof fn lemma_run_in_two(
    target: TargetModel,
    state: LoopState,
    first: Seq<ReceivedModel>,
    second: Seq<ReceivedModel>,
)
    ensures
        run_spec(target, state, first + second) == ({
            let (between, launched) = run_spec(target, state, first);
            let (after, more) = run_spec(target, between, second);
            (after, launched + more)
        }),
    decreases second.len(),
{
    let (between, launched) = run_spec(target, state, first);
    if second.len() == 0 {
        assert(first + second =~= first);
        assert(launched + Seq::<SessionModel>::empty() =~= launched);
    } else {
        lemma_run_in_two(target, state, first, second.drop_last());
        assert((first + second).drop_last() =~= first + second.drop_last());
        assert((first + second).last() == second.last());
        let (before, some) = run_spec(target, between, second.drop_last());
        match step_spec(target, before, second.last()) {
            (_, ActionModel::Launch(session)) => {
                assert((launched + some).push(session) =~= launched + some.push(session));
            },
            _ => {},
        }
    }
}

/// The relay push client: the target it pushes to, and the state of its
/// dispatch loop.
pub struct BiliBiliPushClient {
    target: PushTarget,
    state: LoopState,
}

impl BiliBiliPushClient {
    #[verifier::type_invariant]
    spec fn target_is_well_formed(self) -> bool {
        self.target@.well_formed()
    }

    /// The target that the client pushes to.
    pub closed spec fn target_model(&self) -> TargetModel {
        self.target@
    }

    /// The state of the dispatch loop.
    pub closed spec fn state_model(&self) -> LoopState {
        self.state
    }

    /// Makes a client that pushes to `url`, with the protocol's port where
    /// the URL names none. The URL is resolved here, once; a URL that does
    /// not resolve is reported and no client is made.
    pub fn new(url: String) -> (made: Result<BiliBiliPushClient, ClientError>)
        ensures
            match made {
                Ok(client) => {
                    &&& resolve_spec(url@, DEFAULT_RTMP_PORT) == Ok::<
                        TargetModel,
                        TargetParseError,
                    >(client.target_model())
                    &&& client.target_model().well_formed()
                    &&& client.state_model() == LoopState::Listening
                },
                Err(error) => error matches ClientError::TargetParse(reason) && resolve_spec(
                    url@,
                    DEFAULT_RTMP_PORT,
                ) == Err::<TargetModel, TargetParseError>(reason),
            },
    {
        match PushTarget::resolve(url.as_str(), DEFAULT_RTMP_PORT) {
            Ok(target) => Ok(BiliBiliPushClient { target, state: LoopState::Listening }),
            Err(reason) => Err(ClientError::TargetParse(reason)),
        }
    }

    /// The target that the client pushes to.
    pub fn target(&self) -> (target: &PushTarget)
        ensures
            target@ == self.target_model(),
            target@.well_formed(),
    {
        proof {
            use_type_invariant(self);
        }
        &self.target
    }

    /// The state of the dispatch loop.
    pub fn state(&self) -> (state: LoopState)
        ensures
            state == self.state_model(),
    {
        self.state
    }

    /// Takes one turn of the loop on what a receive gave.
    ///
    /// While listening, the publish of an RTMP stream is answered with the
    /// launch of one session for it, any other event with a discard, and a
    /// failed receive with a halt, after which the client has failed. A
    /// failed client answers everything with a halt for the error that made
    /// it fail.
    pub fn dispatch(&mut self, received: Received) -> (action: Action)
        ensures
            final(self).target_model() == old(self).target_model(),
            (final(self).state_model(), action@) == step_spec(
                old(self).target_model(),
                old(self).state_model(),
                received_model(received),
            ),
    {
        proof {
            use_type_invariant(&*self);
        }
        match self.state {
            LoopState::Failed(error) => Action::Halt(ClientError::EventSource(error)),
            LoopState::Listening => match received {
                Err(error) => {
                    self.state = LoopState::Failed(error);
                    Action::Halt(ClientError::EventSource(error))
                },
                Ok(BroadcastEvent::Publish {
                    identifier: StreamIdentifier::Rtmp { app_name, stream_name },
                }) => Action::Launch(PushSession::new(&self.target, app_name, stream_name)),
                Ok(_) => Action::Discard,
            },
        }
    }

    /// Runs the loop over what a run of receives gave, in order, up to the
    /// first failure; what was received after a failure is not looked at.
    ///
    /// Returns the sessions to launch, in the order of their events, and
    /// `Ok` if the client is still listening, else the error that ended the
    /// loop.
    pub fn run(&mut self, received: Vec<Received>) -> (outcome: (
        Vec<PushSession>,
        Result<(), ClientError>,
    ))
        ensures
            final(self).target_model() == old(self).target_model(),
            (final(self).state_model(), session_models(outcome.0@)) == run_spec(
                old(self).target_model(),
                old(self).state_model(),
                received_models(received@),
            ),
            outcome.1 == result_of(final(self).state_model()),
    {
        let ghost target = self.target_model();
        let ghost start = self.state_model();
        let ghost all = received_models(received@);
        let mut launches: Vec<PushSession> = Vec::new();
        if let LoopState::Failed(error) = self.state {
            proof {
                lemma_failed_stays_failed(target, error, all);
            }
            return (launches, Err(ClientError::EventSource(error)));
        }
        assert(all.take(0) =~= Seq::<ReceivedModel>::empty());
        for one in it: received
            invariant
                it.seq() == received@,
                all == received_models(received@),
                target == old(self).target_model(),
                start == old(self).state_model(),
                self.target_model() == target,
                self.state_model() == LoopState::Listening,
                (LoopState::Listening, session_models(launches@)) == run_spec(
                    target,
                    start,
                    all.take(it.index()),
                ),
        {
            let ghost seen = all.take(it.index() + 1);
            let ghost before = session_models(launches@);
            proof {
                assert(seen.drop_last() =~= all.take(it.index()));
                assert(seen.last() == received_model(one));
            }
            match self.dispatch(one) {
                Action::Launch(session) => {
                    launches.push(session);
                    assert(session_models(launches@) =~= before.push(session@));
                },
                Action::Discard => {},
                Action::Halt(error) => {
                    proof {
                        let rest = all.skip(it.index() + 1);
                        assert(seen + rest =~= all);
                        lemma_run_in_two(target, start, seen, rest);
                        lemma_failed_stays_failed(target, self.state_model()->Failed_0, rest);
                        assert(before + Seq::<SessionModel>::empty() =~= before);
                    }
                    return (launches, Err(error));
                },
            }
        }
        assert(all.take(all.len() as int) =~= all);
        (launches, Ok(()))
    }
}

} // verus!
