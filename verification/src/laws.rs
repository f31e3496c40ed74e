//! What holds of every run of the dispatch loop.

use crate::client::{launch_for, run_spec, step_spec, ActionModel, ClientError, LoopState, result_of};
use crate::event::{EventModel, EventSourceError, ReceivedModel};
use crate::session::SessionModel;
use crate::target::TargetModel;
use vstd::prelude::*;

verus! {

/// Whether every receive of the run gave an event.
pub open spec fn none_failed(received: Seq<ReceivedModel>) -> bool {
    forall|i: int| 0 <= i < received.len() ==> (#[trigger] received[i]) is Ok
}

/// Whether every receive of the run gave an event, and none of them the
/// publish of an RTMP stream.
pub open spec fn all_quiet(received: Seq<ReceivedModel>) -> bool {
    forall|i: int|
        0 <= i < received.len() ==> ((#[trigger] received[i]) matches Ok(event)
            && !event.is_rtmp_publish())
}

/// Whether every receive of the run gave the publish of an RTMP stream.
pub open spec fn all_publish(received: Seq<ReceivedModel>) -> bool {
    forall|i: int|
        0 <= i < received.len() ==> ((#[trigger] received[i]) matches Ok(event)
            && event.is_rtmp_publish())
}

/// An event that is not the publish of an RTMP stream is discarded: nothing
/// is launched for it, and the loop goes on listening.
pub proof fn lemma_other_event_is_discarded(target: TargetModel, event: EventModel)
    requires
        !event.is_rtmp_publish(),
    ensures
        step_spec(target, LoopState::Listening, Ok(event)) == (
            LoopState::Listening,
            ActionModel::Discard,
        ),
{
}

/// The publish of an RTMP stream launches the session for that stream to the
/// client's target, and the loop goes on listening.
pub proof fn lemma_publish_is_launched(target: TargetModel, event: EventModel)
    requires
        event.is_rtmp_publish(),
    ensures
        launch_for(target, event) is Some,
        launch_for(target, event)->Some_0.address == target.address(),
        launch_for(target, event)->Some_0.retry_count == 0,
        step_spec(target, LoopState::Listening, Ok(event)) == (
            LoopState::Listening,
            ActionModel::Launch(launch_for(target, event)->Some_0),
        ),
{
}

/// However many events arrive, as long as none of them is the publish of an
/// RTMP stream nothing is launched and the loop goes on listening.
pub proof fn lemma_quiet_run_launches_nothing(target: TargetModel, received: Seq<ReceivedModel>)
    requires
        all_quiet(received),
    ensures
        run_spec(target, LoopState::Listening, received) == (
            LoopState::Listening,
            Seq::<SessionModel>::empty(),
        ),
    decreases received.len(),
{
    if received.len() > 0 {
        lemma_quiet_run_launches_nothing(target, received.drop_last());
        assert(received.last() == received[received.len() - 1]);
    }
}

/// The publish of an RTMP stream launches exactly one session, however many
/// other events came before it.
pub proof fn lemma_publish_after_quiet_run_launches_once(
    target: TargetModel,
    before: Seq<ReceivedModel>,
    event: EventModel,
)
    requires
        all_quiet(before),
        event.is_rtmp_publish(),
    ensures
        run_spec(target, LoopState::Listening, before.push(Ok(event))) == (
            LoopState::Listening,
            seq![launch_for(target, event)->Some_0],
        ),
{
    lemma_quiet_run_launches_nothing(target, before);
    assert(before.push(Ok(event)).drop_last() =~= before);
    assert(Seq::<SessionModel>::empty().push(launch_for(target, event)->Some_0) =~= seq![
        launch_for(target, event)->Some_0,
    ]);
}

/// As long as no receive fails the loop goes on listening, whatever it
/// launched on the way: a run depends on what was received and on nothing
/// else, so no launched session, whatever becomes of it, can end the loop.
pub proof fn lemma_loop_listens_until_a_receive_fails(
    target: TargetModel,
    received: Seq<ReceivedModel>,
)
    requires
        none_failed(received),
    ensures
        run_spec(target, LoopState::Listening, received).0 == LoopState::Listening,
        result_of(run_spec(target, LoopState::Listening, received).0) == Ok::<(), ClientError>(()),
    decreases received.len(),
{
    if received.len() > 0 {
        lemma_loop_listens_until_a_receive_fails(target, received.drop_last());
        assert(received.last() == received[received.len() - 1]);
    }
}

/// A run of publishes launches as many sessions as it has events: each
/// event its own session, in the order of arrival, and each session what it
/// would be had its event come alone.
pub proof fn lemma_every_publish_is_launched(target: TargetModel, received: Seq<ReceivedModel>)
    requires
        all_publish(received),
    ensures
        run_spec(target, LoopState::Listening, received) == (
            LoopState::Listening,
            Seq::new(received.len(), |i: int| launch_for(target, received[i]->Ok_0)->Some_0),
        ),
    decreases received.len(),
{
    let launched = Seq::new(received.len(), |i: int| launch_for(target, received[i]->Ok_0)->Some_0);
    if received.len() == 0 {
        assert(launched =~= Seq::<SessionModel>::empty());
    } else {
        let before = received.drop_last();
        lemma_every_publish_is_launched(target, before);
        assert(received.last() == received[received.len() - 1]);
        let sooner = Seq::new(before.len(), |i: int| launch_for(target, before[i]->Ok_0)->Some_0);
        assert(launched =~= sooner.push(launch_for(target, received.last()->Ok_0)->Some_0));
    }
}

/// The first failed receive ends the run: the loop has failed with that
/// error, the run reports it, and what was received afterwards changes
/// neither the state nor what was launched.
pub proof fn lemma_run_ends_at_first_failure(
    target: TargetModel,
    before: Seq<ReceivedModel>,
    error: EventSourceError,
    after: Seq<ReceivedModel>,
)
    requires
        none_failed(before),
    ensures
        run_spec(target, LoopState::Listening, before.push(Err(error)) + after) == (
            LoopState::Failed(error),
            run_spec(target, LoopState::Listening, before).1,
        ),
        result_of(run_spec(target, LoopState::Listening, before.push(Err(error)) + after).0)
            == Err::<(), ClientError>(ClientError::EventSource(error)),
{
    let until = before.push(Err(error));
    let launched = run_spec(target, LoopState::Listening, before).1;
    lemma_loop_listens_until_a_receive_fails(target, before);
    assert(until.drop_last() =~= before);
    crate::client::lemma_run_in_two(target, LoopState::Listening, until, after);
    crate::client::lemma_failed_stays_failed(target, error, after);
    assert(launched + Seq::<SessionModel>::empty() =~= launched);
}

} // verus!
