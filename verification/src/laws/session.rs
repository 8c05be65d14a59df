//! A session: the requests that a provider takes one after another.

use vstd::prelude::*;

use crate::prepare::PreparedSnapshot;
use crate::protocol::refusal;
use crate::provider::ProviderView;
use crate::score::{after_score, score_refusal, ScoreReady};

verus! {

/// What happened to a provider.
pub ghost enum Event<'a, C> {
    /// A preparation succeeded, and its snapshot was installed.
    Prepared(PreparedSnapshot<C>),
    /// A preparation failed.
    Failed,
    /// A score request was answered.
    Scored(ScoreReady<'a>),
    /// The manifest was asked for, or a request was refused.
    Passed,
    /// The session was closed.
    Closed,
}

/// The provider after an event.
pub open spec fn after_event<'a, C>(
    provider: ProviderView<C>,
    event: Event<'a, C>,
) -> ProviderView<C> {
    match event {
        Event::Prepared(snapshot) => ProviderView::<C>::cleared().with_snapshot(snapshot),
        Event::Scored(ready) => after_score(provider, ready),
        Event::Passed => provider,
        Event::Failed | Event::Closed => ProviderView::<C>::cleared(),
    }
}

/// A provider after the events of a session, which it began without a snapshot.
pub open spec fn after_session<'a, C>(events: Seq<Event<'a, C>>) -> ProviderView<C>
    decreases events.len(),
{
    if events.len() == 0 {
        ProviderView::<C>::cleared()
    } else {
        after_event(after_session(events.drop_last()), events.last())
    }
}

/// A successful preparation is the latest of the preparations and closings.
pub open spec fn holds_snapshot<'a, C>(events: Seq<Event<'a, C>>) -> bool {
    exists|i: int|
        0 <= i < events.len() && (#[trigger] events[i]) is Prepared && forall|j: int|
            i < j < events.len() ==> (#[trigger] events[j]) is Scored || events[j] is Passed
}

/// Score requests are refused as not prepared exactly while no successful
/// preparation is the latest of the preparations and closings, and never for want
/// of a snapshot.
pub proof fn law_sessions_score_while_they_hold_a_snapshot<'a, C>(events: Seq<Event<'a, C>>)
    ensures
        score_refusal(after_session(events)) == if holds_snapshot(events) {
            None
        } else {
            Some(refusal("NOT_PREPARED"@, "provider must receive prepare before score"@, false))
        },
{
    lemma_holds_snapshot(events);
}

proof fn lemma_holds_snapshot<'a, C>(events: Seq<Event<'a, C>>)
    ensures
        after_session(events).prepared == holds_snapshot(events),
        after_session(events).prepared == (after_session(events).connection is Some),
    decreases events.len(),
{
    if events.len() > 0 {
        let earlier = events.drop_last();
        let last = events.len() - 1;
        lemma_holds_snapshot(earlier);
        if holds_snapshot(events) {
            let i = choose|i: int|
                0 <= i < events.len() && (#[trigger] events[i]) is Prepared && forall|j: int|
                    i < j < events.len() ==> (#[trigger] events[j]) is Scored || events[j] is Passed;
            if i < last {
                assert(events[last] is Scored || events[last] is Passed);
                assert(earlier[i] is Prepared);
                assert forall|j: int| i < j < earlier.len() implies (#[trigger] earlier[j]) is Scored
                    || earlier[j] is Passed by {
                    assert(events[j] is Scored || events[j] is Passed);
                }
                assert(holds_snapshot(earlier));
            }
        }
        if after_session(events).prepared {
            if events.last() is Prepared {
                assert(events[last] is Prepared);
                assert(holds_snapshot(events));
            } else {
                let i = choose|i: int|
                    0 <= i < earlier.len() && (#[trigger] earlier[i]) is Prepared && forall|j: int|
                        i < j < earlier.len() ==> (#[trigger] earlier[j]) is Scored
                            || earlier[j] is Passed;
                assert(events[i] is Prepared);
                assert forall|j: int| i < j < events.len() implies (#[trigger] events[j]) is Scored
                    || events[j] is Passed by {
                    if j < last {
                        assert(earlier[j] is Scored || earlier[j] is Passed);
                    }
                }
                assert(holds_snapshot(events));
            }
        }
    }
}

} // verus!
