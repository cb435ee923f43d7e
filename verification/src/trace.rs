//! Traces: whole histories of requests and reports, and the laws that hold
//! across them.
//!
//! A trace is a sequence of events, each either a request registering a
//! completion or a producer report. The transition functions of `Model` are
//! lifted to traces here, together with the completions each event invokes
//! and what each of them observes; memoization and stickiness are then
//! statements about arbitrary traces.

use vstd::prelude::*;

use crate::model::holds_success;
use crate::model::Model;
use crate::model::Phase;

verus! {

/// One call into the cell: a request registering completion `C`, or the
/// producer reporting an outcome.
pub enum Event<T, E, C> {
    Run(C),
    Cache(Result<T, E>),
}

/// State after one event.
pub open spec fn after_event<T, E, C>(m: Model<T, E, C>, event: Event<T, E, C>) -> Model<
    T,
    E,
    C,
> {
    match event {
        Event::Run(callback) => m.after_run(callback),
        Event::Cache(outcome) => m.after_cache(outcome),
    }
}

/// State after a trace of events, oldest first.
pub open spec fn after_events<T, E, C>(m: Model<T, E, C>, events: Seq<Event<T, E, C>>) -> Model<
    T,
    E,
    C,
>
    decreases events.len(),
{
    if events.len() == 0 {
        m
    } else {
        after_events(after_event(m, events[0]), events.skip(1))
    }
}

/// Whether an event launches the producer: only a request finding the cell
/// idle does.
pub open spec fn event_launches<T, E, C>(m: Model<T, E, C>, event: Event<T, E, C>) -> bool {
    event is Run && m.launches()
}

/// How often a trace launches the producer.
pub open spec fn trace_launch_count<T, E, C>(
    m: Model<T, E, C>,
    events: Seq<Event<T, E, C>>,
) -> nat
    decreases events.len(),
{
    if events.len() == 0 {
        0
    } else {
        (if event_launches(m, events[0]) {
            1nat
        } else {
            0nat
        }) + trace_launch_count(after_event(m, events[0]), events.skip(1))
    }
}

/// The completions one event invokes, each paired with the outcome it
/// observes: a report hands its outcome (or, were a success already cached,
/// that success) to every drained waiter, and a request finding the cell
/// settled observes the cached success at once.
pub open spec fn event_observations<T, E, C>(m: Model<T, E, C>, event: Event<T, E, C>) -> Seq<
    (C, Result<T, E>),
> {
    match event {
        Event::Run(callback) => {
            if m.phase is Settled {
                seq![(callback, m.cache.unwrap())]
            } else {
                Seq::empty()
            }
        },
        Event::Cache(outcome) => {
            let observed = if holds_success(m.cache) {
                m.cache.unwrap()
            } else {
                outcome
            };
            m.drained().map_values(|callback: C| (callback, observed))
        },
    }
}

/// Every completion a trace invokes, in order, each with the outcome it
/// observes.
pub open spec fn trace_observations<T, E, C>(
    m: Model<T, E, C>,
    events: Seq<Event<T, E, C>>,
) -> Seq<(C, Result<T, E>)>
    decreases events.len(),
{
    if events.len() == 0 {
        Seq::empty()
    } else {
        event_observations(m, events[0]) + trace_observations(
            after_event(m, events[0]),
            events.skip(1),
        )
    }
}

/// A trace without failure reports.
pub open spec fn only_success_reports<T, E, C>(events: Seq<Event<T, E, C>>) -> bool {
    forall|i: int|
        0 <= i < events.len() ==> (#[trigger] events[i] matches Event::Cache(outcome) ==> outcome
            is Ok)
}

/// Every completion invoked observes exactly `outcome`.
pub open spec fn all_observe<T, E, C>(
    observations: Seq<(C, Result<T, E>)>,
    outcome: Result<T, E>,
) -> bool {
    forall|i: int| 0 <= i < observations.len() ==> (#[trigger] observations[i]).1 == outcome
}

/// The trace of one round: any number of requests, oldest first, then the
/// producer's report.
pub open spec fn round_events<T, E, C>(callbacks: Seq<C>, outcome: Result<T, E>) -> Seq<
    Event<T, E, C>,
> {
    callbacks.map_values(|callback: C| Event::Run(callback)).push(Event::Cache(outcome))
}

/// Every event preserves the cell's invariant.
pub proof fn lemma_event_preserves_wf<T, E, C>(m: Model<T, E, C>, event: Event<T, E, C>)
    requires
        m.wf(),
    ensures
        after_event(m, event).wf(),
{
}

/// Settlement is absorbing (sticky success, across whole traces): once a
/// success is cached, any trace whatever — stray reports and failures
/// included — leaves the cell exactly as it is, never launches the producer
/// again, and every completion it invokes observes that cached success.
pub proof fn lemma_settled_absorbing<T, E, C>(m: Model<T, E, C>, events: Seq<Event<T, E, C>>)
    requires
        m.wf(),
        m.phase is Settled,
    ensures
        after_events(m, events) == m,
        trace_launch_count(m, events) == 0,
        all_observe(trace_observations(m, events), m.cache.unwrap()),
    decreases events.len(),
{
    if events.len() > 0 {
        let next = after_event(m, events[0]);
        assert(m.waiters =~= Seq::<C>::empty());
        assert(next =~= m);
        lemma_settled_absorbing(m, events.skip(1));
        match events[0] {
            Event::Run(_) => {},
            Event::Cache(_) => {
                assert(event_observations(m, events[0]) =~= Seq::<(C, Result<T, E>)>::empty());
            },
        }
    }
}

/// Memoization across whole traces: under requests and success reports the
/// producer is launched at most once — and not at all once a round is in
/// flight or settled — and there is one success value that every completion
/// invoked anywhere in the trace observes, the value the cell has cached from
/// the first observation on.
pub proof fn lemma_memoization_trace<T, E, C>(m: Model<T, E, C>, events: Seq<Event<T, E, C>>)
    requires
        m.wf(),
        only_success_reports(events),
    ensures
        after_events(m, events).wf(),
        trace_launch_count(m, events) <= (if m.phase is Idle {
            1nat
        } else {
            0nat
        }),
        exists|outcome: Result<T, E>|
            {
                &&& outcome is Ok
                &&& #[trigger] all_observe(trace_observations(m, events), outcome)
                &&& trace_observations(m, events).len() > 0 ==> after_events(m, events).cache
                    == Some(outcome)
            },
    decreases events.len(),
{
    let observations = trace_observations(m, events);
    if events.len() == 0 {
        let witness = Ok::<T, E>(arbitrary());
        assert(all_observe(observations, witness));
    } else if m.phase is Settled {
        lemma_settled_absorbing(m, events);
        let witness = m.cache.unwrap();
        assert(all_observe(observations, witness) && witness is Ok && (observations.len() > 0
            ==> after_events(m, events).cache == Some(witness)));
    } else {
        let next = after_event(m, events[0]);
        lemma_event_preserves_wf(m, events[0]);
        assert(only_success_reports(events.skip(1))) by {
            assert(forall|i: int|
                0 <= i < events.skip(1).len() ==> #[trigger] events.skip(1)[i] == events[i + 1]);
        }
        match events[0] {
            Event::Run(_) => {
                lemma_memoization_trace(next, events.skip(1));
                assert(event_observations(m, events[0]) =~= Seq::<(C, Result<T, E>)>::empty());
                assert(observations =~= trace_observations(next, events.skip(1)));
                let tail_witness = choose|outcome: Result<T, E>|
                    {
                        &&& outcome is Ok
                        &&& #[trigger] all_observe(
                            trace_observations(next, events.skip(1)),
                            outcome,
                        )
                        &&& trace_observations(next, events.skip(1)).len() > 0 ==> after_events(
                            next,
                            events.skip(1),
                        ).cache == Some(outcome)
                    };
                assert(all_observe(observations, tail_witness));
            },
            Event::Cache(outcome) => {
                assert(outcome is Ok);
                lemma_settled_absorbing(next, events.skip(1));
                assert(next.cache == Some(outcome));
                let head = event_observations(m, events[0]);
                let tail = trace_observations(next, events.skip(1));
                assert(all_observe(head, outcome)) by {
                    assert(forall|i: int|
                        0 <= i < head.len() ==> (#[trigger] head[i]).1 == outcome);
                }
                assert(all_observe(observations, outcome)) by {
                    assert(forall|i: int|
                        0 <= i < observations.len() ==> (#[trigger] observations[i]) == (if i
                            < head.len() {
                            head[i]
                        } else {
                            tail[i - head.len()]
                        }));
                }
                assert(after_events(m, events).cache == Some(outcome));
            },
        }
    }
}

/// While a round is in flight, a round trace launches nothing until its
/// report, which notifies the queued waiters and the round's own callers,
/// newest first, each with the reported outcome.
pub proof fn lemma_pending_round<T, E, C>(
    m: Model<T, E, C>,
    callbacks: Seq<C>,
    outcome: Result<T, E>,
)
    requires
        m.wf(),
        m.phase is Pending,
    ensures
        ({
            let events = round_events(callbacks, outcome);
            &&& trace_launch_count(m, events) == 0
            &&& trace_observations(m, events) == (m.waiters + callbacks).reverse().map_values(
                |callback: C| (callback, outcome),
            )
            &&& after_events(m, events) == (Model {
                phase: if outcome is Ok {
                    Phase::Settled
                } else {
                    Phase::Idle
                },
                waiters: Seq::<C>::empty(),
                cache: Some(outcome),
            })
        }),
    decreases callbacks.len(),
{
    let events = round_events(callbacks, outcome);
    if callbacks.len() == 0 {
        assert(events =~= seq![Event::<T, E, C>::Cache(outcome)]);
        assert(m.waiters + callbacks =~= m.waiters);
        let next = after_event(m, events[0]);
        assert(events.skip(1).len() == 0);
        assert(trace_observations(next, events.skip(1)) =~= Seq::<(C, Result<T, E>)>::empty());
        assert(trace_observations(m, events) =~= event_observations(m, events[0]));
        assert(trace_observations(m, events) =~= (m.waiters + callbacks).reverse().map_values(
            |callback: C| (callback, outcome),
        ));
        assert(after_events(next, events.skip(1)) == next);
        assert(after_events(m, events) =~= m.after_cache(outcome));
        assert(trace_launch_count(next, events.skip(1)) == 0);
        assert(!event_launches(m, events[0]));
    } else {
        let next = m.after_run(callbacks[0]);
        assert(events[0] == Event::<T, E, C>::Run(callbacks[0]));
        lemma_pending_round(next, callbacks.skip(1), outcome);
        assert(events.skip(1) =~= round_events(callbacks.skip(1), outcome));
        assert(next.waiters + callbacks.skip(1) =~= m.waiters + callbacks);
        assert(trace_observations(m, events) =~= trace_observations(next, events.skip(1)));
    }
}

/// Single flight: of any number of callers requesting while the cell is
/// idle, exactly the first launches the producer; when that one round
/// reports, every caller — no one else, no one twice — is notified with the
/// round's outcome, and the cell settles on success or returns to idle on
/// failure.
pub proof fn lemma_single_flight<T, E, C>(
    m: Model<T, E, C>,
    callbacks: Seq<C>,
    outcome: Result<T, E>,
)
    requires
        m.wf(),
        m.phase is Idle,
        callbacks.len() > 0,
    ensures
        ({
            let events = round_events(callbacks, outcome);
            &&& trace_launch_count(m, events) == 1
            &&& trace_observations(m, events) == callbacks.reverse().map_values(
                |callback: C| (callback, outcome),
            )
            &&& trace_observations(m, events).map_values(
                |observation: (C, Result<T, E>)| observation.0,
            ).to_multiset() == callbacks.to_multiset()
            &&& after_events(m, events).wf()
            &&& (outcome is Ok <==> after_events(m, events).phase is Settled)
            &&& (outcome is Err <==> after_events(m, events).phase is Idle)
        }),
{
    let events = round_events(callbacks, outcome);
    let next = m.after_run(callbacks[0]);
    assert(events[0] == Event::<T, E, C>::Run(callbacks[0]));
    lemma_pending_round(next, callbacks.skip(1), outcome);
    assert(events.skip(1) =~= round_events(callbacks.skip(1), outcome));
    assert(next.waiters + callbacks.skip(1) =~= callbacks);
    assert(trace_observations(m, events) =~= trace_observations(next, events.skip(1)));
    assert(trace_observations(m, events).map_values(
        |observation: (C, Result<T, E>)| observation.0,
    ) =~= callbacks.reverse());
    callbacks.lemma_reverse_to_multiset();
}

} // verus!
