//! The per-transition laws of the cell.
//!
//! `Thunky::run` and `Thunky::cache` are proved to follow `Model::after_run`
//! and `Model::after_cache` exactly, so what is proved here of the transition
//! functions holds of any call on a cell. The laws over whole histories of
//! calls — memoization, single flight, absorbing settlement — are in
//! `crate::trace`.

use vstd::prelude::*;

use crate::model::holds_success;
use crate::model::Model;

verus! {

/// Retry after failure: a failed round resets the cell to idle with the
/// failure cached, and the very next request launches a fresh round.
pub proof fn lemma_retry_after_failure<T, E, C>(
    m: Model<T, E, C>,
    outcome: Result<T, E>,
    callback: C,
)
    requires
        m.wf(),
        m.phase is Pending,
        outcome is Err,
    ensures
        ({
            let failed = m.after_cache(outcome);
            &&& failed.phase is Idle
            &&& failed.cache == Some(outcome)
            &&& failed.wf()
            &&& failed.launches()
            &&& failed.after_run(callback).phase is Pending
            &&& failed.after_run(callback).wf()
        }),
{
}

/// Sticky success: once a success is cached, one more report — success or
/// failure — leaves the cell exactly as it was, cached success and settled
/// phase included.
pub proof fn lemma_sticky_success<T, E, C>(m: Model<T, E, C>, outcome: Result<T, E>)
    requires
        m.wf(),
        holds_success(m.cache),
    ensures
        m.after_cache(outcome) == m,
        m.phase is Settled,
{
    assert(m.waiters =~= Seq::<C>::empty());
    assert(m.after_cache(outcome) =~= m);
}

/// Every waiter is notified exactly once: a report drains a sequence holding
/// precisely the queued completions (as many, and each exactly as often as it
/// was queued), and leaves the queue empty.
pub proof fn lemma_every_waiter_notified<T, E, C>(m: Model<T, E, C>, outcome: Result<T, E>)
    ensures
        m.drained().to_multiset() == m.waiters.to_multiset(),
        m.drained().len() == m.waiters.len(),
        m.after_cache(outcome).waiters == Seq::<C>::empty(),
{
    m.waiters.lemma_reverse_to_multiset();
    broadcast use vstd::seq_lib::group_to_multiset_ensures;

    assert(m.drained().to_multiset() =~= m.waiters.to_multiset());
}

} // verus!
