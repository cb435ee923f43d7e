//! The executable cell and its two operations.

use vstd::prelude::*;

use crate::model::holds_success;
use crate::model::Model;
use crate::model::Phase;

verus! {

/// What a request asks its caller to do next.
///
/// `Launch` means the callback was queued and the caller must invoke the
/// producer exactly once; `Queued` means the callback joined an in-flight
/// round; `Ready` hands the callback back so the caller invokes it at once
/// with the cached success.
pub enum Action<C> {
    Launch,
    Queued,
    Ready(C),
}

/// A single-flight memoization cell.
///
/// `T` and `E` are the producer's success and failure types, opaque to the
/// cell; `C` is the caller's completion token (an id, or a boxed callback in
/// an unverified driver). The cell is a sequential state machine: a driver
/// that needs it from several threads serializes access to it.
pub struct Thunky<T, E, C> {
    phase: Phase,
    waiters: Vec<C>,
    cache: Option<Result<T, E>>,
}

impl<T, E, C> View for Thunky<T, E, C> {
    type V = Model<T, E, C>;

    closed spec fn view(&self) -> Model<T, E, C> {
        Model { phase: self.phase, waiters: self.waiters@, cache: self.cache }
    }
}

impl<T, E, C> Thunky<T, E, C> {
    /// Create an idle cell with no queued completions and an empty cache.
    pub fn new() -> (t: Self)
        ensures
            t@ == Model::<T, E, C>::init(),
            t@.wf(),
    {
        let t = Thunky { phase: Phase::Idle, waiters: Vec::new(), cache: None };
        proof {
            assert(t@ =~= Model::<T, E, C>::init());
        }
        t
    }

    /// Request the producer's result, registering `callback` as the one-shot
    /// completion that is to observe it.
    ///
    /// The cell changes state as `Model::after_run` says, and the returned
    /// action tells the caller what remains to be done: launch the producer
    /// (exactly when the cell was idle), nothing (the callback joined the
    /// in-flight round), or invoke the handed-back callback now with the
    /// cached success.
    pub fn run(&mut self, callback: C) -> (act: Action<C>)
        requires
            old(self)@.wf(),
        ensures
            final(self)@.wf(),
            final(self)@ == old(self)@.after_run(callback),
            (act is Launch <==> old(self)@.launches()),
            (match old(self)@.phase {
                Phase::Idle => act is Launch,
                Phase::Pending => act is Queued,
                Phase::Settled => act == Action::Ready(callback),
            }),
    {
        match self.phase {
            Phase::Idle => {
                self.waiters.push(callback);
                self.cache = None;
                self.phase = Phase::Pending;
                proof {
                    assert(self@ =~= old(self)@.after_run(callback));
                }
                Action::Launch
            },
            Phase::Pending => {
                self.waiters.push(callback);
                proof {
                    assert(self@ =~= old(self)@.after_run(callback));
                }
                Action::Queued
            },
            Phase::Settled => Action::Ready(callback),
        }
    }

    /// Report a round's outcome and hand back the completions to notify.
    ///
    /// Every queued completion is drained, newest first, and returned so the
    /// caller invokes each exactly once with `outcome`. The cell changes
    /// state as `Model::after_cache` says: a cached success is sticky and a
    /// late report leaves it (no completion is queued then, so none sees a
    /// stale value); otherwise the outcome is cached and the cell settles on
    /// success or returns to idle on failure.
    pub fn cache(&mut self, outcome: Result<T, E>) -> (drained: Vec<C>)
        requires
            old(self)@.wf(),
        ensures
            final(self)@.wf(),
            final(self)@ == old(self)@.after_cache(outcome),
            drained@ == old(self)@.drained(),
    {
        let ghost queued = old(self)@.waiters;
        let mut drained: Vec<C> = Vec::new();
        while self.waiters.len() > 0
            invariant
                drained@.len() + self.waiters@.len() == queued.len(),
                self.waiters@ == queued.take(self.waiters@.len() as int),
                forall|i: int|
                    0 <= i < drained@.len() ==> drained@[i] == queued[queued.len() - 1 - i],
                self.phase == old(self)@.phase,
                self.cache == old(self)@.cache,
            decreases self.waiters.len(),
        {
            let c = self.waiters.pop().unwrap();
            drained.push(c);
            proof {
                assert(self.waiters@ =~= queued.take(self.waiters@.len() as int));
            }
        }
        proof {
            assert(drained@ =~= queued.reverse());
        }
        let keep = match &self.cache {
            Some(r) => r.is_ok(),
            None => false,
        };
        if !keep {
            self.phase = if outcome.is_ok() {
                Phase::Settled
            } else {
                Phase::Idle
            };
            self.cache = Some(outcome);
        }
        proof {
            assert(self@ =~= old(self)@.after_cache(outcome));
        }
        drained
    }

    /// The current phase.
    pub fn phase(&self) -> (p: Phase)
        ensures
            p == self@.phase,
    {
        self.phase
    }

    /// The cached outcome: the most recent one reported since the cell last
    /// left idle, if any. While the cell is settled this is the success every
    /// request is served with.
    pub fn peek(&self) -> (r: &Option<Result<T, E>>)
        ensures
            *r == self@.cache,
    {
        &self.cache
    }
}

} // verus!
