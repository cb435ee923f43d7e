//! The mathematical model of a cell: its phase, its queued completions and
//! its cached outcome, together with the transition functions that the
//! executable operations are proved to follow.

use vstd::prelude::*;

verus! {

/// The three phases of a cell.
///
/// `Idle` means the producer must be launched on the next request, `Pending`
/// means a round is in flight, and `Settled` means a success is cached and the
/// producer will never run again.
#[derive(Clone, Copy, PartialEq, Eq, Structural, Debug)]
pub enum Phase {
    Idle,
    Pending,
    Settled,
}

/// A cached success is sticky: once the cache holds a success, later reports
/// never overwrite it.
pub open spec fn holds_success<T, E>(cache: Option<Result<T, E>>) -> bool {
    cache matches Some(r) && r is Ok
}

/// Abstract state of a cell.
///
/// `waiters` holds the completions queued for the in-flight round, oldest
/// first; `cache` holds the most recent outcome reported since the cell last
/// left `Idle`, if any.
#[verifier::ext_equal]
pub ghost struct Model<T, E, C> {
    pub phase: Phase,
    pub waiters: Seq<C>,
    pub cache: Option<Result<T, E>>,
}

impl<T, E, C> Model<T, E, C> {
    /// The invariant every reachable cell state satisfies:
    /// a success is cached exactly when the cell is settled, an in-flight
    /// round has no outcome yet, and completions are queued only while a
    /// round is in flight.
    pub open spec fn wf(self) -> bool {
        &&& (self.phase is Settled <==> holds_success(self.cache))
        &&& (self.phase is Pending ==> self.cache is None)
        &&& (self.waiters.len() > 0 ==> self.phase is Pending)
    }

    /// The state of a freshly created cell.
    pub open spec fn init() -> Self {
        Model { phase: Phase::Idle, waiters: Seq::empty(), cache: None }
    }

    /// Whether a request in this state launches the producer.
    pub open spec fn launches(self) -> bool {
        self.phase is Idle
    }

    /// State after a request registering `callback`.
    ///
    /// From `Idle` the callback is queued and a round begins; from `Pending`
    /// the callback joins the queue of the in-flight round; from `Settled`
    /// nothing changes (the caller is served from the cache).
    pub open spec fn after_run(self, callback: C) -> Self {
        match self.phase {
            Phase::Idle => Model {
                phase: Phase::Pending,
                waiters: self.waiters.push(callback),
                cache: None,
            },
            Phase::Pending => Model {
                phase: Phase::Pending,
                waiters: self.waiters.push(callback),
                cache: self.cache,
            },
            Phase::Settled => self,
        }
    }

    /// State after the producer reports `outcome`.
    ///
    /// The queue is always drained. A cached success is kept and the report
    /// otherwise ignored; otherwise the outcome is cached and the cell
    /// settles on success or returns to `Idle` on failure.
    pub open spec fn after_cache(self, outcome: Result<T, E>) -> Self {
        if holds_success(self.cache) {
            Model { phase: self.phase, waiters: Seq::empty(), cache: self.cache }
        } else {
            Model {
                phase: if outcome is Ok {
                    Phase::Settled
                } else {
                    Phase::Idle
                },
                waiters: Seq::empty(),
                cache: Some(outcome),
            }
        }
    }

    /// The completions a report hands back, in the order they are returned:
    /// the queue is drained newest first.
    pub open spec fn drained(self) -> Seq<C> {
        self.waiters.reverse()
    }
}

} // verus!
