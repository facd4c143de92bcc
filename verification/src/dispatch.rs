//! The generic worker pool: minting and joining homogeneous workers.
//!
//! The dispatcher knows nothing about HTTP, words or URLs: it constructs N
//! workers of any capability, each from an ordinal id and one shared
//! configuration, and later joins them, surfacing the first failure.
//! Launching a worker as a concurrent task and awaiting its handle is the
//! runtime's part; what is verified here is the pool bookkeeping and the
//! fail-fast join rule applied to the join outcomes, one per worker in
//! start order.

use vstd::prelude::*;

verus! {

/// A worker capability: anything that can be built from an ordinal id and a
/// shared configuration.  The dispatcher mints N of these; running one as a
/// concurrent task is the runtime's concern.
pub trait Worker: Sized {
    /// The configuration bundle shared by the whole pool.
    type Config;

    /// The ordinal the worker was built with.
    spec fn worker_id(&self) -> nat;

    /// Builds the worker with the given ordinal, reading the shared
    /// configuration.
    fn new(id: usize, cfg: &Self::Config) -> (w: Self)
        ensures
            w.worker_id() == id as nat,
    ;
}

/// The pool manager: owns the shared configuration and the workers it
/// minted, in start order.
pub struct Dispatcher<W: Worker> {
    /// The configuration every worker shares, read-only after construction.
    pub worker_config: W::Config,
    /// The workers, in the order they were started.
    pub workers: Vec<W>,
    /// Whether the pool has been started; it can be started only once.
    pub started: bool,
}

/// The fail-fast join rule: the first error among the join outcomes, in
/// start order, or success when every worker joined cleanly.
pub open spec fn first_error_spec<E>(outcomes: Seq<Result<(), E>>) -> Result<(), E>
    decreases outcomes.len(),
{
    if outcomes.len() == 0 {
        Ok(())
    } else if outcomes.first() is Err {
        outcomes.first()
    } else {
        first_error_spec(outcomes.drop_first())
    }
}

impl<W: Worker> Dispatcher<W> {
    /// The pool has not started yet: no worker minted, ready for the one
    /// `start_workers` call.
    pub open spec fn unstarted(self) -> bool {
        !self.started && self.workers@.len() == 0
    }

    /// A fresh pool around one shared configuration, with no worker started.
    pub fn new(worker_config: W::Config) -> (d: Self)
        ensures
            d.unstarted(),
            d.worker_config == worker_config,
    {
        Dispatcher { worker_config, workers: Vec::new(), started: false }
    }

    /// Mints `threads` workers with ordinals 0, 1, ... sharing the pool's
    /// configuration, and marks the pool started.  A pool starts at most
    /// once: there is no dynamic rescaling.
    pub fn start_workers(&mut self, threads: usize)
        requires
            old(self).unstarted(),
        ensures
            final(self).started,
            final(self).worker_config == old(self).worker_config,
            final(self).workers@.len() == threads as nat,
            forall|i: int|
                0 <= i < threads ==> (#[trigger] final(self).workers@[i]).worker_id() == i as nat,
    {
        let mut i: usize = 0;
        while i < threads
            invariant
                i <= threads,
                self.workers@.len() == i as nat,
                self.worker_config == old(self).worker_config,
                forall|j: int|
                    0 <= j < i ==> (#[trigger] self.workers@[j]).worker_id() == j as nat,
            decreases threads - i,
        {
            let worker = W::new(i, &self.worker_config);
            self.workers.push(worker);
            i = i + 1;
        }
        self.started = true;
    }

    /// Joins the pool: given the join outcome of each worker, in start
    /// order, returns the first failure encountered, or success when all
    /// workers exited cleanly.  An error of one worker is surfaced, never
    /// swallowed by the clean exits around it.
    pub fn finish_and_wait<E>(self, outcomes: Vec<Result<(), E>>) -> (r: Result<(), E>)
        requires
            outcomes@.len() == self.workers@.len(),
        ensures
            r == first_error_spec(outcomes@),
    {
        let mut rest = outcomes;
        loop
            invariant
                first_error_spec(outcomes@) == first_error_spec(rest@),
            decreases rest@.len(),
        {
            if rest.len() == 0 {
                return Ok(());
            }
            let ghost prev = rest@;
            let next = rest.remove(0);
            proof {
                assert(rest@ =~= prev.drop_first());
            }
            match next {
                Err(e) => {
                    return Err(e);
                },
                Ok(_) => {},
            }
        }
    }
}

/// First-error propagation: if worker `i` is the first whose join outcome
/// is a failure, the fail-fast join returns exactly that failure.
pub proof fn lemma_first_error_propagation<E>(outcomes: Seq<Result<(), E>>, i: int)
    requires
        0 <= i < outcomes.len(),
        outcomes[i] is Err,
        forall|j: int| 0 <= j < i ==> (#[trigger] outcomes[j]) is Ok,
    ensures
        first_error_spec(outcomes) == outcomes[i],
        first_error_spec(outcomes) is Err,
    decreases i,
{
    if i > 0 {
        lemma_first_error_propagation(outcomes.drop_first(), i - 1);
    }
}

} // verus!
