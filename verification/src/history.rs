//! The history of a pool: which jobs it took, which it handed to which
//! worker, and which runs were reported as ended, each in the order in which
//! it happened.
//!
//! The history is a function of the steps taken since the pool was built. It
//! exists only in proofs: it is what the theorems about every run of a pool
//! speak of.

use crate::model::{in_hand, running, Event, PoolView};
use crate::worker::{Directive, Slot};
use vstd::prelude::*;

verus! {

/// One line of a log: a job, and the worker that it went to.
pub struct Entry<J> {
    /// The ordinal of the worker.
    pub worker: int,
    /// The job.
    pub job: J,
}

/// The jobs of a log, in its order.
pub open spec fn jobs<J>(log: Seq<Entry<J>>) -> Seq<J> {
    Seq::new(log.len(), |k: int| log[k].job)
}

/// The jobs that a log holds for worker `w`, in its order.
pub open spec fn jobs_of<J>(log: Seq<Entry<J>>, w: int) -> Seq<J>
    decreases log.len(),
{
    if log.len() == 0 {
        Seq::empty()
    } else if log.last().worker == w {
        jobs_of(log.drop_last(), w).push(log.last().job)
    } else {
        jobs_of(log.drop_last(), w)
    }
}

/// The job that a worker holds, as a sequence of one or none.
pub open spec fn held<J>(slot: Slot<J>) -> Seq<J> {
    match slot {
        Slot::Running(job) => seq![job],
        _ => Seq::empty(),
    }
}

/// What has happened in a pool since it was built.
pub struct Ledger<J> {
    /// The jobs that the pool took, in the order of their submission.
    pub accepted: Seq<J>,
    /// The jobs that were handed to a worker, in the order of the handing
    /// over.
    pub dispatched: Seq<Entry<J>>,
    /// The jobs whose run was reported as ended, in the order of the reports.
    pub finished: Seq<Entry<J>>,
}

impl<J> Ledger<J> {
    /// The ledger of a fresh pool.
    pub open spec fn empty() -> Self {
        Ledger { accepted: Seq::empty(), dispatched: Seq::empty(), finished: Seq::empty() }
    }

    /// The ledger after `event` was taken in `state`.
    pub open spec fn record(self, state: PoolView<J>, event: Event<J>) -> Self {
        match event {
            Event::Submit(job) => if state.accepts() {
                Ledger { accepted: self.accepted.push(job), ..self }
            } else {
                self
            },
            Event::Poll(w) => match state.poll_result(w) {
                Ok(Directive::Run(job)) => Ledger {
                    dispatched: self.dispatched.push(Entry { worker: w, job }),
                    ..self
                },
                _ => self,
            },
            Event::Complete(w, _) => if state.has_worker(w) {
                match state.slots[w] {
                    Slot::Running(job) => Ledger {
                        finished: self.finished.push(Entry { worker: w, job }),
                        ..self
                    },
                    _ => self,
                }
            } else {
                self
            },
            Event::Shutdown => self,
        }
    }
}

/// A pool together with its history.
pub struct Run<J> {
    /// Where the pool stands.
    pub state: PoolView<J>,
    /// What lies behind it.
    pub ledger: Ledger<J>,
}

impl<J> Run<J> {
    /// A fresh pool of `size` workers, with nothing behind it.
    pub open spec fn start(size: nat) -> Self {
        Run { state: PoolView::init(size), ledger: Ledger::empty() }
    }

    /// The run after one more step.
    pub open spec fn step(self, event: Event<J>) -> Self {
        Run { state: self.state.after(event), ledger: self.ledger.record(self.state, event) }
    }

    /// The books balance:
    /// - the jobs taken are those handed out, followed by those still queued;
    /// - the jobs handed to a worker are those it reported as ended, followed
    ///   by the one it holds;
    /// - the logs name workers of the pool only;
    /// - as many runs are open as workers are running;
    /// - the jobs handed out are those whose run has ended and those in a
    ///   worker's hand, each as often.
    pub open spec fn balanced(self) -> bool {
        &&& self.ledger.accepted == jobs(self.ledger.dispatched) + self.state.pending
        &&& forall|w: int|
            0 <= w < self.state.slots.len() ==> #[trigger] jobs_of(self.ledger.dispatched, w)
                == jobs_of(self.ledger.finished, w) + held(self.state.slots[w])
        &&& forall|k: int|
            0 <= k < self.ledger.dispatched.len() ==> self.state.has_worker(
                (#[trigger] self.ledger.dispatched[k]).worker,
            )
        &&& forall|k: int|
            0 <= k < self.ledger.finished.len() ==> self.state.has_worker(
                (#[trigger] self.ledger.finished[k]).worker,
            )
        &&& self.ledger.dispatched.len() == self.ledger.finished.len() + running(
            self.state.slots,
        )
        &&& jobs(self.ledger.dispatched).to_multiset() == jobs(
            self.ledger.finished,
        ).to_multiset().add(in_hand(self.state.slots))
    }
}

/// The run of a pool of `size` workers through the steps of `trace`, in
/// their order.
pub open spec fn replay<J>(size: nat, trace: Seq<Event<J>>) -> Run<J>
    decreases trace.len(),
{
    if trace.len() == 0 {
        Run::start(size)
    } else {
        replay(size, trace.drop_last()).step(trace.last())
    }
}

} // verus!
