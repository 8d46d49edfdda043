//! The pool: a fixed set of workers behind one job channel.
//!
//! The pool takes one step at a time. A caller submits a job or starts the
//! teardown; a worker polls for a job or reports the end of a run. Whoever
//! owns the threads takes these steps under a lock, so that every concurrent
//! run is one interleaving of them:
//!
//! - a submitter calls [`Pool::submit`] and wakes one waiting worker;
//! - a worker thread calls [`Pool::poll`] with its ordinal. On
//!   [`Directive::Run`] it lets go of the lock, runs the job, catches its
//!   failure, and calls [`Pool::complete`]; on [`Directive::Wait`] it waits
//!   to be woken; on [`Directive::Exit`] it ends;
//! - the owner calls [`Pool::shutdown`], wakes every worker, and joins the
//!   threads; when they have ended, [`Pool::is_terminated`] holds.
//!
//! Every pool remembers, in proofs only, the steps that it has taken. What
//! [`crate::theorems`] proves of every run therefore holds of every pool.

use crate::channel::{JobChannel, SendError};
use crate::history::{replay, Run};
use crate::model::{lemma_live_bounds, lemma_live_update, live, Event, PoolView};
use crate::theorems::{lemma_replay_balanced, theorem_open_pool_takes_jobs};
use crate::worker::{Directive, Outcome, Slot, StepError, Worker, WorkerState};
use vstd::prelude::*;

verus! {

/// A pool that cannot be built as asked.
#[derive(Clone, Copy, Debug, PartialEq, Eq, Structural)]
pub enum ConfigError {
    /// A pool needs at least one worker.
    ZeroWorkers,
}

/// A fixed-size set of workers and the channel that feeds them.
pub struct Pool<J> {
    channel: JobChannel<J>,
    workers: Vec<Worker<J>>,
    trace: Ghost<Seq<Event<J>>>,
}

impl<J> View for Pool<J> {
    type V = PoolView<J>;

    closed spec fn view(&self) -> PoolView<J> {
        PoolView {
            pending: self.channel@.pending,
            open: self.channel@.open,
            slots: Seq::new(self.workers@.len(), |w: int| self.workers@[w]@),
        }
    }
}

impl<J> Pool<J> {
    /// The steps that the pool has taken since it was built, in their order.
    pub closed spec fn trace(&self) -> Seq<Event<J>> {
        self.trace@
    }

    /// The run that brought the pool to where it is: its state, and the
    /// history of what it took, handed out and saw ended.
    pub open spec fn history(&self) -> Run<J> {
        replay(self@.slots.len(), self.trace())
    }

    /// The pool's validity: the channel has one receiving handle for each
    /// worker that has not terminated, the workers stand in the order of their
    /// ordinals, and the pool is where its steps have brought it.
    pub closed spec fn wf(&self) -> bool {
        &&& self.channel@.receivers == live(self@.slots)
        &&& forall|w: int|
            0 <= w < self.workers@.len() ==> (#[trigger] self.workers@[w]).ordinal() == w
        &&& self@.slots.len() >= 1
        &&& self@ == replay(self@.slots.len(), self.trace@).state
    }

    /// A valid pool is the outcome of the run of its steps. So it is in a
    /// reachable state, and its books balance.
    pub proof fn lemma_wf_history(&self)
        requires
            self.wf(),
        ensures
            self.history().state == self@,
            self.history().balanced(),
            self@.inv(),
    {
        lemma_replay_balanced(self@.slots.len(), self.trace());
    }

    /// Builds a pool of `size` idle workers around a fresh, open channel. A
    /// size of zero is turned down, and no worker is made.
    pub fn new(size: usize) -> (result: Result<Self, ConfigError>)
        ensures
            size == 0 <==> result is Err,
            result matches Err(e) ==> e == ConfigError::ZeroWorkers,
            result matches Ok(pool) ==> pool.wf() && pool@ == PoolView::<J>::init(size as nat)
                && pool.trace() == Seq::<Event<J>>::empty(),
    {
        if size == 0 {
            return Err(ConfigError::ZeroWorkers);
        }
        let channel = JobChannel::new(size);
        let mut workers: Vec<Worker<J>> = Vec::new();
        let mut id: usize = 0;
        while id < size
            invariant
                id <= size,
                workers@.len() == id,
                forall|w: int|
                    0 <= w < id ==> (#[trigger] workers@[w])@ == Slot::<J>::Idle
                        && workers@[w].ordinal() == w,
            decreases size - id,
        {
            workers.push(Worker::new(id));
            id = id + 1;
        }
        let pool = Pool { channel, workers, trace: Ghost(Seq::empty()) };
        proof {
            assert(pool@.slots =~= PoolView::<J>::init(size as nat).slots);
            lemma_live_bounds(pool@.slots);
        }
        Ok(pool)
    }

    /// Puts `job` at the end of the queue. The job is turned down, and handed
    /// back, exactly when the pool does not take jobs any more; nothing
    /// changes then.
    pub fn submit(&mut self, job: J) -> (result: Result<(), SendError<J>>)
        requires
            old(self).wf(),
        ensures
            final(self).wf(),
            final(self)@ == old(self)@.after_submit(job),
            final(self).trace() == old(self).trace().push(Event::Submit(job)),
            old(self)@.accepts() == old(self)@.open,
            result is Ok <==> old(self)@.open,
            result matches Err(e) ==> e == SendError(job),
    {
        proof {
            old(self).lemma_wf_history();
            theorem_open_pool_takes_jobs(old(self)@);
        }
        let ghost event = Event::Submit(job);
        let result = self.channel.send(job);
        self.trace = Ghost(self.trace@.push(event));
        proof {
            assert(self.trace@.drop_last() =~= old(self).trace@);
        }
        result
    }

    /// Lets the worker with ordinal `worker` take what the channel has for
    /// it: the oldest queued job, the word to wait, or the word to exit.
    pub fn poll(&mut self, worker: usize) -> (result: Result<Directive<J>, StepError>)
        requires
            old(self).wf(),
        ensures
            final(self).wf(),
            result == old(self)@.poll_result(worker as int),
            final(self)@ == old(self)@.after_poll(worker as int),
            final(self).trace() == old(self).trace().push(Event::Poll(worker as int)),
    {
        proof {
            old(self).lemma_wf_history();
        }
        self.trace = Ghost(self.trace@.push(Event::Poll(worker as int)));
        proof {
            assert(self.trace@.drop_last() =~= old(self).trace@);
        }
        if worker >= self.workers.len() {
            return Err(StepError::NoSuchWorker);
        }
        let result = self.workers[worker].poll(&mut self.channel);
        proof {
            let w = worker as int;
            let before = old(self)@;
            let slot = before.slots[w].after_poll(before.channel());
            assert(self@.slots =~= before.slots.update(w, slot));
            lemma_live_update(before.slots, w, slot);
            lemma_live_bounds(before.slots);
        }
        result
    }

    /// Takes the report of the worker with ordinal `worker` that the run of
    /// its job has ended. The worker is idle again, whatever the outcome.
    pub fn complete(&mut self, worker: usize, outcome: Outcome) -> (result: Result<(), StepError>)
        requires
            old(self).wf(),
        ensures
            final(self).wf(),
            result == old(self)@.complete_result(worker as int),
            final(self)@ == old(self)@.after_complete(worker as int),
            final(self).trace() == old(self).trace().push(Event::Complete(worker as int, outcome)),
    {
        proof {
            old(self).lemma_wf_history();
        }
        self.trace = Ghost(self.trace@.push(Event::Complete(worker as int, outcome)));
        proof {
            assert(self.trace@.drop_last() =~= old(self).trace@);
        }
        if worker >= self.workers.len() {
            return Err(StepError::NoSuchWorker);
        }
        let result = self.workers[worker].finish(outcome);
        proof {
            let w = worker as int;
            let before = old(self)@;
            let slot = before.slots[w].after_finish();
            assert(self@.slots =~= before.slots.update(w, slot));
            lemma_live_update(before.slots, w, slot);
        }
        result
    }

    /// Starts the teardown: the pool takes no more jobs. What is queued stays
    /// queued and is still handed out; a worker that finds the queue empty
    /// from now on exits.
    pub fn shutdown(&mut self)
        requires
            old(self).wf(),
        ensures
            final(self).wf(),
            final(self)@ == old(self)@.after_shutdown(),
            final(self).trace() == old(self).trace().push(Event::Shutdown),
    {
        self.channel.close();
        self.trace = Ghost(self.trace@.push(Event::Shutdown));
        proof {
            assert(self.trace@.drop_last() =~= old(self).trace@);
        }
    }

    /// The number of workers, as fixed when the pool was built.
    pub fn size(&self) -> (size: usize)
        ensures
            size == self@.slots.len(),
    {
        self.workers.len()
    }

    /// The number of jobs that wait in the queue.
    pub fn queued(&self) -> (queued: usize)
        ensures
            queued == self@.pending.len(),
    {
        self.channel.len()
    }

    /// Whether the pool still takes jobs.
    pub fn is_open(&self) -> (open: bool)
        ensures
            open == self@.open,
    {
        self.channel.is_open()
    }

    /// The state of the worker with ordinal `worker`, if the pool has one.
    pub fn worker_state(&self, worker: usize) -> (state: Option<WorkerState>)
        ensures
            state == if self@.has_worker(worker as int) {
                Some(self@.slots[worker as int].state())
            } else {
                None
            },
    {
        if worker < self.workers.len() {
            Some(self.workers[worker].state())
        } else {
            None
        }
    }

    /// Whether every worker has terminated. This is the point at which a
    /// teardown returns: no worker is left, and nothing is left to do.
    pub fn is_terminated(&self) -> (terminated: bool)
        requires
            self.wf(),
        ensures
            terminated == self@.terminated(),
    {
        proof {
            lemma_live_bounds(self@.slots);
        }
        self.channel.receivers() == 0
    }
}

} // verus!
