//! The worker: one long-lived execution context that takes a job from the
//! channel, runs it, and comes back for the next, until the channel says that
//! no more work will come.
//!
//! Running a job is the caller's part. The worker decides what happens next:
//! [`Worker::poll`] before a run, [`Worker::finish`] after it.

use crate::channel::{ChannelView, JobChannel, Received};
use vstd::prelude::*;

verus! {

/// Where a worker stands in its loop.
#[derive(Clone, Copy, Debug, PartialEq, Eq, Structural)]
pub enum WorkerState {
    /// Waiting for a job.
    Idle,
    /// Running a job.
    Running,
    /// Out of the loop for good.
    Terminated,
}

/// How the run of a job ended, as seen at the worker's boundary.
#[derive(Clone, Copy, Debug, PartialEq, Eq, Structural)]
pub enum Outcome {
    /// The job ran to its end.
    Completed,
    /// The job failed on the way; the failure was caught at the boundary.
    Failed,
}

/// What a worker has to do after a poll.
#[derive(Debug, PartialEq, Eq)]
pub enum Directive<J> {
    /// Run this job to completion, then report with `finish`.
    Run(J),
    /// Nothing to do yet: wait until the channel changes, then poll again.
    Wait,
    /// No more work will come: leave the loop.
    Exit,
}

/// A step that a worker cannot take from the state it is in.
#[derive(Clone, Copy, Debug, PartialEq, Eq, Structural)]
pub enum StepError {
    /// The pool has no worker with that ordinal.
    NoSuchWorker,
    /// Only an idle worker can poll.
    NotIdle,
    /// Only a running worker can finish.
    NotRunning,
}

/// The mathematical content of a worker: its state, and while it runs, the
/// job that it holds.
pub enum Slot<J> {
    /// Waiting for a job.
    Idle,
    /// Running this job.
    Running(J),
    /// Out of the loop for good.
    Terminated,
}

impl<J> Slot<J> {
    /// The state, without the job.
    pub open spec fn state(self) -> WorkerState {
        match self {
            Slot::Idle => WorkerState::Idle,
            Slot::Running(_) => WorkerState::Running,
            Slot::Terminated => WorkerState::Terminated,
        }
    }

    /// What a poll against `channel` tells the worker.
    pub open spec fn poll_result(self, channel: ChannelView<J>) -> Result<Directive<J>, StepError> {
        match self {
            Slot::Idle => Ok(
                match channel.head() {
                    Received::Job(job) => Directive::Run(job),
                    Received::Empty => Directive::Wait,
                    Received::Closed => Directive::Exit,
                },
            ),
            _ => Err(StepError::NotIdle),
        }
    }

    /// The worker after a poll against `channel`.
    pub open spec fn after_poll(self, channel: ChannelView<J>) -> Slot<J> {
        match self {
            Slot::Idle => match channel.head() {
                Received::Job(job) => Slot::Running(job),
                Received::Empty => Slot::Idle,
                Received::Closed => Slot::Terminated,
            },
            _ => self,
        }
    }

    /// The channel after this worker polled it: a delivered job has left the
    /// queue, and a worker that exits has let go of its receiving handle.
    pub open spec fn channel_after_poll(self, channel: ChannelView<J>) -> ChannelView<J> {
        match self {
            Slot::Idle => match channel.head() {
                Received::Job(_) => channel.after_receive(),
                Received::Empty => channel,
                Received::Closed => channel.after_hang_up(),
            },
            _ => channel,
        }
    }

    /// What a report of a finished run is answered with.
    pub open spec fn finish_result(self) -> Result<(), StepError> {
        match self {
            Slot::Running(_) => Ok(()),
            _ => Err(StepError::NotRunning),
        }
    }

    /// The worker after a report of a finished run, whatever its outcome.
    pub open spec fn after_finish(self) -> Slot<J> {
        match self {
            Slot::Running(_) => Slot::Idle,
            _ => self,
        }
    }
}

/// One worker of a pool.
pub struct Worker<J> {
    id: usize,
    state: WorkerState,
    held: Ghost<Option<J>>,
}

impl<J> View for Worker<J> {
    type V = Slot<J>;

    closed spec fn view(&self) -> Slot<J> {
        match self.state {
            WorkerState::Idle => Slot::Idle,
            WorkerState::Running => Slot::Running(self.held@.unwrap()),
            WorkerState::Terminated => Slot::Terminated,
        }
    }
}

impl<J> Worker<J> {
    /// The worker's ordinal. It serves diagnostics and has no effect on what
    /// the worker does.
    pub closed spec fn ordinal(&self) -> usize {
        self.id
    }

    /// Creates an idle worker with the given ordinal.
    pub fn new(id: usize) -> (worker: Self)
        ensures
            worker@ == Slot::<J>::Idle,
            worker.ordinal() == id,
    {
        Worker { id, state: WorkerState::Idle, held: Ghost(None) }
    }

    /// The worker's ordinal.
    pub fn id(&self) -> (id: usize)
        ensures
            id == self.ordinal(),
    {
        self.id
    }

    /// The worker's state.
    pub fn state(&self) -> (state: WorkerState)
        ensures
            state == self@.state(),
    {
        self.state
    }

    /// One turn of the worker's loop: an idle worker takes what the channel
    /// has for it. A job makes it run; an open, empty channel leaves it idle;
    /// a closed, empty channel ends it, and it lets go of its receiving
    /// handle. A worker that is not idle is turned down, and nothing changes.
    pub fn poll(&mut self, channel: &mut JobChannel<J>) -> (result: Result<Directive<J>, StepError>)
        ensures
            result == old(self)@.poll_result(old(channel)@),
            final(self)@ == old(self)@.after_poll(old(channel)@),
            final(channel)@ == old(self)@.channel_after_poll(old(channel)@),
            final(self).ordinal() == old(self).ordinal(),
    {
        match self.state {
            WorkerState::Idle => match channel.receive() {
                Received::Job(job) => {
                    self.state = WorkerState::Running;
                    self.held = Ghost(Some(job));
                    Ok(Directive::Run(job))
                },
                Received::Empty => Ok(Directive::Wait),
                Received::Closed => {
                    self.state = WorkerState::Terminated;
                    channel.hang_up();
                    Ok(Directive::Exit)
                },
            },
            _ => Err(StepError::NotIdle),
        }
    }

    /// Takes the report that the run of the held job has ended. The worker
    /// becomes idle again whether the job completed or failed: a failure is
    /// contained here and goes no further. A worker that is not running is
    /// turned down, and nothing changes.
    pub fn finish(&mut self, outcome: Outcome) -> (result: Result<(), StepError>)
        ensures
            result == old(self)@.finish_result(),
            final(self)@ == old(self)@.after_finish(),
            final(self).ordinal() == old(self).ordinal(),
    {
        match self.state {
            WorkerState::Running => {
                match outcome {
                    // A failure ends the run as a completion does.
                    Outcome::Completed | Outcome::Failed => {
                        self.state = WorkerState::Idle;
                    },
                }
                Ok(())
            },
            _ => Err(StepError::NotRunning),
        }
    }
}

} // verus!
