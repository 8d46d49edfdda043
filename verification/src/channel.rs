//! The job channel: an unbounded first-in, first-out queue between the
//! submitters and the workers, with an explicit end-of-work signal.

use std::collections::VecDeque;
use vstd::prelude::*;

verus! {

/// What a receiver gets from one attempt to take a job.
#[derive(Debug, PartialEq, Eq)]
pub enum Received<J> {
    /// The job at the head of the queue, now owned by the receiver.
    Job(J),
    /// Nothing is queued, but more may come: a blocking receiver waits.
    Empty,
    /// Nothing is queued and nothing will come: the sending side is closed.
    Closed,
}

/// A send that the channel turned down. It hands the job back.
#[derive(Debug, PartialEq, Eq)]
pub struct SendError<J>(pub J);

/// The mathematical content of a channel.
pub struct ChannelView<J> {
    /// The queued jobs, oldest first.
    pub pending: Seq<J>,
    /// Whether the sending side is still held.
    pub open: bool,
    /// The number of receiving handles that are still held.
    pub receivers: nat,
}

impl<J> ChannelView<J> {
    /// A fresh channel: nothing queued, open, with the given receivers.
    pub open spec fn fresh(receivers: nat) -> Self {
        ChannelView { pending: Seq::empty(), open: true, receivers }
    }

    /// Whether a send is taken: the sending side is open and someone is left
    /// to receive.
    pub open spec fn accepts(self) -> bool {
        self.open && self.receivers > 0
    }

    /// The channel after a send of `job`.
    pub open spec fn after_send(self, job: J) -> Self {
        if self.accepts() {
            ChannelView { pending: self.pending.push(job), ..self }
        } else {
            self
        }
    }

    /// What one receive attempt yields.
    pub open spec fn head(self) -> Received<J> {
        if self.pending.len() > 0 {
            Received::Job(self.pending[0])
        } else if self.open {
            Received::Empty
        } else {
            Received::Closed
        }
    }

    /// The channel after one receive attempt.
    pub open spec fn after_receive(self) -> Self {
        if self.pending.len() > 0 {
            ChannelView { pending: self.pending.subrange(1, self.pending.len() as int), ..self }
        } else {
            self
        }
    }

    /// The channel after the sending side is closed.
    pub open spec fn after_close(self) -> Self {
        ChannelView { open: false, ..self }
    }

    /// The channel after one receiver lets go of its handle.
    pub open spec fn after_hang_up(self) -> Self {
        if self.receivers > 0 {
            ChannelView { receivers: (self.receivers - 1) as nat, ..self }
        } else {
            self
        }
    }
}

/// The transport that carries jobs from the submitters to the workers.
pub struct JobChannel<J> {
    queue: VecDeque<J>,
    open: bool,
    receivers: usize,
}

impl<J> View for JobChannel<J> {
    type V = ChannelView<J>;

    closed spec fn view(&self) -> ChannelView<J> {
        ChannelView { pending: self.queue@, open: self.open, receivers: self.receivers as nat }
    }
}

impl<J> JobChannel<J> {
    /// Creates an open, empty channel with `receivers` receiving handles.
    pub fn new(receivers: usize) -> (channel: Self)
        ensures
            channel@ == ChannelView::<J>::fresh(receivers as nat),
    {
        JobChannel { queue: VecDeque::new(), open: true, receivers }
    }

    /// Enqueues `job` behind everything already queued. The send is turned
    /// down, and the job handed back, exactly when the sending side is closed
    /// or no receiver is left.
    pub fn send(&mut self, job: J) -> (result: Result<(), SendError<J>>)
        ensures
            final(self)@ == old(self)@.after_send(job),
            old(self)@.accepts() ==> result is Ok,
            !old(self)@.accepts() ==> result == Err::<(), SendError<J>>(SendError(job)),
    {
        if self.open && self.receivers > 0 {
            self.queue.push_back(job);
            Ok(())
        } else {
            Err(SendError(job))
        }
    }

    /// Takes the oldest queued job, if there is one. With nothing queued the
    /// result tells a receiver whether to wait or to stop.
    pub fn receive(&mut self) -> (received: Received<J>)
        ensures
            received == old(self)@.head(),
            final(self)@ == old(self)@.after_receive(),
    {
        match self.queue.pop_front() {
            Some(job) => Received::Job(job),
            None => if self.open {
                Received::Empty
            } else {
                Received::Closed
            },
        }
    }

    /// Closes the sending side. Jobs already queued stay queued.
    pub fn close(&mut self)
        ensures
            final(self)@ == old(self)@.after_close(),
    {
        self.open = false;
    }

    /// Gives up one receiving handle.
    pub fn hang_up(&mut self)
        ensures
            final(self)@ == old(self)@.after_hang_up(),
    {
        if self.receivers > 0 {
            self.receivers = self.receivers - 1;
        }
    }

    /// The number of queued jobs.
    pub fn len(&self) -> (n: usize)
        ensures
            n == self@.pending.len(),
    {
        self.queue.len()
    }

    /// Whether nothing is queued.
    pub fn is_empty(&self) -> (b: bool)
        ensures
            b == (self@.pending.len() == 0),
    {
        self.queue.len() == 0
    }

    /// Whether the sending side is still held.
    pub fn is_open(&self) -> (b: bool)
        ensures
            b == self@.open,
    {
        self.open
    }

    /// The number of receiving handles still held.
    pub fn receivers(&self) -> (n: usize)
        ensures
            n == self@.receivers,
    {
        self.receivers
    }
}

} // verus!
