//! The pool as a mathematical state machine: its state, the four steps that
//! change it, and what holds of every state that the steps can reach.

use crate::channel::ChannelView;
use crate::worker::{Directive, Outcome, Slot, StepError};
use vstd::multiset::Multiset;
use vstd::prelude::*;

verus! {

/// The number of workers among `slots` that have not terminated. Each of them
/// holds one receiving handle of the channel.
pub open spec fn live<J>(slots: Seq<Slot<J>>) -> nat
    decreases slots.len(),
{
    if slots.len() == 0 {
        0
    } else {
        live(slots.drop_last()) + if slots.last() is Terminated {
            0nat
        } else {
            1nat
        }
    }
}

/// The number of workers among `slots` that are running a job.
pub open spec fn running<J>(slots: Seq<Slot<J>>) -> nat
    decreases slots.len(),
{
    if slots.len() == 0 {
        0
    } else {
        running(slots.drop_last()) + if slots.last() is Running {
            1nat
        } else {
            0nat
        }
    }
}

/// The mathematical content of a pool.
pub struct PoolView<J> {
    /// The jobs that were submitted and not yet handed to a worker, oldest
    /// first.
    pub pending: Seq<J>,
    /// Whether the pool still takes jobs.
    pub open: bool,
    /// The workers, by ordinal.
    pub slots: Seq<Slot<J>>,
}

/// One step of a pool, as its callers and workers take them.
pub enum Event<J> {
    /// A caller submits a job.
    Submit(J),
    /// The worker with this ordinal polls for a job.
    Poll(int),
    /// The worker with this ordinal reports that its run has ended.
    Complete(int, Outcome),
    /// The owner starts the teardown.
    Shutdown,
}

impl<J> PoolView<J> {
    /// A fresh pool of `size` workers: all idle, nothing queued, open.
    pub open spec fn init(size: nat) -> Self {
        PoolView {
            pending: Seq::empty(),
            open: true,
            slots: Seq::new(size, |w: int| Slot::Idle),
        }
    }

    /// The pool's channel: the queue, the open flag, and one receiving handle
    /// for each worker that has not terminated.
    pub open spec fn channel(self) -> ChannelView<J> {
        ChannelView { pending: self.pending, open: self.open, receivers: live(self.slots) }
    }

    /// Whether the pool has a worker with ordinal `w`.
    pub open spec fn has_worker(self, w: int) -> bool {
        0 <= w < self.slots.len()
    }

    /// Whether a submitted job is taken.
    pub open spec fn accepts(self) -> bool {
        self.channel().accepts()
    }

    /// The pool after a job is submitted.
    pub open spec fn after_submit(self, job: J) -> Self {
        PoolView { pending: self.channel().after_send(job).pending, ..self }
    }

    /// What worker `w` is told when it polls.
    pub open spec fn poll_result(self, w: int) -> Result<Directive<J>, StepError> {
        if self.has_worker(w) {
            self.slots[w].poll_result(self.channel())
        } else {
            Err(StepError::NoSuchWorker)
        }
    }

    /// The pool after worker `w` polled.
    pub open spec fn after_poll(self, w: int) -> Self {
        if self.has_worker(w) {
            PoolView {
                pending: self.slots[w].channel_after_poll(self.channel()).pending,
                open: self.open,
                slots: self.slots.update(w, self.slots[w].after_poll(self.channel())),
            }
        } else {
            self
        }
    }

    /// What worker `w` is told when it reports the end of a run.
    pub open spec fn complete_result(self, w: int) -> Result<(), StepError> {
        if self.has_worker(w) {
            self.slots[w].finish_result()
        } else {
            Err(StepError::NoSuchWorker)
        }
    }

    /// The pool after worker `w` reported the end of a run.
    pub open spec fn after_complete(self, w: int) -> Self {
        if self.has_worker(w) {
            PoolView { slots: self.slots.update(w, self.slots[w].after_finish()), ..self }
        } else {
            self
        }
    }

    /// The pool after the teardown has started: closed, with the queue as it
    /// was.
    pub open spec fn after_shutdown(self) -> Self {
        PoolView { open: false, ..self }
    }

    /// The pool after one step.
    pub open spec fn after(self, event: Event<J>) -> Self {
        match event {
            Event::Submit(job) => self.after_submit(job),
            Event::Poll(w) => self.after_poll(w),
            Event::Complete(w, _) => self.after_complete(w),
            Event::Shutdown => self.after_shutdown(),
        }
    }

    /// Whether every worker has terminated: the point at which a teardown
    /// returns.
    pub open spec fn terminated(self) -> bool {
        forall|w: int| 0 <= w < self.slots.len() ==> (#[trigger] self.slots[w]) is Terminated
    }

    /// What holds of every reachable state: the pool has at least one worker,
    /// and a worker terminates only once the pool is closed and the queue is
    /// empty.
    pub open spec fn inv(self) -> bool {
        &&& self.slots.len() >= 1
        &&& forall|w: int|
            0 <= w < self.slots.len() && (#[trigger] self.slots[w]) is Terminated ==> !self.open
                && self.pending.len() == 0
    }
}

/// A worker that has not terminated counts one towards `live`, a terminated
/// one nothing.
pub open spec fn alive<J>(slot: Slot<J>) -> nat {
    if slot is Terminated {
        0
    } else {
        1
    }
}

/// A worker that runs a job counts one towards `running`, any other nothing.
pub open spec fn busy<J>(slot: Slot<J>) -> nat {
    if slot is Running {
        1
    } else {
        0
    }
}

/// The job that a worker holds, as a multiset of one or none.
pub open spec fn hand<J>(slot: Slot<J>) -> Multiset<J> {
    match slot {
        Slot::Running(job) => Multiset::singleton(job),
        _ => Multiset::empty(),
    }
}

/// The jobs that the workers among `slots` hold, each as often as it is held.
pub open spec fn in_hand<J>(slots: Seq<Slot<J>>) -> Multiset<J>
    decreases slots.len(),
{
    if slots.len() == 0 {
        Multiset::empty()
    } else {
        in_hand(slots.drop_last()).add(hand(slots.last()))
    }
}

/// Replacing one slot changes `live` by what the old and the new slot count.
pub proof fn lemma_live_update<J>(slots: Seq<Slot<J>>, w: int, slot: Slot<J>)
    requires
        0 <= w < slots.len(),
    ensures
        live(slots.update(w, slot)) + alive(slots[w]) == live(slots) + alive(slot),
    decreases slots.len(),
{
    let updated = slots.update(w, slot);
    if w == slots.len() - 1 {
        assert(updated.drop_last() =~= slots.drop_last());
    } else {
        assert(updated.drop_last() =~= slots.drop_last().update(w, slot));
        lemma_live_update(slots.drop_last(), w, slot);
    }
}

/// Replacing one slot changes `running` by what the old and the new slot
/// count.
pub proof fn lemma_running_update<J>(slots: Seq<Slot<J>>, w: int, slot: Slot<J>)
    requires
        0 <= w < slots.len(),
    ensures
        running(slots.update(w, slot)) + busy(slots[w]) == running(slots) + busy(slot),
    decreases slots.len(),
{
    let updated = slots.update(w, slot);
    if w == slots.len() - 1 {
        assert(updated.drop_last() =~= slots.drop_last());
    } else {
        assert(updated.drop_last() =~= slots.drop_last().update(w, slot));
        lemma_running_update(slots.drop_last(), w, slot);
    }
}

/// `live` counts every slot exactly when none has terminated, and none exactly
/// when all have.
pub proof fn lemma_live_bounds<J>(slots: Seq<Slot<J>>)
    ensures
        live(slots) <= slots.len(),
        live(slots) == slots.len() <==> forall|w: int|
            0 <= w < slots.len() ==> !((#[trigger] slots[w]) is Terminated),
        live(slots) == 0 <==> forall|w: int|
            0 <= w < slots.len() ==> (#[trigger] slots[w]) is Terminated,
    decreases slots.len(),
{
    if slots.len() > 0 {
        let front = slots.drop_last();
        lemma_live_bounds(front);
        if live(slots) == slots.len() {
            assert forall|w: int| 0 <= w < slots.len() implies !((#[trigger] slots[w])
                is Terminated) by {
                if w < front.len() {
                    assert(front[w] == slots[w]);
                }
            }
        }
        if live(slots) == 0 {
            assert forall|w: int| 0 <= w < slots.len() implies (#[trigger] slots[w])
                is Terminated by {
                if w < front.len() {
                    assert(front[w] == slots[w]);
                }
            }
        }
    }
}

/// `running` is zero exactly when no worker runs a job.
pub proof fn lemma_running_bounds<J>(slots: Seq<Slot<J>>)
    ensures
        running(slots) <= slots.len(),
        running(slots) == 0 <==> forall|w: int|
            0 <= w < slots.len() ==> !((#[trigger] slots[w]) is Running),
    decreases slots.len(),
{
    if slots.len() > 0 {
        let front = slots.drop_last();
        lemma_running_bounds(front);
        if running(slots) == 0 {
            assert forall|w: int| 0 <= w < slots.len() implies !((#[trigger] slots[w])
                is Running) by {
                if w < front.len() {
                    assert(front[w] == slots[w]);
                }
            }
        }
    }
}

/// Replacing one slot changes `in_hand` by what the old and the new slot
/// hold.
pub proof fn lemma_in_hand_update<J>(slots: Seq<Slot<J>>, w: int, slot: Slot<J>)
    requires
        0 <= w < slots.len(),
    ensures
        in_hand(slots.update(w, slot)).add(hand(slots[w])) == in_hand(slots).add(hand(slot)),
    decreases slots.len(),
{
    broadcast use vstd::multiset::group_multiset_axioms;

    let updated = slots.update(w, slot);
    if w == slots.len() - 1 {
        assert(updated.drop_last() =~= slots.drop_last());
    } else {
        assert(updated.drop_last() =~= slots.drop_last().update(w, slot));
        lemma_in_hand_update(slots.drop_last(), w, slot);
        let front = in_hand(slots.drop_last());
        assert(front.add(hand(slots.last())).add(hand(slot)) =~= front.add(hand(slot)).add(
            hand(slots.last()),
        ));
    }
}

/// Replacing one slot by one that holds the same leaves `in_hand` as it was.
pub proof fn lemma_in_hand_kept<J>(slots: Seq<Slot<J>>, w: int, slot: Slot<J>)
    requires
        0 <= w < slots.len(),
        hand(slot) == hand(slots[w]),
    ensures
        in_hand(slots.update(w, slot)) == in_hand(slots),
    decreases slots.len(),
{
    let updated = slots.update(w, slot);
    if w == slots.len() - 1 {
        assert(updated.drop_last() =~= slots.drop_last());
    } else {
        assert(updated.drop_last() =~= slots.drop_last().update(w, slot));
        lemma_in_hand_kept(slots.drop_last(), w, slot);
    }
}

/// Where no worker runs a job, no job is in a worker's hand.
pub proof fn lemma_in_hand_none<J>(slots: Seq<Slot<J>>)
    requires
        forall|w: int| 0 <= w < slots.len() ==> !((#[trigger] slots[w]) is Running),
    ensures
        in_hand(slots) == Multiset::<J>::empty(),
    decreases slots.len(),
{
    broadcast use vstd::multiset::group_multiset_axioms;

    if slots.len() > 0 {
        lemma_in_hand_none(slots.drop_last());
    }
}

} // verus!
