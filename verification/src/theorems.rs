//! What holds of every run of a pool, whatever its size, whatever is
//! submitted, and however the steps of callers and workers interleave.

use crate::history::{held, jobs, jobs_of, replay, Entry, Run};
use crate::model::{
    in_hand, lemma_in_hand_kept, lemma_in_hand_none, lemma_in_hand_update, lemma_live_bounds,
    lemma_live_update, lemma_running_bounds, lemma_running_update, live, running, Event,
    PoolView,
};
use crate::worker::{Directive, Outcome, Slot, StepError};
use vstd::multiset::Multiset;
use vstd::prelude::*;

verus! {

/// A log with one more line holds, for the worker of that line, one more job,
/// and for any other worker what it held.
pub proof fn lemma_jobs_of_push<J>(log: Seq<Entry<J>>, entry: Entry<J>, w: int)
    ensures
        jobs_of(log.push(entry), w) == if entry.worker == w {
            jobs_of(log, w).push(entry.job)
        } else {
            jobs_of(log, w)
        },
{
    assert(log.push(entry).drop_last() =~= log);
}

/// The jobs of a log with one more line are the jobs of the log, and the job
/// of that line.
pub proof fn lemma_jobs_push<J>(log: Seq<Entry<J>>, entry: Entry<J>)
    ensures
        jobs(log.push(entry)) == jobs(log).push(entry.job),
        jobs(log.push(entry)).to_multiset() == jobs(log).to_multiset().insert(entry.job),
{
    assert(jobs(log.push(entry)) =~= jobs(log).push(entry.job));
    vstd::seq_lib::to_multiset_build(jobs(log), entry.job);
}

/// One step takes a reachable state to a reachable state, and leaves the
/// number of workers as it was.
pub proof fn lemma_step_inv<J>(state: PoolView<J>, event: Event<J>)
    requires
        state.inv(),
    ensures
        state.after(event).inv(),
        state.after(event).slots.len() == state.slots.len(),
{
    // A worker terminates only at its own poll, and only when the pool is
    // closed and the queue is empty.
    lemma_live_bounds(state.slots);
}

/// One step keeps the books balanced.
pub proof fn lemma_step_balanced<J>(run: Run<J>, event: Event<J>)
    requires
        run.state.inv(),
        run.balanced(),
    ensures
        run.step(event).balanced(),
{
    broadcast use vstd::multiset::group_multiset_axioms;

    let state = run.state;
    let ledger = run.ledger;
    let next = run.step(event);
    lemma_step_inv(state, event);
    match event {
        Event::Submit(_) => {},
        Event::Poll(v) => {
            if state.has_worker(v) {
                let slot = state.slots[v].after_poll(state.channel());
                lemma_running_update(state.slots, v, slot);
                match state.poll_result(v) {
                    Ok(Directive::Run(job)) => {
                        // The head of the queue moves to the dispatch log and
                        // into the worker's hand.
                        let entry = Entry { worker: v, job };
                        lemma_jobs_push(ledger.dispatched, entry);
                        lemma_in_hand_update(state.slots, v, slot);
                        assert(in_hand(next.state.slots) =~= in_hand(state.slots).insert(job));
                        assert(jobs(next.ledger.dispatched).to_multiset() =~= jobs(
                            next.ledger.finished,
                        ).to_multiset().add(in_hand(next.state.slots)));
                        assert(jobs(next.ledger.dispatched) + next.state.pending =~= jobs(
                            ledger.dispatched,
                        ) + state.pending);
                        assert forall|w: int|
                            0 <= w < next.state.slots.len() implies #[trigger] jobs_of(
                            next.ledger.dispatched,
                            w,
                        ) == jobs_of(next.ledger.finished, w) + held(next.state.slots[w]) by {
                            lemma_jobs_of_push(ledger.dispatched, entry, w);
                        }
                    },
                    _ => {
                        // The worker waits, exits, or is turned down: no job
                        // moves.
                        lemma_in_hand_kept(state.slots, v, slot);
                    },
                }
            }
        },
        Event::Complete(v, _) => {
            if state.has_worker(v) {
                let slot = state.slots[v].after_finish();
                lemma_running_update(state.slots, v, slot);
                match state.slots[v] {
                    Slot::Running(job) => {
                        // The job moves from the worker's hand to the log of
                        // ended runs.
                        let entry = Entry { worker: v, job };
                        lemma_jobs_push(ledger.finished, entry);
                        lemma_in_hand_update(state.slots, v, slot);
                        assert(in_hand(next.state.slots).insert(job) =~= in_hand(state.slots));
                        assert(jobs(next.ledger.dispatched).to_multiset() =~= jobs(
                            next.ledger.finished,
                        ).to_multiset().add(in_hand(next.state.slots)));
                        assert forall|w: int|
                            0 <= w < next.state.slots.len() implies #[trigger] jobs_of(
                            next.ledger.dispatched,
                            w,
                        ) == jobs_of(next.ledger.finished, w) + held(next.state.slots[w]) by {
                            lemma_jobs_of_push(ledger.finished, entry, w);
                        }
                    },
                    _ => {
                        lemma_in_hand_kept(state.slots, v, slot);
                    },
                }
            }
        },
        Event::Shutdown => {},
    }
}

/// Every run of a pool with at least one worker stays within the reachable
/// states, keeps its workers, and keeps its books balanced.
pub proof fn lemma_replay_balanced<J>(size: nat, trace: Seq<Event<J>>)
    requires
        size >= 1,
    ensures
        replay(size, trace).state.inv(),
        replay(size, trace).state.slots.len() == size,
        replay(size, trace).balanced(),
    decreases trace.len(),
{
    if trace.len() == 0 {
        let run = Run::<J>::start(size);
        lemma_running_bounds(run.state.slots);
        lemma_in_hand_none(run.state.slots);
        assert(jobs(run.ledger.dispatched).to_multiset() =~= jobs(
            run.ledger.finished,
        ).to_multiset().add(in_hand(run.state.slots))) by {
            broadcast use vstd::multiset::group_multiset_axioms;

            assert(jobs(run.ledger.dispatched) =~= jobs(run.ledger.finished));
        }
    } else {
        let before = replay(size, trace.drop_last());
        lemma_replay_balanced(size, trace.drop_last());
        lemma_step_inv(before.state, trace.last());
        lemma_step_balanced(before, trace.last());
    }
}

/// A pool in a reachable state takes jobs exactly as long as it is open: while
/// it is open no worker has terminated, so a receiver is always left.
pub proof fn theorem_open_pool_takes_jobs<J>(state: PoolView<J>)
    requires
        state.inv(),
    ensures
        state.accepts() == state.open,
        state.open ==> live(state.slots) == state.slots.len(),
{
    lemma_live_bounds(state.slots);
}

/// A fresh pool has exactly `size` workers, all idle, and takes jobs. Each of
/// its workers can be the one that takes the first job: once a job is
/// submitted, a poll of any worker hands that job to it.
pub proof fn theorem_fresh_pool_is_ready<J>(size: nat, w: int, job: J)
    requires
        size >= 1,
        0 <= w < size,
    ensures
        PoolView::<J>::init(size).inv(),
        PoolView::<J>::init(size).slots.len() == size,
        forall|v: int| 0 <= v < size ==> (#[trigger] PoolView::<J>::init(size).slots[v]) is Idle,
        PoolView::<J>::init(size).accepts(),
        PoolView::<J>::init(size).after_submit(job).poll_result(w) == Ok::<
            Directive<J>,
            StepError,
        >(Directive::Run(job)),
        PoolView::<J>::init(size).after_submit(job).after_poll(w).slots[w] == Slot::Running(job),
{
    lemma_live_bounds(PoolView::<J>::init(size).slots);
}

/// An idle worker that polls while jobs are queued is handed the oldest of
/// them, and the others stay queued in their order.
pub proof fn theorem_idle_worker_takes_oldest<J>(state: PoolView<J>, w: int)
    requires
        state.has_worker(w),
        state.slots[w] is Idle,
        state.pending.len() > 0,
    ensures
        state.poll_result(w) == Ok::<Directive<J>, StepError>(Directive::Run(state.pending[0])),
        state.after_poll(w).slots[w] == Slot::Running(state.pending[0]),
        state.after_poll(w).pending == state.pending.skip(1),
{
}

/// In every run, no job that the pool took is lost and none is handed out
/// twice: the jobs taken, in the order of their submission, are the jobs
/// handed to workers, in the order of the handing over, followed by the jobs
/// still queued. A worker holds one job at most: what it was handed is what
/// it reported as ended, followed by the job it is running. And no run is
/// lost or counted twice: the jobs handed out are those whose run has ended
/// and those in a worker's hand, each as often.
pub proof fn theorem_no_loss_no_repeat<J>(size: nat, trace: Seq<Event<J>>)
    requires
        size >= 1,
    ensures
        replay(size, trace).ledger.accepted == jobs(replay(size, trace).ledger.dispatched)
            + replay(size, trace).state.pending,
        replay(size, trace).ledger.accepted.len() == replay(size, trace).ledger.dispatched.len()
            + replay(size, trace).state.pending.len(),
        forall|w: int|
            0 <= w < size ==> #[trigger] jobs_of(replay(size, trace).ledger.dispatched, w)
                == jobs_of(replay(size, trace).ledger.finished, w) + held(
                replay(size, trace).state.slots[w],
            ),
        replay(size, trace).ledger.dispatched.len() == replay(size, trace).ledger.finished.len()
            + running(replay(size, trace).state.slots),
        jobs(replay(size, trace).ledger.dispatched).to_multiset() == jobs(
            replay(size, trace).ledger.finished,
        ).to_multiset().add(in_hand(replay(size, trace).state.slots)),
{
    lemma_replay_balanced(size, trace);
}

/// However the submissions of several callers and the polls of several
/// workers interleave, the job of the k-th handing over is the k-th job that
/// the pool took, and it goes to one worker of the pool. So each job taken
/// has at most one handing over, and no job goes to two workers.
pub proof fn theorem_one_worker_per_job<J>(size: nat, trace: Seq<Event<J>>, k: int)
    requires
        size >= 1,
        0 <= k < replay(size, trace).ledger.dispatched.len(),
    ensures
        k < replay(size, trace).ledger.accepted.len(),
        replay(size, trace).ledger.dispatched[k].job == replay(size, trace).ledger.accepted[k],
        0 <= replay(size, trace).ledger.dispatched[k].worker < size,
{
    lemma_replay_balanced(size, trace);
}

/// The trace with every reported outcome replaced by a completion.
pub open spec fn forgiving<J>(trace: Seq<Event<J>>) -> Seq<Event<J>> {
    Seq::new(
        trace.len(),
        |k: int|
            match trace[k] {
                Event::Complete(w, _) => Event::Complete(w, Outcome::Completed),
                other => other,
            },
    )
}

/// A job that fails changes nothing for the pool, for the other workers, or
/// for the jobs that follow: a run in which jobs fail goes through the same
/// states, and hands out and ends the same jobs, as the run in which each of
/// them completes.
pub proof fn theorem_failure_is_contained<J>(size: nat, trace: Seq<Event<J>>)
    ensures
        replay(size, trace) == replay(size, forgiving(trace)),
    decreases trace.len(),
{
    if trace.len() > 0 {
        theorem_failure_is_contained(size, trace.drop_last());
        assert(forgiving(trace).drop_last() =~= forgiving(trace.drop_last()));
    }
}

/// After a worker reported a failed run in an open pool it is idle, the pool
/// still takes jobs, and with nothing else queued the next job submitted goes
/// to that worker at its next poll.
pub proof fn theorem_worker_survives_failure<J>(state: PoolView<J>, w: int, job: J)
    requires
        state.inv(),
        state.open,
        state.has_worker(w),
        state.slots[w] is Running,
        state.pending.len() == 0,
    ensures
        state.after(Event::Complete(w, Outcome::Failed)) == state.after(
            Event::Complete(w, Outcome::Completed),
        ),
        state.after(Event::Complete(w, Outcome::Failed)).slots[w] is Idle,
        state.after(Event::Complete(w, Outcome::Failed)).accepts(),
        state.after(Event::Complete(w, Outcome::Failed)).after_submit(job).poll_result(w) == Ok::<
            Directive<J>,
            StepError,
        >(Directive::Run(job)),
{
    lemma_step_inv(state, Event::Complete(w, Outcome::Failed));
    lemma_live_bounds(state.after(Event::Complete(w, Outcome::Failed)).slots);
}

/// When the teardown returns, that is, when every worker has terminated,
/// nothing is left undone: the pool is closed, the queue is empty, no run is
/// open, every job that the pool took was handed to a worker, in the order of
/// submission, and every worker reported the end of each job it was handed.
/// The jobs whose run has ended are the jobs that the pool took, each as
/// often as it was taken.
pub proof fn theorem_teardown_completes_all<J>(size: nat, trace: Seq<Event<J>>)
    requires
        size >= 1,
        replay(size, trace).state.terminated(),
    ensures
        !replay(size, trace).state.open,
        replay(size, trace).state.pending.len() == 0,
        live(replay(size, trace).state.slots) == 0,
        running(replay(size, trace).state.slots) == 0,
        jobs(replay(size, trace).ledger.dispatched) == replay(size, trace).ledger.accepted,
        replay(size, trace).ledger.finished.len() == replay(size, trace).ledger.accepted.len(),
        jobs(replay(size, trace).ledger.finished).to_multiset() == replay(
            size,
            trace,
        ).ledger.accepted.to_multiset(),
        forall|w: int|
            0 <= w < size ==> #[trigger] jobs_of(replay(size, trace).ledger.finished, w)
                == jobs_of(replay(size, trace).ledger.dispatched, w),
{
    lemma_replay_balanced(size, trace);
    let run = replay(size, trace);
    lemma_live_bounds(run.state.slots);
    lemma_running_bounds(run.state.slots);
    lemma_in_hand_none(run.state.slots);
    assert(jobs(run.ledger.finished).to_multiset().add(Multiset::<J>::empty()) =~= jobs(
        run.ledger.finished,
    ).to_multiset()) by {
        broadcast use vstd::multiset::group_multiset_axioms;

    }
}

/// The work that a pool has before it: two units for each queued job, which
/// is still to be handed out and to be run, and one for each job that is
/// running.
pub open spec fn backlog<J>(state: PoolView<J>) -> nat {
    2 * state.pending.len() + running(state.slots)
}

/// While work is left, some worker can take a step that reduces it: a pool
/// never comes to a halt with a job queued or running. The step is the report
/// of a running worker or the poll of an idle one.
pub proof fn theorem_work_never_stalls<J>(state: PoolView<J>) -> (event: Event<J>)
    requires
        state.inv(),
        backlog(state) > 0,
    ensures
        event is Poll || event is Complete,
        backlog(state.after(event)) < backlog(state),
{
    lemma_running_bounds(state.slots);
    if running(state.slots) > 0 {
        let w = choose|w: int| 0 <= w < state.slots.len() && (#[trigger] state.slots[w]) is Running;
        lemma_running_update(state.slots, w, state.slots[w].after_finish());
        Event::Complete(w, Outcome::Completed)
    } else {
        // A job is queued, so no worker has terminated, and none is running:
        // the first worker is idle and takes the job.
        lemma_running_update(state.slots, 0, state.slots[0].after_poll(state.channel()));
        Event::Poll(0)
    }
}

/// What separates a pool in teardown from its end: the backlog, and one unit
/// for each worker that has yet to terminate.
pub open spec fn remaining<J>(state: PoolView<J>) -> nat {
    backlog(state) + live(state.slots)
}

/// Once the teardown has started, no worker waits any more. Whichever worker
/// has not terminated, its next step is taken, is not the word to wait, and
/// brings the pool closer to its end.
pub proof fn theorem_teardown_terminates<J>(state: PoolView<J>, w: int, outcome: Outcome)
    requires
        state.inv(),
        !state.open,
        state.has_worker(w),
        !(state.slots[w] is Terminated),
    ensures
        state.slots[w] is Idle ==> state.poll_result(w) is Ok && state.poll_result(w)
            != Ok::<Directive<J>, StepError>(Directive::Wait) && remaining(
            state.after(Event::Poll(w)),
        ) < remaining(state),
        state.slots[w] is Running ==> state.complete_result(w) is Ok && remaining(
            state.after(Event::Complete(w, outcome)),
        ) < remaining(state),
{
    lemma_live_bounds(state.slots);
    lemma_running_bounds(state.slots);
    if state.slots[w] is Idle {
        let slot = state.slots[w].after_poll(state.channel());
        lemma_live_update(state.slots, w, slot);
        lemma_running_update(state.slots, w, slot);
    } else {
        let slot = state.slots[w].after_finish();
        lemma_live_update(state.slots, w, slot);
        lemma_running_update(state.slots, w, slot);
    }
}

/// A pool is at its end, with every worker terminated, exactly when nothing
/// remains: no job queued, none running, no worker left.
pub proof fn theorem_end_is_where_nothing_remains<J>(state: PoolView<J>)
    requires
        state.inv(),
    ensures
        remaining(state) == 0 <==> state.terminated(),
{
    lemma_live_bounds(state.slots);
    lemma_running_bounds(state.slots);
}

/// In a log that names one worker only, the jobs of that worker are the jobs
/// of the log.
pub proof fn lemma_jobs_of_sole_worker<J>(log: Seq<Entry<J>>, w: int)
    requires
        forall|k: int| 0 <= k < log.len() ==> (#[trigger] log[k]).worker == w,
    ensures
        jobs_of(log, w) == jobs(log),
    decreases log.len(),
{
    if log.len() > 0 {
        lemma_jobs_of_sole_worker(log.drop_last(), w);
    }
}

/// A pool of one worker runs its jobs one after the other, in the order of
/// their submission: the jobs taken are the jobs whose run has ended, in the
/// order in which they ended, then the job that is running, then the jobs
/// still queued.
pub proof fn theorem_single_worker_runs_in_order<J>(trace: Seq<Event<J>>)
    ensures
        replay(1, trace).ledger.accepted == jobs(replay(1, trace).ledger.finished) + held(
            replay(1, trace).state.slots[0],
        ) + replay(1, trace).state.pending,
{
    lemma_replay_balanced(1, trace);
    let run = replay(1, trace);
    lemma_jobs_of_sole_worker(run.ledger.dispatched, 0);
    lemma_jobs_of_sole_worker(run.ledger.finished, 0);
}

} // verus!
