use web_server::channel::JobChannel;
use web_server::worker::{Directive, Outcome, StepError, Worker, WorkerState};

#[test]
fn new_worker_is_idle_and_keeps_its_ordinal() {
    let worker: Worker<u32> = Worker::new(5);
    assert_eq!(worker.id(), 5);
    assert_eq!(worker.state(), WorkerState::Idle);
}

#[test]
fn idle_worker_waits_on_open_empty_channel() {
    let mut ch: JobChannel<u32> = JobChannel::new(1);
    let mut worker: Worker<u32> = Worker::new(0);
    assert_eq!(worker.poll(&mut ch), Ok(Directive::Wait));
    assert_eq!(worker.state(), WorkerState::Idle);
    assert_eq!(ch.receivers(), 1);
}

#[test]
fn worker_runs_then_returns_to_idle() {
    let mut ch: JobChannel<u32> = JobChannel::new(1);
    let mut worker: Worker<u32> = Worker::new(0);
    assert_eq!(ch.send(11), Ok(()));
    assert_eq!(worker.poll(&mut ch), Ok(Directive::Run(11)));
    assert_eq!(worker.state(), WorkerState::Running);
    assert!(ch.is_empty());
    assert_eq!(worker.finish(Outcome::Completed), Ok(()));
    assert_eq!(worker.state(), WorkerState::Idle);
    assert_eq!(worker.id(), 0);
}

#[test]
fn worker_returns_to_idle_after_a_failed_job() {
    let mut ch: JobChannel<u32> = JobChannel::new(1);
    let mut worker: Worker<u32> = Worker::new(3);
    assert_eq!(ch.send(1), Ok(()));
    assert_eq!(ch.send(2), Ok(()));
    assert_eq!(worker.poll(&mut ch), Ok(Directive::Run(1)));
    assert_eq!(worker.finish(Outcome::Failed), Ok(()));
    assert_eq!(worker.state(), WorkerState::Idle);
    assert_eq!(worker.poll(&mut ch), Ok(Directive::Run(2)));
    assert_eq!(worker.state(), WorkerState::Running);
}

#[test]
fn running_worker_cannot_poll() {
    let mut ch: JobChannel<u32> = JobChannel::new(1);
    let mut worker: Worker<u32> = Worker::new(0);
    assert_eq!(ch.send(1), Ok(()));
    assert_eq!(ch.send(2), Ok(()));
    assert_eq!(worker.poll(&mut ch), Ok(Directive::Run(1)));
    assert_eq!(worker.poll(&mut ch), Err(StepError::NotIdle));
    assert_eq!(worker.state(), WorkerState::Running);
    assert_eq!(ch.len(), 1);
}

#[test]
fn idle_worker_cannot_finish() {
    let mut worker: Worker<u32> = Worker::new(0);
    assert_eq!(worker.finish(Outcome::Completed), Err(StepError::NotRunning));
    assert_eq!(worker.state(), WorkerState::Idle);
}

#[test]
fn worker_exits_on_closed_empty_channel_and_hangs_up() {
    let mut ch: JobChannel<u32> = JobChannel::new(2);
    let mut worker: Worker<u32> = Worker::new(1);
    assert_eq!(ch.send(4), Ok(()));
    ch.close();
    assert_eq!(worker.poll(&mut ch), Ok(Directive::Run(4)));
    assert_eq!(worker.finish(Outcome::Completed), Ok(()));
    assert_eq!(ch.receivers(), 2);
    assert_eq!(worker.poll(&mut ch), Ok(Directive::Exit));
    assert_eq!(worker.state(), WorkerState::Terminated);
    assert_eq!(ch.receivers(), 1);
}

#[test]
fn terminated_worker_takes_no_further_step() {
    let mut ch: JobChannel<u32> = JobChannel::new(1);
    let mut worker: Worker<u32> = Worker::new(0);
    ch.close();
    assert_eq!(worker.poll(&mut ch), Ok(Directive::Exit));
    assert_eq!(worker.poll(&mut ch), Err(StepError::NotIdle));
    assert_eq!(worker.finish(Outcome::Completed), Err(StepError::NotRunning));
    assert_eq!(worker.state(), WorkerState::Terminated);
    assert_eq!(ch.receivers(), 0);
}
