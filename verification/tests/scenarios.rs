use std::cell::RefCell;
use std::rc::Rc;
use std::sync::{Arc, Mutex};
use web_server::channel::SendError;
use web_server::pool::Pool;
use web_server::worker::{Directive, Outcome, StepError, WorkerState};

type Job = Box<dyn FnOnce() -> Result<(), String>>;

fn pool_of(size: usize) -> Pool<Job> {
    match Pool::new(size) {
        Ok(pool) => pool,
        Err(e) => panic!("no pool of size {}: {:?}", size, e),
    }
}

fn submit(pool: &mut Pool<Job>, job: Job) {
    assert!(pool.submit(job).is_ok());
}

/// Runs a job the way a worker does: the failure of the job is caught here.
fn run(job: Job) -> Outcome {
    match job() {
        Ok(()) => Outcome::Completed,
        Err(_) => Outcome::Failed,
    }
}

/// One turn of worker `w`: poll, and run what was handed over.
fn turn(pool: &mut Pool<Job>, w: usize) -> Option<Directive<()>> {
    match pool.poll(w) {
        Ok(Directive::Run(job)) => {
            let outcome = run(job);
            assert_eq!(pool.complete(w, outcome), Ok(()));
            Some(Directive::Run(()))
        }
        Ok(Directive::Wait) => Some(Directive::Wait),
        Ok(Directive::Exit) => Some(Directive::Exit),
        Err(_) => None,
    }
}

/// The teardown: close, then let every worker go on until it exits.
fn teardown(pool: &mut Pool<Job>) {
    pool.shutdown();
    let mut steps = 0usize;
    while !pool.is_terminated() {
        for w in 0..pool.size() {
            if pool.worker_state(w) == Some(WorkerState::Idle) {
                let directive = turn(pool, w);
                assert!(directive != Some(Directive::Wait));
                steps += 1;
            }
        }
        assert!(steps < 10_000);
    }
}

#[test]
fn four_workers_run_ten_jobs_exactly_once() {
    let seen: Arc<Mutex<Vec<usize>>> = Arc::new(Mutex::new(Vec::new()));
    let mut pool = pool_of(4);
    for index in 0..10usize {
        let seen = Arc::clone(&seen);
        submit(
            &mut pool,
            Box::new(move || {
                seen.lock().unwrap().push(index);
                Ok(())
            }),
        );
    }
    teardown(&mut pool);
    assert!(pool.is_terminated());
    let mut seen = seen.lock().unwrap().clone();
    assert_eq!(seen.len(), 10);
    seen.sort();
    assert_eq!(seen, (0..10).collect::<Vec<usize>>());
}

#[test]
fn four_workers_run_ten_jobs_exactly_once_out_of_step() {
    let seen: Rc<RefCell<Vec<usize>>> = Rc::new(RefCell::new(Vec::new()));
    let mut pool = pool_of(4);
    for index in 0..10usize {
        let seen = Rc::clone(&seen);
        submit(
            &mut pool,
            Box::new(move || {
                seen.borrow_mut().push(index);
                Ok(())
            }),
        );
    }
    // All four workers take a job before any of them runs it, and they finish
    // in the reverse order.
    let mut in_hand: Vec<(usize, Job)> = Vec::new();
    for w in 0..4 {
        match pool.poll(w) {
            Ok(Directive::Run(job)) => in_hand.push((w, job)),
            _ => panic!("worker {} got no job", w),
        }
    }
    assert_eq!(pool.queued(), 6);
    while let Some((w, job)) = in_hand.pop() {
        let outcome = run(job);
        assert_eq!(pool.complete(w, outcome), Ok(()));
    }
    assert_eq!(*seen.borrow(), vec![3, 2, 1, 0]);
    // Worker 2 alone works off three more.
    for _ in 0..3 {
        assert_eq!(turn(&mut pool, 2), Some(Directive::Run(())));
    }
    assert_eq!(*seen.borrow(), vec![3, 2, 1, 0, 4, 5, 6]);
    teardown(&mut pool);
    let mut all = seen.borrow().clone();
    all.sort();
    assert_eq!(all, (0..10).collect::<Vec<usize>>());
}

#[test]
fn single_worker_runs_jobs_one_after_the_other() {
    let record: Rc<RefCell<Vec<&'static str>>> = Rc::new(RefCell::new(Vec::new()));
    let mut pool = pool_of(1);
    let slow = Rc::clone(&record);
    submit(
        &mut pool,
        Box::new(move || {
            let mut spin = 0u64;
            for i in 0..100_000u64 {
                spin = spin.wrapping_add(i);
            }
            assert!(spin > 0);
            slow.borrow_mut().push("A");
            Ok(())
        }),
    );
    let quick = Rc::clone(&record);
    submit(
        &mut pool,
        Box::new(move || {
            quick.borrow_mut().push("B");
            Ok(())
        }),
    );
    // While A is in the worker's hands, B cannot be handed out.
    let a = match pool.poll(0) {
        Ok(Directive::Run(job)) => job,
        _ => panic!("no job for the worker"),
    };
    assert!(matches!(pool.poll(0), Err(StepError::NotIdle)));
    assert_eq!(pool.queued(), 1);
    assert!(record.borrow().is_empty());
    let outcome = run(a);
    assert_eq!(*record.borrow(), vec!["A"]);
    assert_eq!(pool.complete(0, outcome), Ok(()));
    teardown(&mut pool);
    assert_eq!(*record.borrow(), vec!["A", "B"]);
}

#[test]
fn failed_job_does_not_stop_the_next() {
    let record: Rc<RefCell<Vec<&'static str>>> = Rc::new(RefCell::new(Vec::new()));
    let mut pool = pool_of(2);
    submit(&mut pool, Box::new(|| Err(String::from("deliberate failure"))));
    let ok = Rc::clone(&record);
    submit(
        &mut pool,
        Box::new(move || {
            ok.borrow_mut().push("ok");
            Ok(())
        }),
    );
    teardown(&mut pool);
    assert_eq!(*record.borrow(), vec!["ok"]);
    assert!(pool.is_terminated());
}

#[test]
fn worker_that_ran_a_failed_job_runs_the_next() {
    let record: Rc<RefCell<Vec<u32>>> = Rc::new(RefCell::new(Vec::new()));
    let mut pool = pool_of(2);
    submit(&mut pool, Box::new(|| Err(String::from("deliberate failure"))));
    let failing = match pool.poll(1) {
        Ok(Directive::Run(job)) => job,
        _ => panic!("no job for the worker"),
    };
    let outcome = run(failing);
    assert_eq!(outcome, Outcome::Failed);
    assert_eq!(pool.complete(1, outcome), Ok(()));
    assert_eq!(pool.worker_state(1), Some(WorkerState::Idle));
    assert_eq!(pool.worker_state(0), Some(WorkerState::Idle));
    assert!(pool.is_open());
    for n in [1u32, 2, 3] {
        let record = Rc::clone(&record);
        submit(
            &mut pool,
            Box::new(move || {
                record.borrow_mut().push(n);
                Ok(())
            }),
        );
    }
    assert_eq!(turn(&mut pool, 1), Some(Directive::Run(())));
    assert_eq!(turn(&mut pool, 0), Some(Directive::Run(())));
    assert_eq!(turn(&mut pool, 1), Some(Directive::Run(())));
    assert_eq!(*record.borrow(), vec![1, 2, 3]);
}

#[test]
fn more_jobs_than_workers_all_run_once() {
    for size in 1..=5usize {
        let jobs = 3 * size + 1;
        let counts: Rc<RefCell<Vec<u32>>> = Rc::new(RefCell::new(vec![0; jobs]));
        let mut pool = pool_of(size);
        for index in 0..jobs {
            let counts = Rc::clone(&counts);
            submit(
                &mut pool,
                Box::new(move || {
                    counts.borrow_mut()[index] += 1;
                    Ok(())
                }),
            );
        }
        assert_eq!(pool.queued(), jobs);
        teardown(&mut pool);
        assert_eq!(*counts.borrow(), vec![1u32; jobs]);
    }
}

#[test]
fn interleaved_submitters_never_share_a_job() {
    // Two callers submit in turn while three workers poll in between. Each
    // job notes the worker that ran it.
    let ran_by: Rc<RefCell<Vec<Vec<usize>>>> = Rc::new(RefCell::new(vec![Vec::new(); 12]));
    let current: Rc<RefCell<usize>> = Rc::new(RefCell::new(usize::MAX));
    let mut pool = pool_of(3);
    let mut next = 0usize;
    let mut w = 0usize;
    for _round in 0..6 {
        for _caller in 0..2 {
            let index = next;
            next += 1;
            let ran_by = Rc::clone(&ran_by);
            let current = Rc::clone(&current);
            submit(
                &mut pool,
                Box::new(move || {
                    let worker = *current.borrow();
                    ran_by.borrow_mut()[index].push(worker);
                    Ok(())
                }),
            );
        }
        *current.borrow_mut() = w;
        assert_eq!(turn(&mut pool, w), Some(Directive::Run(())));
        w = (w + 1) % 3;
    }
    pool.shutdown();
    while !pool.is_terminated() {
        for v in 0..3 {
            *current.borrow_mut() = v;
            turn(&mut pool, v);
        }
    }
    for (index, workers) in ran_by.borrow().iter().enumerate() {
        assert_eq!(workers.len(), 1, "job {} ran {} times", index, workers.len());
        assert!(workers[0] < 3);
    }
}

#[test]
fn teardown_finishes_what_was_submitted_and_leaves_no_worker() {
    let done: Rc<RefCell<u32>> = Rc::new(RefCell::new(0));
    let mut pool = pool_of(3);
    for _ in 0..7 {
        let done = Rc::clone(&done);
        submit(
            &mut pool,
            Box::new(move || {
                *done.borrow_mut() += 1;
                Ok(())
            }),
        );
    }
    // One job is in a worker's hands when the teardown starts.
    let held = match pool.poll(0) {
        Ok(Directive::Run(job)) => job,
        _ => panic!("no job for the worker"),
    };
    pool.shutdown();
    let late: Job = Box::new(|| Ok(()));
    assert!(matches!(pool.submit(late), Err(SendError(_))));
    assert_eq!(pool.queued(), 6);
    assert!(!pool.is_terminated());
    let outcome = run(held);
    assert_eq!(pool.complete(0, outcome), Ok(()));
    teardown(&mut pool);
    assert_eq!(*done.borrow(), 7);
    assert_eq!(pool.queued(), 0);
    for w in 0..3 {
        assert_eq!(pool.worker_state(w), Some(WorkerState::Terminated));
    }
    assert!(pool.is_terminated());
}

#[test]
fn rejected_job_comes_back_unrun() {
    let ran: Rc<RefCell<bool>> = Rc::new(RefCell::new(false));
    let mut pool = pool_of(1);
    pool.shutdown();
    let flag = Rc::clone(&ran);
    let job: Job = Box::new(move || {
        *flag.borrow_mut() = true;
        Ok(())
    });
    let back = match pool.submit(job) {
        Err(SendError(job)) => job,
        Ok(()) => panic!("a closed pool took a job"),
    };
    assert!(!*ran.borrow());
    assert_eq!(run(back), Outcome::Completed);
    assert!(*ran.borrow());
}
