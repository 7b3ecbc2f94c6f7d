use rust_webserver::pool::{Step, ThreadPool, WorkerState};

/// Lets every idle worker ask for work once, in worker order; returns the
/// tickets handed out.
fn offer_work(p: &mut ThreadPool) -> Vec<u64> {
    let mut got = Vec::new();
    for w in 0..p.size() {
        if p.worker_state(w) == WorkerState::Idle {
            if let Step::Run(t) = p.take_next(w) {
                got.push(t);
            }
        }
    }
    got
}

fn running_count(p: &ThreadPool) -> usize {
    (0..p.size())
        .filter(|&w| matches!(p.worker_state(w), WorkerState::Running(_)))
        .count()
}

/// Finishes every running job; returns the tickets that completed.
fn finish_all(p: &mut ThreadPool) -> Vec<u64> {
    let mut done = Vec::new();
    for w in 0..p.size() {
        if let WorkerState::Running(_) = p.worker_state(w) {
            done.push(p.finish(w));
        }
    }
    done
}

#[test]
fn new_pool_is_open_and_idle() {
    let p = ThreadPool::new(3);
    assert_eq!(p.size(), 3);
    assert!(p.is_open());
    assert_eq!(p.pending(), 0);
    assert_eq!(p.submitted(), 0);
    for w in 0..3 {
        assert_eq!(p.worker_state(w), WorkerState::Idle);
    }
    assert!(!p.is_terminated());
}

#[test]
fn execute_numbers_jobs_in_submission_order() {
    let mut p = ThreadPool::new(1);
    assert_eq!(p.execute(), Some(0));
    assert_eq!(p.execute(), Some(1));
    assert_eq!(p.execute(), Some(2));
    assert_eq!(p.pending(), 3);
    assert_eq!(p.submitted(), 3);
}

#[test]
fn idle_worker_waits_on_empty_open_queue() {
    let mut p = ThreadPool::new(2);
    assert_eq!(p.take_next(0), Step::Wait);
    assert_eq!(p.worker_state(0), WorkerState::Idle);
}

#[test]
fn single_worker_runs_jobs_in_submission_order() {
    let mut p = ThreadPool::new(1);
    for _ in 0..5 {
        p.execute();
    }
    let mut order = Vec::new();
    loop {
        match p.take_next(0) {
            Step::Run(t) => {
                order.push(t);
                assert_eq!(p.finish(0), t);
            }
            _ => break,
        }
    }
    assert_eq!(order, vec![0, 1, 2, 3, 4]);
}

#[test]
fn every_job_runs_exactly_once() {
    for size in 1..5 {
        let mut p = ThreadPool::new(size);
        for _ in 0..7 {
            p.execute();
        }
        p.shutdown();
        let mut started = Vec::new();
        let mut completed = Vec::new();
        while !p.is_terminated() {
            for w in 0..p.size() {
                match p.worker_state(w) {
                    WorkerState::Idle => {
                        if let Step::Run(t) = p.take_next(w) {
                            started.push(t);
                        }
                    }
                    WorkerState::Running(_) => completed.push(p.finish(w)),
                    WorkerState::Terminated => {}
                }
            }
        }
        started.sort();
        completed.sort();
        assert_eq!(started, (0..7).collect::<Vec<u64>>());
        assert_eq!(completed, (0..7).collect::<Vec<u64>>());
    }
}

#[test]
fn two_workers_run_at_most_two_of_four_jobs() {
    let mut p = ThreadPool::new(2);
    for _ in 0..4 {
        p.execute();
    }
    let first = offer_work(&mut p);
    assert_eq!(first, vec![0, 1]);
    assert_eq!(running_count(&p), 2);
    assert_eq!(p.pending(), 2);
    let mut log = finish_all(&mut p);
    let second = offer_work(&mut p);
    assert_eq!(second, vec![2, 3]);
    assert_eq!(running_count(&p), 2);
    log.extend(finish_all(&mut p));
    log.sort();
    log.dedup();
    assert_eq!(log, vec![0, 1, 2, 3]);
    assert_eq!(running_count(&p), 0);
}

#[test]
fn shutdown_drains_queue_then_workers_exit() {
    let mut p = ThreadPool::new(2);
    p.execute();
    p.execute();
    p.execute();
    p.shutdown();
    assert!(!p.is_open());
    assert_eq!(p.execute(), None);
    assert_eq!(p.submitted(), 3);
    assert_eq!(p.pending(), 3);
    assert_eq!(p.take_next(0), Step::Run(0));
    assert_eq!(p.take_next(1), Step::Run(1));
    assert_eq!(p.finish(1), 1);
    assert_eq!(p.take_next(1), Step::Run(2));
    assert_eq!(p.finish(0), 0);
    assert_eq!(p.take_next(0), Step::Exit);
    assert_eq!(p.worker_state(0), WorkerState::Terminated);
    assert!(!p.is_terminated());
    assert_eq!(p.finish(1), 2);
    assert_eq!(p.take_next(1), Step::Exit);
    assert!(p.is_terminated());
    assert_eq!(p.pending(), 0);
}

#[test]
fn idle_pool_teardown_runs_nothing() {
    let mut p = ThreadPool::new(3);
    p.shutdown();
    for w in 0..3 {
        assert_eq!(p.take_next(w), Step::Exit);
    }
    assert!(p.is_terminated());
    assert_eq!(p.submitted(), 0);
}

#[test]
fn shutdown_twice_keeps_pool_closed() {
    let mut p = ThreadPool::new(1);
    p.execute();
    p.shutdown();
    p.shutdown();
    assert!(!p.is_open());
    assert_eq!(p.pending(), 1);
    assert_eq!(p.take_next(0), Step::Run(0));
}
