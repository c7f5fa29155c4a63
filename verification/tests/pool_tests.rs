use workpool::pool::{Pool, PoolError, WorkerStatus};

#[test]
fn zero_size_pool_is_refused() {
    assert_eq!(Pool::new(0).unwrap_err(), PoolError::ZeroWorkers);
    assert!(Pool::new(1).is_ok());
}

#[test]
fn fresh_pool_is_idle_and_open() {
    let p = Pool::new(3).unwrap();
    assert_eq!(p.worker_count(), 3);
    assert!(p.is_accepting());
    assert_eq!(p.submitted_count(), 0);
    assert_eq!(p.pending_count(), 0);
    assert_eq!(p.completed_count(), 0);
    for w in 0..3 {
        assert_eq!(p.worker_status(w), WorkerStatus::Idle);
    }
}

#[test]
fn pool_of_two_runs_ten_jobs() {
    // Two workers, ten counting jobs; every completion bumps the counter
    // once, and after the drain the counter reads exactly ten.
    let mut p = Pool::new(2).unwrap();
    for _ in 0..10 {
        p.execute();
    }
    assert_eq!(p.pending_count(), 10);
    let mut counter: u64 = 0;
    // The two workers race for the queue; interleave them.
    while p.pending_count() > 0 {
        for w in 0..2 {
            if p.pending_count() > 0 && p.worker_status(w) == WorkerStatus::Idle {
                p.fetch(w);
            }
            if matches!(p.worker_status(w), WorkerStatus::Busy(_)) {
                p.complete(w, true);
                counter += 1;
            }
        }
    }
    assert_eq!(counter, 10);
    assert_eq!(p.completed_count(), 10);
    p.shutdown();
    assert!(p.is_shut_down());
    assert_eq!(p.completed_count(), 10);
}

#[test]
fn single_worker_runs_jobs_in_order() {
    // One worker, jobs A then B: B still runs, and only after A.
    let mut p = Pool::new(1).unwrap();
    let a = p.execute();
    let b = p.execute();
    p.shutdown();
    assert_eq!(p.completed_count(), 2);
    assert_eq!(p.completed_at(0), a);
    assert_eq!(p.completed_at(1), b);
}

#[test]
fn failed_job_does_not_stop_later_jobs() {
    // The first job reports failure; the worker survives and the jobs
    // submitted afterwards still run.
    let mut p = Pool::new(1).unwrap();
    let bad = p.execute();
    let good = p.execute();
    assert_eq!(p.fetch(0), Some(bad));
    p.complete(0, false);
    assert_eq!(p.worker_status(0), WorkerStatus::Idle);
    let later = p.execute();
    assert_eq!(p.fetch(0), Some(good));
    p.complete(0, true);
    assert_eq!(p.fetch(0), Some(later));
    p.complete(0, true);
    assert_eq!(p.completed_count(), 3);
    p.shutdown();
    assert!(p.is_shut_down());
}

#[test]
fn shutdown_joins_all_workers() {
    let mut p = Pool::new(3).unwrap();
    for _ in 0..5 {
        p.execute();
    }
    p.shutdown();
    assert!(p.is_shut_down());
    assert!(!p.is_accepting());
    assert_eq!(p.pending_count(), 0);
    for w in 0..3 {
        assert_eq!(p.worker_status(w), WorkerStatus::Exited);
    }
}

#[test]
fn every_job_completed_exactly_once_after_drain() {
    let mut p = Pool::new(2).unwrap();
    let mut tickets = Vec::new();
    for _ in 0..7 {
        tickets.push(p.execute());
    }
    p.shutdown();
    assert_eq!(p.completed_count(), 7);
    for t in tickets {
        let hits = (0..p.completed_count()).filter(|&i| p.completed_at(i) == t).count();
        assert_eq!(hits, 1);
    }
}

#[test]
fn worker_exits_only_on_closed_drained_queue() {
    let mut p = Pool::new(2).unwrap();
    p.execute();
    p.close();
    assert!(!p.is_accepting());
    // The queue still drains after closing.
    assert_eq!(p.fetch(0), Some(0));
    p.complete(0, true);
    // Drained and closed: the next fetch ends the worker.
    assert_eq!(p.fetch(0), None);
    assert_eq!(p.worker_status(0), WorkerStatus::Exited);
    assert_eq!(p.worker_status(1), WorkerStatus::Idle);
    p.shutdown();
    assert!(p.is_shut_down());
}
