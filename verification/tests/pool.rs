use std::sync::mpsc;

use minihttp::{ThreadPool, POOL_SIZE};

#[test]
fn the_pool_starts_with_its_fixed_worker_count() {
    let (_pool, workers) = ThreadPool::new();
    assert_eq!(workers.len(), POOL_SIZE);
}

#[test]
fn every_queued_job_runs_exactly_once() {
    // Queue far more jobs than there are workers; each job reports its
    // number. Dropping the pool closes the queue, after which the workers
    // drain what was queued and stop.
    let (mut pool, workers) = ThreadPool::new();
    let (tx, rx) = mpsc::channel::<usize>();
    let jobs = 5 * POOL_SIZE;
    for i in 0..jobs {
        let tx = tx.clone();
        pool.execute(move || {
            tx.send(i).unwrap();
        });
    }
    drop(tx);
    drop(pool);
    for worker in &workers {
        while worker.run_next() {}
    }
    let mut seen = vec![0usize; jobs];
    let mut received = 0;
    while let Ok(i) = rx.try_recv() {
        seen[i] += 1;
        received += 1;
    }
    assert_eq!(received, jobs);
    assert!(seen.iter().all(|&count| count == 1));
}

#[test]
fn enqueueing_outlives_the_workers() {
    // Sending to the queue never blocks, even with every worker gone.
    let (mut pool, workers) = ThreadPool::new();
    drop(workers);
    for _ in 0..1000 {
        pool.execute(|| {});
    }
}
