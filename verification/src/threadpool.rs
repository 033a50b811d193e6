//! A fixed-size pool of worker threads pulling jobs from a shared queue.
//!
//! The pool owns the sending half of an unbounded channel; every worker holds
//! a handle to the receiving half behind a mutex, so each queued job is taken
//! and run by exactly one worker. Jobs are opaque closures: the pool owns no
//! domain logic.

use vstd::prelude::*;


verus! {

/// How many worker threads a pool starts.
pub const POOL_SIZE: usize = 20;

/// Sending half of the shared job queue.
///
/// Relies on std::sync::mpsc::Sender: the queue is unbounded, so sending
/// never blocks, and every sent job reaches the receiving half unless the
/// receiver is gone (in which case the job is dropped, as on teardown).
#[verifier::external_body]
struct JobSender {
    inner: std::sync::mpsc::Sender<Box<dyn FnOnce() + Send + 'static>>,
}

/// Receiving half of the shared job queue, shared by all workers.
///
/// Relies on std::sync::Arc and std::sync::Mutex: the lock admits one worker
/// at a time, so each queued job is handed to exactly one worker.
#[verifier::external_body]
struct SharedReceiver {
    inner: std::sync::Arc<
        std::sync::Mutex<std::sync::mpsc::Receiver<Box<dyn FnOnce() + Send + 'static>>>,
    >,
}

/// One queued unit of work, opaque to the pool.
#[verifier::external_body]
struct JobBox {
    inner: Box<dyn FnOnce() + Send + 'static>,
}

/// Relies on std::sync::mpsc::channel: the two halves it returns are
/// connected, and the queue between them is unbounded.
#[verifier::external_body]
fn job_channel() -> (JobSender, SharedReceiver) {
    let (tx, rx) = std::sync::mpsc::channel();
    let shared = std::sync::Arc::new(std::sync::Mutex::new(rx));
    (JobSender { inner: tx }, SharedReceiver { inner: shared })
}

/// Relies on std::sync::Arc::clone: another handle to the same receiver.
#[verifier::external_body]
fn clone_receiver(r: &SharedReceiver) -> SharedReceiver {
    SharedReceiver { inner: std::sync::Arc::clone(&r.inner) }
}

/// Relies on std::sync::mpsc::Sender::send: enqueues the job without
/// blocking; the error case (no receiver left) drops the job, which matches
/// the pool's teardown behaviour.
#[verifier::external_body]
fn send_job<F: FnOnce() + Send + 'static>(s: &JobSender, f: F) {
    let _ = s.inner.send(Box::new(f));
}

/// Relies on std::sync::Mutex::lock and std::sync::mpsc::Receiver::recv:
/// blocks until a job is available and returns it, or returns None once the
/// sending half is gone (or the lock is poisoned), so the worker can stop.
#[verifier::external_body]
fn recv_job(r: &SharedReceiver) -> Option<JobBox> {
    match r.inner.lock() {
        Ok(guard) => match guard.recv() {
            Ok(job) => Some(JobBox { inner: job }),
            Err(_) => None,
        },
        Err(_) => None,
    }
}

/// Relies on calling a boxed FnOnce: runs the job to completion. A panicking
/// job unwinds through the worker thread, taking that worker down without
/// touching the rest of the pool.
#[verifier::external_body]
fn run_job(job: JobBox) {
    (job.inner)()
}

/// One worker of the pool: a handle on the shared queue that consumes and
/// runs jobs until the queue is torn down.
///
/// This library creates no operating-system threads; the caller moves each
/// worker onto a thread of its own and calls [`Worker::run`] there.
pub struct Worker {
    receiver: SharedReceiver,
}

impl Worker {
    /// Blocks until a job is available, runs it to completion, and reports
    /// `true`; reports `false` once the sending half of the queue is gone and
    /// no job is left, so the caller's loop can wind the worker down.
    ///
    /// A worker holds at most one job at a time: the caller asks for the next
    /// job only after this call, and with it the previous job, has finished.
    pub fn run_next(&self) -> (more: bool) {
        match recv_job(&self.receiver) {
            Some(job) => {
                run_job(job);
                true
            },
            None => false,
        }
    }
}

/// The producer side of a fixed-size worker pool over an unbounded queue.
pub struct ThreadPool {
    sender: JobSender,
}

impl ThreadPool {
    /// Builds the shared job queue and `POOL_SIZE` workers on it.
    ///
    /// Each returned worker is ready to block on the queue; the caller gives
    /// each one to a thread and loops over [`Worker::run_next`]. Dropping the
    /// pool (the only sending half) ends every worker after the jobs already
    /// queued have been taken.
    pub fn new() -> (r: (ThreadPool, Vec<Worker>))
        ensures
            r.1@.len() == POOL_SIZE,
    {
        let (sender, receiver) = job_channel();
        let mut workers: Vec<Worker> = Vec::new();
        let mut spawned: usize = 0;
        while spawned < POOL_SIZE
            invariant
                spawned <= POOL_SIZE,
                workers@.len() == spawned,
            decreases POOL_SIZE - spawned,
        {
            let rec = clone_receiver(&receiver);
            workers.push(Worker { receiver: rec });
            spawned = spawned + 1;
        }
        (ThreadPool { sender }, workers)
    }

    /// Enqueues a job and returns at once; the queue is unbounded, so this
    /// never blocks. Exactly one worker eventually dequeues and runs the job,
    /// unless the pool is torn down first.
    pub fn execute<F: FnOnce() + Send + 'static>(&mut self, f: F)
        requires
            f.requires(()),
    {
        send_job(&self.sender, f);
    }
}

} // verus!
