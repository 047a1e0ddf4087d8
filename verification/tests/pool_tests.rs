use webweb::pool::{FetchOutcome, SubmitOutcome, ThreadPool, QUEUE_CAPACITY};

#[test]
fn fresh_pool_has_the_requested_size_and_an_empty_queue() {
    let pool: ThreadPool<u64> = ThreadPool::new(4);
    assert_eq!(pool.size(), 4);
    assert_eq!(pool.pending(), 0);
    assert_eq!(pool.busy_count(), 0);
    assert!(pool.worker_running(0));
    assert!(pool.worker_running(3));
}

#[test]
fn jobs_are_dispatched_in_submission_order() {
    let mut pool: ThreadPool<&str> = ThreadPool::new(1);
    assert_eq!(pool.execute("first"), SubmitOutcome::Enqueued(0));
    assert_eq!(pool.execute("second"), SubmitOutcome::Enqueued(1));
    assert_eq!(pool.execute("third"), SubmitOutcome::Enqueued(2));

    assert_eq!(pool.receive_job(0), FetchOutcome::Run(0, "first"));
    pool.finish_job(0);
    assert_eq!(pool.receive_job(0), FetchOutcome::Run(1, "second"));
    pool.finish_job(0);
    assert_eq!(pool.receive_job(0), FetchOutcome::Run(2, "third"));
    pool.finish_job(0);
    assert_eq!(pool.receive_job(0), FetchOutcome::Wait);
}

#[test]
fn full_queue_pushes_back_without_dropping() {
    let mut pool: ThreadPool<usize> = ThreadPool::new(1);
    let mut i: usize = 0;
    while i < QUEUE_CAPACITY {
        assert!(matches!(pool.execute(i), SubmitOutcome::Enqueued(_)));
        i += 1;
    }
    // The queue is at capacity and the single worker never pulled: the
    // submitter gets its job back to retry with, and nothing is lost or
    // rejected.
    match pool.execute(777) {
        SubmitOutcome::WouldBlock(job) => assert_eq!(job, 777),
        _ => panic!("a full queue must push back"),
    }
    assert_eq!(pool.pending(), QUEUE_CAPACITY);

    // A worker frees one slot; submission goes through again.
    assert_eq!(pool.receive_job(0), FetchOutcome::Run(0, 0));
    assert_eq!(pool.execute(777), SubmitOutcome::Enqueued(QUEUE_CAPACITY as u64));
}

#[test]
fn submission_after_shutdown_is_refused() {
    let mut pool: ThreadPool<u64> = ThreadPool::new(2);
    pool.begin_shutdown();
    match pool.execute(5) {
        SubmitOutcome::Refused(job) => assert_eq!(job, 5),
        _ => panic!("a closed pool must refuse"),
    }
}

#[test]
fn workers_drain_the_queue_before_exiting() {
    let mut pool: ThreadPool<&str> = ThreadPool::new(1);
    assert!(matches!(pool.execute("a"), SubmitOutcome::Enqueued(_)));
    assert!(matches!(pool.execute("b"), SubmitOutcome::Enqueued(_)));
    pool.begin_shutdown();

    // Already-queued jobs are still handed out after shutdown begins.
    assert_eq!(pool.receive_job(0), FetchOutcome::Run(0, "a"));
    pool.finish_job(0);
    assert_eq!(pool.receive_job(0), FetchOutcome::Run(1, "b"));
    pool.finish_job(0);

    // Only a drained queue lets the worker exit.
    assert_eq!(pool.receive_job(0), FetchOutcome::Exit);
    assert!(!pool.worker_running(0));
    pool.complete_shutdown();
}

#[test]
fn end_to_end_two_workers_five_jobs() {
    let mut pool: ThreadPool<u64> = ThreadPool::new(2);
    let mut counter: u64 = 0;
    let mut peak: usize = 0;
    let mut submitted: u64 = 0;
    while submitted < 5 {
        assert!(matches!(pool.execute(submitted), SubmitOutcome::Enqueued(_)));
        submitted += 1;
    }

    // Two workers pull and run jobs; the driver records how many ran and
    // the highest number running at once.
    let mut busy: [bool; 2] = [false, false];
    loop {
        let mut progressed = false;
        let mut wid: usize = 0;
        while wid < 2 {
            if !busy[wid] {
                match pool.receive_job(wid) {
                    FetchOutcome::Run(_, _) => {
                        busy[wid] = true;
                        progressed = true;
                        if pool.busy_count() > peak {
                            peak = pool.busy_count();
                        }
                    }
                    FetchOutcome::Wait => {}
                    FetchOutcome::Exit => {}
                }
            } else {
                pool.finish_job(wid);
                busy[wid] = false;
                counter += 1;
                progressed = true;
            }
            wid += 1;
        }
        if !progressed {
            break;
        }
    }

    pool.begin_shutdown();
    assert_eq!(pool.receive_job(0), FetchOutcome::Exit);
    assert_eq!(pool.receive_job(1), FetchOutcome::Exit);
    assert!(!pool.worker_running(0));
    assert!(!pool.worker_running(1));
    pool.complete_shutdown();

    assert_eq!(counter, 5);
    assert!(peak <= 2);
    assert!(peak >= 1);
}
