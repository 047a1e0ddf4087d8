//! The worker-pool protocol.
//!
//! A `ThreadPool` of fixed size owns a bounded FIFO queue of jobs and a set
//! of workers. Submitters enqueue jobs through [`ThreadPool::execute`]; each
//! worker repeatedly pulls the next job with [`ThreadPool::receive_job`],
//! runs it, and reports back with [`ThreadPool::finish_job`]. Shutdown
//! closes the queue ([`ThreadPool::begin_shutdown`]), lets the workers drain
//! it and exit, and then joins them ([`ThreadPool::complete_shutdown`]).
//!
//! This module verifies the protocol itself: every decision (admit, block,
//! refuse, hand out, exit) is made here, over plain data, and the queue
//! carries the actual job values. The surrounding program owns the threads
//! and blocking primitives; it performs each action this module decides and
//! feeds the outcome back in. A job may be any owned value — typically a
//! closure to call once — and each admitted job also receives a `u64`
//! identifier, issued in submission order, which the accounting below is
//! stated over.

use vstd::prelude::*;
use vstd::multiset::Multiset;

verus! {

/// Fixed capacity of the job queue, chosen at pool construction.
pub const QUEUE_CAPACITY: usize = 64;

/// Lifecycle of the pool: accepting jobs, draining after shutdown began,
/// or fully closed with every worker joined.
#[derive(Clone, Copy, Debug, PartialEq, Eq, Structural)]
pub enum PoolState {
    Open,
    ShuttingDown,
    Closed,
}

/// One worker: an integer identity, whether its thread is still running,
/// and the identifier of the job it is currently executing, if any.
#[derive(Clone, Copy, Debug, PartialEq, Eq, Structural)]
pub struct Worker {
    pub id: usize,
    pub running: bool,
    pub busy: Option<u64>,
}

impl Worker {
    pub fn new(id: usize) -> (w: Worker)
        ensures
            w.id == id,
            w.running,
            w.busy is None,
    {
        Worker { id, running: true, busy: None }
    }
}

/// What happened to a submission. The job comes back to the caller
/// whenever it was not admitted.
#[derive(Debug, PartialEq, Eq, Structural)]
pub enum SubmitOutcome<T> {
    /// The job was admitted and given this identifier.
    Enqueued(u64),
    /// The queue is at capacity: the submitter must block and retry;
    /// nothing was dropped.
    WouldBlock(T),
    /// The pool has begun shutting down; submission is a caller error.
    Refused(T),
}

/// What a worker's pull from the queue decided.
#[derive(Debug, PartialEq, Eq, Structural)]
pub enum FetchOutcome<T> {
    /// Run this job now.
    Run(u64, T),
    /// The queue is empty but still open: block until something arrives.
    Wait,
    /// The queue is closed and drained: the worker terminates.
    Exit,
}

/// The identifiers of all jobs submitted so far, in submission order.
pub open spec fn ids_seq(n: u64) -> Seq<u64> {
    Seq::new(n as nat, |i: int| i as u64)
}

/// The multiset of jobs currently being executed by the workers.
pub open spec fn busy_jobs(ws: Seq<Worker>) -> Multiset<u64>
    decreases ws.len(),
{
    if ws.len() == 0 {
        Multiset::empty()
    } else {
        match ws.last().busy {
            Some(j) => busy_jobs(ws.drop_last()).insert(j),
            None => busy_jobs(ws.drop_last()),
        }
    }
}

pub struct ThreadPool<T> {
    pub workers: Vec<Worker>,
    pub state: PoolState,
    pub capacity: usize,
    /// Pending jobs, oldest first.
    pub queue: Vec<T>,
    /// The pending jobs' identifiers, in the same order.
    pub queue_ids: Vec<u64>,
    /// Number of jobs submitted so far; also the next identifier.
    pub next_job: u64,
    /// Identifiers handed to workers, in the order they were handed out.
    pub dispatched: Ghost<Seq<u64>>,
    /// Identifiers of jobs whose execution has finished.
    pub completed: Ghost<Multiset<u64>>,
}

impl<T> ThreadPool<T> {
    /// Well-formedness: the accounting that every operation preserves.
    ///
    /// Every submitted job is either still queued or was dispatched, in
    /// submission order; every dispatched job is either being executed by
    /// a worker or has completed; a closed pool has drained its queue and
    /// stopped every worker.
    pub open spec fn wf(&self) -> bool {
        &&& self.workers@.len() >= 1
        &&& self.capacity >= 1
        &&& self.queue@.len() <= self.capacity
        &&& self.queue_ids@.len() == self.queue@.len()
        &&& forall|i: int|
            0 <= i < self.workers@.len() ==> (#[trigger] self.workers@[i]).id == i
        &&& forall|i: int|
            0 <= i < self.workers@.len() ==> ((#[trigger] self.workers@[i]).busy is Some
                ==> self.workers@[i].running)
        &&& self.state is Open ==> forall|i: int|
            0 <= i < self.workers@.len() ==> (#[trigger] self.workers@[i]).running
        &&& self.state is Closed ==> self.queue@.len() == 0
        &&& self.state is Closed ==> forall|i: int|
            0 <= i < self.workers@.len() ==> !(#[trigger] self.workers@[i]).running
        &&& self.dispatched@ + self.queue_ids@ == ids_seq(self.next_job)
        &&& self.completed@.add(busy_jobs(self.workers@)) == self.dispatched@.to_multiset()
    }

    /// Creates a new pool.
    ///
    /// `size` is the number of workers; a pool of zero workers could never
    /// make progress, so zero is ruled out as a caller error.
    pub fn new(size: usize) -> (p: ThreadPool<T>)
        requires
            size >= 1,
        ensures
            p.wf(),
            p.workers@.len() == size,
            p.state is Open,
            p.capacity == QUEUE_CAPACITY,
            p.queue@.len() == 0,
            p.next_job == 0,
            p.dispatched@ == Seq::<u64>::empty(),
            p.completed@ == Multiset::<u64>::empty(),
            forall|i: int| 0 <= i < size ==> (#[trigger] p.workers@[i]).busy is None,
    {
        let mut workers: Vec<Worker> = Vec::new();
        let mut id: usize = 0;
        while id < size
            invariant
                id <= size,
                workers@.len() == id,
                forall|i: int| 0 <= i < id ==> #[trigger] workers@[i]
                    == (Worker { id: i as usize, running: true, busy: None }),
            decreases size - id,
        {
            workers.push(Worker::new(id));
            id += 1;
        }
        let p = ThreadPool {
            workers,
            state: PoolState::Open,
            capacity: QUEUE_CAPACITY,
            queue: Vec::new(),
            queue_ids: Vec::new(),
            next_job: 0,
            dispatched: Ghost(Seq::empty()),
            completed: Ghost(Multiset::empty()),
        };
        proof {
            broadcast use vstd::multiset::group_multiset_axioms;
            lemma_busy_jobs_all_idle(p.workers@);
            p.dispatched@.to_multiset_ensures();
            assert(p.dispatched@ + p.queue_ids@ =~= ids_seq(0));
            assert(p.completed@.add(busy_jobs(p.workers@)) =~= p.dispatched@.to_multiset());
        }
        p
    }

    /// Submits one job.
    ///
    /// On an open pool with room in the queue, the job is admitted at the
    /// back of the queue and gets the next identifier in submission order.
    /// On a full queue the job comes back and the caller must block and
    /// retry: nothing is dropped and no error is raised. After shutdown
    /// has begun the job comes back refused, which the surrounding
    /// program treats as a fatal caller error.
    pub fn execute(&mut self, job: T) -> (r: SubmitOutcome<T>)
        requires
            old(self).wf(),
            old(self).next_job < u64::MAX,
        ensures
            final(self).wf(),
            !(old(self).state is Open) ==> (r matches SubmitOutcome::Refused(t) && t
                == job) && *final(self) == *old(self),
            old(self).state is Open && old(self).queue@.len() >= old(self).capacity ==> (
            r matches SubmitOutcome::WouldBlock(t) && t == job) && *final(self) == *old(
                self,
            ),
            old(self).state is Open && old(self).queue@.len() < old(self).capacity ==> {
                &&& r matches SubmitOutcome::Enqueued(id) && id == old(self).next_job
                &&& final(self).queue@ == old(self).queue@.push(job)
                &&& final(self).queue_ids@ == old(self).queue_ids@.push(
                    old(self).next_job,
                )
                &&& final(self).next_job == old(self).next_job + 1
                &&& final(self).workers == old(self).workers
                &&& final(self).state == old(self).state
                &&& final(self).capacity == old(self).capacity
                &&& final(self).dispatched == old(self).dispatched
                &&& final(self).completed == old(self).completed
            },
    {
        if !(self.state == PoolState::Open) {
            return SubmitOutcome::Refused(job);
        }
        if self.queue.len() >= self.capacity {
            return SubmitOutcome::WouldBlock(job);
        }
        let id = self.next_job;
        self.queue.push(job);
        self.queue_ids.push(id);
        self.next_job = id + 1;
        proof {
            let d = self.dispatched@;
            let q = old(self).queue_ids@;
            assert(d + q == ids_seq(id));
            assert forall|k: int| 0 <= k < (d + q.push(id)).len() implies (d + q.push(id))[k]
                == ids_seq(self.next_job)[k] by {
                if k < d.len() + q.len() {
                    assert((d + q.push(id))[k] == (d + q)[k]);
                } else {
                    assert((d + q.push(id))[k] == id);
                }
            }
            assert(self.dispatched@ + self.queue_ids@ =~= ids_seq(self.next_job));
        }
        SubmitOutcome::Enqueued(id)
    }

    /// One worker's pull from the shared queue.
    ///
    /// The worker must be alive and between jobs. If a job is pending, the
    /// oldest one is handed out together with its identifier. If the queue
    /// is empty but the pool is still open, the worker is told to block
    /// until woken. Once shutdown has begun and the queue has drained, the
    /// worker exits its loop.
    pub fn receive_job(&mut self, wid: usize) -> (r: FetchOutcome<T>)
        requires
            old(self).wf(),
            wid < old(self).workers@.len(),
            old(self).workers@[wid as int].running,
            old(self).workers@[wid as int].busy is None,
        ensures
            final(self).wf(),
            old(self).queue@.len() > 0 ==> {
                &&& r matches FetchOutcome::Run(id, t) && id == old(self).queue_ids@[0]
                    && t == old(self).queue@[0]
                &&& final(self).queue@ == old(self).queue@.drop_first()
                &&& final(self).queue_ids@ == old(self).queue_ids@.drop_first()
                &&& final(self).workers@ == old(self).workers@.update(
                    wid as int,
                    Worker { id: wid, running: true, busy: Some(old(self).queue_ids@[0]) },
                )
                &&& final(self).dispatched@ == old(self).dispatched@.push(
                    old(self).queue_ids@[0],
                )
                &&& final(self).state == old(self).state
                &&& final(self).capacity == old(self).capacity
                &&& final(self).next_job == old(self).next_job
                &&& final(self).completed == old(self).completed
            },
            old(self).queue@.len() == 0 && old(self).state is Open ==> r is Wait
                && *final(self) == *old(self),
            old(self).queue@.len() == 0 && !(old(self).state is Open) ==> {
                &&& r is Exit
                &&& final(self).workers@ == old(self).workers@.update(
                    wid as int,
                    Worker { id: wid, running: false, busy: None },
                )
                &&& final(self).queue == old(self).queue
                &&& final(self).queue_ids == old(self).queue_ids
                &&& final(self).state == old(self).state
                &&& final(self).capacity == old(self).capacity
                &&& final(self).next_job == old(self).next_job
                &&& final(self).dispatched == old(self).dispatched
                &&& final(self).completed == old(self).completed
            },
    {
        proof {
            // A closed pool has no running workers, so the state here is
            // Open or ShuttingDown.
            assert(!(self.state is Closed));
        }
        if self.queue.len() > 0 {
            let job = self.queue.remove(0);
            let id = self.queue_ids.remove(0);
            let mut w = self.workers.remove(wid);
            w.busy = Some(id);
            self.workers.insert(wid, w);
            proof {
                assert(self.workers@
                    =~= old(self).workers@.update(
                        wid as int,
                        Worker { id: wid, running: true, busy: Some(id) },
                    ));
                assert(self.queue@ =~= old(self).queue@.drop_first());
                assert(self.queue_ids@ =~= old(self).queue_ids@.drop_first());
            }
            self.dispatched = Ghost(self.dispatched@.push(id));
            proof {
                broadcast use vstd::multiset::group_multiset_axioms;
                old(self).dispatched@.to_multiset_ensures();
                lemma_busy_jobs_set(
                    old(self).workers@,
                    wid as int,
                    Worker { id: wid, running: true, busy: Some(id) },
                );
                assert(self.dispatched@ + self.queue_ids@ =~= ids_seq(self.next_job));
                assert(self.completed@.add(busy_jobs(self.workers@))
                    =~= self.dispatched@.to_multiset());
            }
            FetchOutcome::Run(id, job)
        } else if self.state == PoolState::Open {
            FetchOutcome::Wait
        } else {
            let mut w = self.workers.remove(wid);
            w.running = false;
            self.workers.insert(wid, w);
            proof {
                assert(self.workers@
                    =~= old(self).workers@.update(
                        wid as int,
                        Worker { id: wid, running: false, busy: None },
                    ));
                lemma_busy_jobs_set(
                    old(self).workers@,
                    wid as int,
                    Worker { id: wid, running: false, busy: None },
                );
            }
            FetchOutcome::Exit
        }
    }

    /// Marks the job held by worker `wid` as finished.
    pub fn finish_job(&mut self, wid: usize)
        requires
            old(self).wf(),
            wid < old(self).workers@.len(),
            old(self).workers@[wid as int].busy is Some,
        ensures
            final(self).wf(),
            final(self).workers@ == old(self).workers@.update(
                wid as int,
                Worker { id: wid, running: true, busy: None },
            ),
            final(self).completed@ == old(self).completed@.insert(
                old(self).workers@[wid as int].busy.unwrap(),
            ),
            final(self).queue == old(self).queue,
            final(self).queue_ids == old(self).queue_ids,
            final(self).state == old(self).state,
            final(self).capacity == old(self).capacity,
            final(self).next_job == old(self).next_job,
            final(self).dispatched == old(self).dispatched,
    {
        let ghost j = old(self).workers@[wid as int].busy.unwrap();
        let mut w = self.workers.remove(wid);
        w.busy = None;
        self.workers.insert(wid, w);
        self.completed = Ghost(self.completed@.insert(j));
        proof {
            broadcast use vstd::multiset::group_multiset_axioms;
            assert(self.workers@
                =~= old(self).workers@.update(
                    wid as int,
                    Worker { id: wid, running: true, busy: None },
                ));
            lemma_busy_jobs_set(
                old(self).workers@,
                wid as int,
                Worker { id: wid, running: true, busy: None },
            );
            assert(self.completed@.add(busy_jobs(self.workers@))
                =~= self.dispatched@.to_multiset());
        }
    }

    /// Closes the queue for submission: the first half of shutdown.
    ///
    /// From here on `execute` refuses every job, while the workers keep
    /// draining what was already admitted.
    pub fn begin_shutdown(&mut self)
        requires
            old(self).wf(),
            old(self).state is Open,
        ensures
            final(self).wf(),
            final(self).state is ShuttingDown,
            final(self).workers == old(self).workers,
            final(self).queue == old(self).queue,
            final(self).queue_ids == old(self).queue_ids,
            final(self).capacity == old(self).capacity,
            final(self).next_job == old(self).next_job,
            final(self).dispatched == old(self).dispatched,
            final(self).completed == old(self).completed,
    {
        self.state = PoolState::ShuttingDown;
    }

    /// Records that every worker has been joined: the second half of
    /// shutdown. It is reachable only once the queue has drained and every
    /// worker has exited, so a closed pool has run everything it admitted.
    pub fn complete_shutdown(&mut self)
        requires
            old(self).wf(),
            old(self).state is ShuttingDown,
            old(self).queue@.len() == 0,
            forall|i: int|
                0 <= i < old(self).workers@.len()
                    ==> !(#[trigger] old(self).workers@[i]).running,
        ensures
            final(self).wf(),
            final(self).state is Closed,
            final(self).workers == old(self).workers,
            final(self).queue == old(self).queue,
            final(self).queue_ids == old(self).queue_ids,
            final(self).capacity == old(self).capacity,
            final(self).next_job == old(self).next_job,
            final(self).dispatched == old(self).dispatched,
            final(self).completed == old(self).completed,
    {
        self.state = PoolState::Closed;
    }

    /// Number of jobs waiting in the queue.
    pub fn pending(&self) -> (r: usize)
        ensures
            r == self.queue@.len(),
    {
        self.queue.len()
    }

    /// Number of workers this pool was built with.
    pub fn size(&self) -> (r: usize)
        ensures
            r == self.workers@.len(),
    {
        self.workers.len()
    }

    /// Whether worker `wid`'s thread is still running.
    pub fn worker_running(&self, wid: usize) -> (r: bool)
        requires
            wid < self.workers@.len(),
        ensures
            r == self.workers@[wid as int].running,
    {
        self.workers[wid].running
    }

    /// Number of workers currently executing a job.
    pub fn busy_count(&self) -> (r: usize)
        ensures
            r == busy_jobs(self.workers@).len(),
    {
        let mut count: usize = 0;
        let mut i: usize = 0;
        while i < self.workers.len()
            invariant
                i <= self.workers@.len(),
                count == busy_jobs(self.workers@.take(i as int)).len(),
                count <= i,
            decreases self.workers@.len() - i,
        {
            proof {
                broadcast use vstd::multiset::group_multiset_axioms;
                assert(self.workers@.take(i + 1 as int).drop_last()
                    =~= self.workers@.take(i as int));
                assert(self.workers@.take(i + 1 as int).last() == self.workers@[i as int]);
            }
            if self.workers[i].busy.is_some() {
                count += 1;
            }
            i += 1;
        }
        proof {
            assert(self.workers@.take(self.workers@.len() as int) =~= self.workers@);
        }
        count
    }
}

/// No job loss under shutdown: once shutdown has completed, every job that
/// was ever admitted has finished executing — the completed multiset is
/// exactly the set of all issued identifiers.
pub proof fn lemma_no_job_loss<T>(p: &ThreadPool<T>)
    requires
        p.wf(),
        p.state is Closed,
    ensures
        p.completed@ == ids_seq(p.next_job).to_multiset(),
        p.completed@.len() == p.next_job,
        forall|j: u64| j < p.next_job ==> p.completed@.contains(j),
{
    broadcast use vstd::multiset::group_multiset_axioms;

    lemma_busy_jobs_all_idle(p.workers@);
    assert(p.dispatched@ =~= ids_seq(p.next_job));
    assert(p.completed@ =~= p.dispatched@.to_multiset());
    p.dispatched@.to_multiset_ensures();
    assert forall|j: u64| j < p.next_job implies p.completed@.contains(j) by {
        assert(ids_seq(p.next_job)[j as int] == j);
        assert(ids_seq(p.next_job).contains(j));
    }
}

/// Bounded concurrency: at no point are more jobs being executed than the
/// pool has workers.
pub proof fn lemma_bounded_concurrency<T>(p: &ThreadPool<T>)
    requires
        p.wf(),
    ensures
        busy_jobs(p.workers@).len() <= p.workers@.len(),
{
    lemma_busy_jobs_len(p.workers@);
}

/// Each job runs at most once: no identifier is ever counted twice across
/// the jobs completed and the jobs currently executing.
pub proof fn lemma_job_runs_at_most_once<T>(p: &ThreadPool<T>, j: u64)
    requires
        p.wf(),
    ensures
        p.completed@.count(j) + busy_jobs(p.workers@).count(j) <= 1,
{
    broadcast use vstd::multiset::group_multiset_axioms;

    let all = p.dispatched@ + p.queue_ids@;
    assert(all == ids_seq(p.next_job));
    assert forall|i: int, k: int|
        0 <= i < p.dispatched@.len() && 0 <= k < p.dispatched@.len() && i != k
            implies p.dispatched@[i] != p.dispatched@[k] by {
        assert(p.dispatched@[i] == all[i] && all[i] == ids_seq(p.next_job)[i]);
        assert(p.dispatched@[k] == all[k] && all[k] == ids_seq(p.next_job)[k]);
    }
    assert(p.dispatched@.no_duplicates());
    p.dispatched@.lemma_multiset_has_no_duplicates();
    p.dispatched@.to_multiset_ensures();
    if p.dispatched@.to_multiset().count(j) == 0 {
        assert(p.completed@.count(j) + busy_jobs(p.workers@).count(j)
            == p.dispatched@.to_multiset().count(j));
    }
}

/// FIFO dispatch: the i-th job handed to a worker is exactly the i-th job
/// that was submitted, so jobs leave the queue in submission order.
pub proof fn lemma_fifo_dispatch<T>(p: &ThreadPool<T>, i: int)
    requires
        p.wf(),
        0 <= i < p.dispatched@.len(),
    ensures
        p.dispatched@[i] == i as u64,
{
    let all = p.dispatched@ + p.queue_ids@;
    assert(all == ids_seq(p.next_job));
    assert(all.len() == p.next_job);
    assert(i < p.next_job);
    assert(all[i] == p.dispatched@[i]);
    assert(all[i] == ids_seq(p.next_job)[i]);
}

/// Shutdown joins all workers: once shutdown has completed, no worker
/// thread is still running.
pub proof fn lemma_shutdown_joins_all<T>(p: &ThreadPool<T>)
    requires
        p.wf(),
        p.state is Closed,
    ensures
        forall|i: int| 0 <= i < p.workers@.len() ==> !(#[trigger] p.workers@[i]).running,
{
}

/// A pool with every worker idle is executing nothing.
proof fn lemma_busy_jobs_all_idle(ws: Seq<Worker>)
    requires
        forall|i: int| 0 <= i < ws.len() ==> (#[trigger] ws[i]).busy is None,
    ensures
        busy_jobs(ws) == Multiset::<u64>::empty(),
    decreases ws.len(),
{
    if ws.len() > 0 {
        lemma_busy_jobs_all_idle(ws.drop_last());
    }
}

/// There are never more busy jobs than workers.
proof fn lemma_busy_jobs_len(ws: Seq<Worker>)
    ensures
        busy_jobs(ws).len() <= ws.len(),
    decreases ws.len(),
{
    broadcast use vstd::multiset::group_multiset_axioms;

    if ws.len() > 0 {
        lemma_busy_jobs_len(ws.drop_last());
    }
}

/// How replacing one worker changes the busy multiset: assigning a job
/// inserts it, clearing a job removes it, and an idle-for-idle swap
/// changes nothing.
proof fn lemma_busy_jobs_set(ws: Seq<Worker>, i: int, w: Worker)
    requires
        0 <= i < ws.len(),
    ensures
        ws[i].busy is None && w.busy is None
            ==> busy_jobs(ws.update(i, w)) == busy_jobs(ws),
        ws[i].busy is None && w.busy is Some
            ==> busy_jobs(ws.update(i, w)) == busy_jobs(ws).insert(w.busy.unwrap()),
        ws[i].busy is Some && w.busy is None ==> {
            &&& busy_jobs(ws).count(ws[i].busy.unwrap()) >= 1
            &&& busy_jobs(ws.update(i, w)) == busy_jobs(ws).remove(ws[i].busy.unwrap())
        },
    decreases ws.len(),
{
    broadcast use vstd::multiset::group_multiset_axioms;

    let updated = ws.update(i, w);
    if i == ws.len() - 1 {
        assert(updated.drop_last() =~= ws.drop_last());
        assert(updated.last() == w);
        if ws[i].busy is Some && w.busy is None {
            let j = ws[i].busy.unwrap();
            assert(busy_jobs(ws) == busy_jobs(ws.drop_last()).insert(j));
            assert(busy_jobs(ws.drop_last()).insert(j).remove(j) =~= busy_jobs(
                ws.drop_last(),
            ));
        }
    } else {
        assert(updated.drop_last() =~= ws.drop_last().update(i, w));
        assert(updated.last() == ws.last());
        lemma_busy_jobs_set(ws.drop_last(), i, w);
        if ws[i].busy is Some && w.busy is None {
            let j = ws[i].busy.unwrap();
            match ws.last().busy {
                Some(k) => {
                    assert(busy_jobs(ws.drop_last()).count(j) >= 1);
                    assert(busy_jobs(ws.drop_last()).insert(k).remove(j)
                        =~= busy_jobs(ws.drop_last()).remove(j).insert(k));
                },
                None => {},
            }
        }
    }
}

} // verus!
