//! Control logic of a fixed-size worker pool.
//!
//! The pool owns an unbounded queue of submitted jobs and a fixed set of
//! long-lived workers that repeatedly pull one job each and run it to
//! completion.  Everything that the pool decides — which job a worker
//! receives, when a worker exits, when shutdown is finished — is captured
//! here as a state machine over plain values: a job is represented by the
//! ticket (a `u64`) handed out at submission time, and each transition
//! corresponds to one atomic event of the running pool (a submission, a
//! dequeue, a job finishing, the queue closing).  The thread and channel
//! plumbing that produces those events lives outside the library; it carries
//! no decisions of its own.
//!
//! The invariant [`Pool::wf`] pins down the delivery guarantees: every
//! submitted ticket sits in exactly one place (still queued, running on
//! exactly one worker, or completed), no ticket is ever duplicated, and a
//! worker exits only once the queue is closed and drained.

use vstd::pervasive::VecAdditionalExecFns;
use vstd::prelude::*;

verus! {

/// Why a pool could not be constructed.
#[derive(Clone, Copy, Debug, PartialEq, Eq, Structural)]
pub enum PoolError {
    /// A pool with zero workers could never run anything; construction
    /// refuses it outright.
    ZeroWorkers,
}

/// What a single worker is doing at one instant.
#[derive(Clone, Copy, Debug, PartialEq, Eq, Structural)]
pub enum WorkerStatus {
    /// Blocked on the queue, waiting for the next job.
    Idle,
    /// Running the job with this ticket.
    Busy(u64),
    /// Observed the closed, drained queue and returned for good.
    Exited,
}

/// The pool's state: the queue of pending tickets, one status per worker,
/// and the history of completed tickets.
#[derive(Debug)]
pub struct Pool {
    /// Number of workers; fixed at construction, at least one.
    size: usize,
    /// Whether the sending side of the queue is still open.
    open: bool,
    /// The ticket the next submission will receive; tickets are handed out
    /// in order starting from zero, so this is also the number of
    /// submissions so far.
    next_job: u64,
    /// Tickets submitted but not yet delivered to a worker, oldest first.
    pending: Vec<u64>,
    /// One entry per worker.
    workers: Vec<WorkerStatus>,
    /// Tickets whose jobs have finished running, in completion order.
    completed: Vec<u64>,
}

impl Pool {
    /// Number of workers.
    pub closed spec fn spec_size(self) -> int {
        self.size as int
    }

    /// Whether the queue still accepts submissions.
    pub closed spec fn is_open(self) -> bool {
        self.open
    }

    /// Number of jobs submitted so far; tickets are exactly `0..submitted()`.
    pub closed spec fn submitted(self) -> int {
        self.next_job as int
    }

    /// Tickets waiting in the queue, oldest first.
    pub closed spec fn pending_jobs(self) -> Seq<u64> {
        self.pending@
    }

    /// The status of each worker.
    pub closed spec fn worker_states(self) -> Seq<WorkerStatus> {
        self.workers@
    }

    /// Tickets whose jobs have run, in completion order.
    pub closed spec fn completed_jobs(self) -> Seq<u64> {
        self.completed@
    }

    /// Some worker is currently running the job with ticket `id`.
    pub open spec fn running(self, id: u64) -> bool {
        exists|w: int|
            0 <= w < self.worker_states().len()
                && self.worker_states()[w] == WorkerStatus::Busy(id)
    }

    /// Ticket `id` is held somewhere the pool knows about: still queued,
    /// running, or completed.
    pub open spec fn accounted(self, id: u64) -> bool {
        self.pending_jobs().contains(id) || self.running(id)
            || self.completed_jobs().contains(id)
    }

    /// Every ticket the pool has ever seen is below `submitted()`.
    pub open spec fn ids_bounded(self) -> bool {
        &&& forall|i: int|
            0 <= i < self.pending_jobs().len()
                ==> #[trigger] self.pending_jobs()[i] < self.submitted()
        &&& forall|i: int|
            0 <= i < self.completed_jobs().len()
                ==> #[trigger] self.completed_jobs()[i] < self.submitted()
        &&& forall|w: int|
            0 <= w < self.worker_states().len()
                ==> ((#[trigger] self.worker_states()[w]) matches WorkerStatus::Busy(id)
                    ==> id < self.submitted())
    }

    /// No ticket appears twice within the queue or within the history.
    pub open spec fn distinct_tickets(self) -> bool {
        &&& self.pending_jobs().no_duplicates()
        &&& self.completed_jobs().no_duplicates()
    }

    /// A ticket sits in at most one place: the queue, one single worker, or
    /// the completion history.
    pub open spec fn places_disjoint(self) -> bool {
        &&& forall|i: int, j: int|
            0 <= i < self.pending_jobs().len() && 0 <= j < self.completed_jobs().len()
                ==> #[trigger] self.pending_jobs()[i] != #[trigger] self.completed_jobs()[j]
        &&& forall|w: int, i: int|
            0 <= w < self.worker_states().len() && 0 <= i < self.pending_jobs().len()
                ==> ((#[trigger] self.worker_states()[w]) matches WorkerStatus::Busy(id)
                    ==> #[trigger] self.pending_jobs()[i] != id)
        &&& forall|w: int, i: int|
            0 <= w < self.worker_states().len() && 0 <= i < self.completed_jobs().len()
                ==> ((#[trigger] self.worker_states()[w]) matches WorkerStatus::Busy(id)
                    ==> #[trigger] self.completed_jobs()[i] != id)
        &&& forall|w1: int, w2: int|
            0 <= w1 < self.worker_states().len() && 0 <= w2 < self.worker_states().len()
                && w1 != w2
                ==> ((#[trigger] self.worker_states()[w1]) matches WorkerStatus::Busy(a)
                    ==> ((#[trigger] self.worker_states()[w2]) matches WorkerStatus::Busy(b)
                        ==> a != b))
    }

    /// No ticket is ever lost: each one is queued, running, or completed.
    pub open spec fn all_accounted(self) -> bool {
        forall|id: u64| id < self.submitted() ==> #[trigger] self.accounted(id)
    }

    /// Workers exit only on a closed queue, and only once it is drained;
    /// nothing can be queued after that point.
    pub open spec fn exits_orderly(self) -> bool {
        &&& self.is_open() ==> forall|w: int|
            0 <= w < self.worker_states().len()
                ==> !((#[trigger] self.worker_states()[w]) is Exited)
        &&& (exists|w: int|
            0 <= w < self.worker_states().len()
                && (#[trigger] self.worker_states()[w]) is Exited)
            ==> self.pending_jobs().len() == 0
    }

    /// The pool's invariant: established by construction and preserved by
    /// every transition.
    pub open spec fn wf(self) -> bool {
        &&& self.spec_size() >= 1
        &&& self.worker_states().len() == self.spec_size()
        &&& self.ids_bounded()
        &&& self.distinct_tickets()
        &&& self.places_disjoint()
        &&& self.all_accounted()
        &&& self.exits_orderly()
    }

    /// Shutdown has fully taken effect: no more submissions, and every
    /// worker has exited.
    pub open spec fn shutdown_complete(self) -> bool {
        &&& !self.is_open()
        &&& forall|w: int|
            0 <= w < self.worker_states().len()
                ==> (#[trigger] self.worker_states()[w]) is Exited
    }

    /// Build a pool with `size` workers, all idle, with an empty queue.
    /// A request for zero workers is a configuration error and is refused;
    /// no state is created for it.
    pub fn new(size: usize) -> (r: Result<Pool, PoolError>)
        ensures
            match r {
                Ok(p) => {
                    &&& size >= 1
                    &&& p.wf()
                    &&& p.spec_size() == size
                    &&& p.is_open()
                    &&& p.submitted() == 0
                    &&& p.pending_jobs() == Seq::<u64>::empty()
                    &&& p.completed_jobs() == Seq::<u64>::empty()
                    &&& forall|w: int|
                        0 <= w < size ==> (#[trigger] p.worker_states()[w])
                            == WorkerStatus::Idle
                },
                Err(e) => size == 0 && e == PoolError::ZeroWorkers,
            },
    {
        if size == 0 {
            return Err(PoolError::ZeroWorkers);
        }
        let mut workers: Vec<WorkerStatus> = Vec::new();
        let mut w: usize = 0;
        while w < size
            invariant
                w <= size,
                workers@.len() == w,
                forall|i: int| 0 <= i < w ==> (#[trigger] workers@[i]) == WorkerStatus::Idle,
            decreases size - w,
        {
            workers.push(WorkerStatus::Idle);
            w = w + 1;
        }
        let p = Pool {
            size,
            open: true,
            next_job: 0,
            pending: Vec::new(),
            workers,
            completed: Vec::new(),
        };
        proof {
            assert(p.pending_jobs() =~= Seq::<u64>::empty());
            assert(p.completed_jobs() =~= Seq::<u64>::empty());
        }
        Ok(p)
    }

    /// Close the sending side of the queue.  One-way: once closed, no
    /// further submission is possible, and workers exit as they find the
    /// queue drained.  Closing an already-closed pool changes nothing.
    pub fn close(&mut self)
        requires
            old(self).wf(),
        ensures
            final(self).wf(),
            !final(self).is_open(),
            final(self).spec_size() == old(self).spec_size(),
            final(self).submitted() == old(self).submitted(),
            final(self).pending_jobs() == old(self).pending_jobs(),
            final(self).worker_states() == old(self).worker_states(),
            final(self).completed_jobs() == old(self).completed_jobs(),
    {
        self.open = false;
        proof {
            let prev = *old(self);
            let cur = *self;
            assert forall|jid: u64| jid < cur.submitted() implies #[trigger] cur.accounted(
                jid,
            ) by {
                assert(prev.accounted(jid));
                if prev.running(jid) {
                    let w = choose|w: int|
                        0 <= w < prev.worker_states().len() && prev.worker_states()[w]
                            == WorkerStatus::Busy(jid);
                    assert(cur.worker_states()[w] == WorkerStatus::Busy(jid));
                }
            }
        }
    }

    /// Accept one job for execution and hand back its ticket.  The job goes
    /// to the back of the queue; some worker will eventually run it exactly
    /// once.  Submission never blocks and, on an open pool, never fails.
    ///
    /// Submitting after shutdown began is a programming error; the caller
    /// keeps it unreachable, so no runtime check is made here.
    pub fn execute(&mut self) -> (id: u64)
        requires
            old(self).wf(),
            old(self).is_open(),
            old(self).submitted() < u64::MAX,
        ensures
            final(self).wf(),
            final(self).is_open(),
            id == old(self).submitted(),
            final(self).submitted() == old(self).submitted() + 1,
            final(self).pending_jobs() == old(self).pending_jobs().push(id),
            final(self).worker_states() == old(self).worker_states(),
            final(self).completed_jobs() == old(self).completed_jobs(),
            final(self).spec_size() == old(self).spec_size(),
    {
        let id = self.next_job;
        self.pending.push(id);
        self.next_job = self.next_job + 1;
        proof {
            let prev = *old(self);
            let cur = *self;
            assert forall|jid: u64| jid < cur.submitted() implies #[trigger] cur.accounted(jid) by {
                if jid < prev.submitted() {
                    assert(prev.accounted(jid));
                    if prev.pending_jobs().contains(jid) {
                        let i = choose|i: int|
                            0 <= i < prev.pending_jobs().len() && prev.pending_jobs()[i] == jid;
                        assert(cur.pending_jobs()[i] == jid);
                        assert(cur.pending_jobs().contains(jid));
                    } else if prev.running(jid) {
                        assert(cur.running(jid));
                    } else {
                        assert(cur.completed_jobs().contains(jid));
                    }
                } else {
                    assert(cur.pending_jobs()[cur.pending_jobs().len() - 1] == jid);
                    assert(cur.pending_jobs().contains(jid));
                }
            }
        }
        id
    }

    /// One dequeue attempt by worker `w`, which must be idle.  The worker
    /// receives the oldest queued ticket.  The real dequeue blocks while the
    /// queue is open and empty, so this transition is taken only when a job
    /// is queued or the queue has been closed; on a closed, drained queue it
    /// returns nothing and the worker exits for good.
    pub fn fetch(&mut self, w: usize) -> (r: Option<u64>)
        requires
            old(self).wf(),
            w < old(self).spec_size(),
            old(self).worker_states()[w as int] == WorkerStatus::Idle,
            old(self).is_open() ==> old(self).pending_jobs().len() > 0,
        ensures
            final(self).wf(),
            final(self).spec_size() == old(self).spec_size(),
            final(self).submitted() == old(self).submitted(),
            final(self).completed_jobs() == old(self).completed_jobs(),
            final(self).is_open() == old(self).is_open(),
            match r {
                Some(id) => {
                    &&& old(self).pending_jobs().len() > 0
                    &&& id == old(self).pending_jobs()[0]
                    &&& final(self).pending_jobs() == old(self).pending_jobs().skip(1)
                    &&& final(self).worker_states() == old(self).worker_states().update(
                        w as int,
                        WorkerStatus::Busy(id),
                    )
                },
                None => {
                    &&& old(self).pending_jobs().len() == 0
                    &&& !old(self).is_open()
                    &&& final(self).pending_jobs() == old(self).pending_jobs()
                    &&& final(self).worker_states() == old(self).worker_states().update(
                        w as int,
                        WorkerStatus::Exited,
                    )
                },
            },
    {
        if self.pending.len() > 0 {
            let id = self.pending.remove(0);
            self.workers.set(w, WorkerStatus::Busy(id));
            proof {
                let prev = *old(self);
                let cur = *self;
                assert(cur.pending_jobs() =~= prev.pending_jobs().skip(1));
                assert forall|i: int| 0 <= i < cur.pending_jobs().len()
                    implies #[trigger] cur.pending_jobs()[i] == prev.pending_jobs()[i + 1] by {}
                assert forall|v: int| 0 <= v < cur.worker_states().len() && v != w
                    implies #[trigger] cur.worker_states()[v] == prev.worker_states()[v] by {}
                // No worker can have exited: this branch has a queued job,
                // while an exited worker implies a drained queue.
                assert forall|v: int| 0 <= v < cur.worker_states().len()
                    implies !((#[trigger] cur.worker_states()[v]) is Exited) by {
                    if v != w && prev.worker_states()[v] is Exited {
                        assert(prev.pending_jobs().len() == 0);
                    }
                }
                assert forall|jid: u64| jid < cur.submitted() implies #[trigger] cur.accounted(
                    jid,
                ) by {
                    assert(prev.accounted(jid));
                    if prev.pending_jobs().contains(jid) {
                        let i = choose|i: int|
                            0 <= i < prev.pending_jobs().len() && prev.pending_jobs()[i] == jid;
                        if i == 0 {
                            assert(cur.worker_states()[w as int] == WorkerStatus::Busy(jid));
                            assert(cur.running(jid));
                        } else {
                            assert(cur.pending_jobs()[i - 1] == jid);
                            assert(cur.pending_jobs().contains(jid));
                        }
                    } else if prev.running(jid) {
                        let v = choose|v: int|
                            0 <= v < prev.worker_states().len() && prev.worker_states()[v]
                                == WorkerStatus::Busy(jid);
                        assert(cur.worker_states()[v] == WorkerStatus::Busy(jid));
                        assert(cur.running(jid));
                    }
                }
            }
            Some(id)
        } else {
            self.workers.set(w, WorkerStatus::Exited);
            proof {
                let prev = *old(self);
                let cur = *self;
                assert forall|jid: u64| jid < cur.submitted() implies #[trigger] cur.accounted(
                    jid,
                ) by {
                    assert(prev.accounted(jid));
                    if prev.running(jid) {
                        let v = choose|v: int|
                            0 <= v < prev.worker_states().len() && prev.worker_states()[v]
                                == WorkerStatus::Busy(jid);
                        assert(cur.worker_states()[v] == WorkerStatus::Busy(jid));
                        assert(cur.running(jid));
                    }
                }
            }
            None
        }
    }

    /// Worker `w` finished running its job; `ok` says whether the job
    /// succeeded or signalled a failure.  Either way the outcome is the
    /// same: the failure is contained to that one job, the ticket joins the
    /// completion history, and the worker goes back to waiting for more
    /// work — one poisoned job never takes the worker down.
    pub fn complete(&mut self, w: usize, ok: bool)
        requires
            old(self).wf(),
            w < old(self).spec_size(),
            old(self).worker_states()[w as int] is Busy,
        ensures
            final(self).wf(),
            final(self).spec_size() == old(self).spec_size(),
            final(self).submitted() == old(self).submitted(),
            final(self).is_open() == old(self).is_open(),
            final(self).pending_jobs() == old(self).pending_jobs(),
            final(self).worker_states() == old(self).worker_states().update(
                w as int,
                WorkerStatus::Idle,
            ),
            old(self).worker_states()[w as int] matches WorkerStatus::Busy(id)
                ==> final(self).completed_jobs() == old(self).completed_jobs().push(id),
    {
        let _ = ok;
        let st = self.workers[w];
        match st {
            WorkerStatus::Busy(id) => {
                self.workers.set(w, WorkerStatus::Idle);
                self.completed.push(id);
                proof {
                    let prev = *old(self);
                    let cur = *self;
                    assert forall|v: int| 0 <= v < cur.worker_states().len() && v != w
                        implies #[trigger] cur.worker_states()[v] == prev.worker_states()[v] by {}
                    assert forall|j: int| 0 <= j < cur.completed_jobs().len() - 1
                        implies #[trigger] cur.completed_jobs()[j] == prev.completed_jobs()[j] by {}
                    assert(cur.completed_jobs()[cur.completed_jobs().len() - 1] == id);
                    assert forall|jid: u64| jid < cur.submitted() implies #[trigger] cur.accounted(
                        jid,
                    ) by {
                        assert(prev.accounted(jid));
                        if prev.pending_jobs().contains(jid) {
                            assert(cur.pending_jobs().contains(jid));
                        } else if prev.running(jid) {
                            let v = choose|v: int|
                                0 <= v < prev.worker_states().len() && prev.worker_states()[v]
                                    == WorkerStatus::Busy(jid);
                            if v == w {
                                assert(jid == id);
                                assert(cur.completed_jobs().contains(jid));
                            } else {
                                assert(cur.worker_states()[v] == WorkerStatus::Busy(jid));
                                assert(cur.running(jid));
                            }
                        } else {
                            let j = choose|j: int|
                                0 <= j < prev.completed_jobs().len() && prev.completed_jobs()[j]
                                    == jid;
                            assert(cur.completed_jobs()[j] == jid);
                            assert(cur.completed_jobs().contains(jid));
                        }
                    }
                    if exists|v: int|
                        0 <= v < cur.worker_states().len() && (#[trigger] cur.worker_states()[v])
                            is Exited {
                        let v = choose|v: int|
                            0 <= v < cur.worker_states().len()
                                && (#[trigger] cur.worker_states()[v]) is Exited;
                        assert(prev.worker_states()[v] is Exited);
                    }
                }
            },
            _ => {},
        }
    }

    /// Tear the pool down: close the queue, then wait until every worker
    /// has drained it and exited.  Does not return before all workers are
    /// gone — no worker outlives the pool.  Every job submitted before the
    /// call has then run exactly once: the history holds each ticket below
    /// `submitted()` once, and nothing else, and what was already in the
    /// history stays in place.
    pub fn shutdown(&mut self)
        requires
            old(self).wf(),
        ensures
            final(self).wf(),
            final(self).shutdown_complete(),
            final(self).spec_size() == old(self).spec_size(),
            final(self).submitted() == old(self).submitted(),
            final(self).pending_jobs().len() == 0,
            final(self).completed_jobs().no_duplicates(),
            final(self).completed_jobs().len() == final(self).submitted(),
            forall|id: u64|
                id < old(self).submitted() <==> #[trigger] final(self).completed_jobs().contains(
                    id,
                ),
            forall|j: int|
                0 <= j < old(self).completed_jobs().len()
                    ==> #[trigger] final(self).completed_jobs()[j]
                        == old(self).completed_jobs()[j],
    {
        self.close();
        let n = self.workers.len();
        let mut w: usize = 0;
        while w < n
            invariant
                self.wf(),
                !self.is_open(),
                w <= n,
                n == self.spec_size(),
                self.spec_size() == old(self).spec_size(),
                self.submitted() == old(self).submitted(),
                forall|j: int|
                    0 <= j < old(self).completed_jobs().len()
                        ==> #[trigger] self.completed_jobs()[j] == old(self).completed_jobs()[j],
                self.completed_jobs().len() >= old(self).completed_jobs().len(),
                forall|v: int| 0 <= v < w ==> (#[trigger] self.worker_states()[v]) is Exited,
            decreases n - w,
        {
            loop
                invariant
                    self.wf(),
                    !self.is_open(),
                    w < n,
                    n == self.spec_size(),
                    self.spec_size() == old(self).spec_size(),
                    self.submitted() == old(self).submitted(),
                    forall|j: int|
                        0 <= j < old(self).completed_jobs().len()
                            ==> #[trigger] self.completed_jobs()[j]
                                == old(self).completed_jobs()[j],
                    self.completed_jobs().len() >= old(self).completed_jobs().len(),
                    forall|v: int| 0 <= v < w ==> (#[trigger] self.worker_states()[v]) is Exited,
                ensures
                    self.worker_states()[w as int] is Exited,
                decreases drain_measure(*self, w as int),
            {
                let st = self.workers[w];
                match st {
                    WorkerStatus::Exited => {
                        break ;
                    },
                    WorkerStatus::Busy(_) => {
                        self.complete(w, true);
                    },
                    WorkerStatus::Idle => {
                        let _ = self.fetch(w);
                    },
                }
            }
            w = w + 1;
        }
        proof {
            lemma_drained_history_exact(*self);
        }
    }

    /// Number of workers.
    pub fn worker_count(&self) -> (n: usize)
        ensures
            n == self.spec_size(),
    {
        self.size
    }

    /// Whether the queue still accepts submissions.
    pub fn is_accepting(&self) -> (b: bool)
        ensures
            b == self.is_open(),
    {
        self.open
    }

    /// Number of jobs submitted so far.
    pub fn submitted_count(&self) -> (n: u64)
        ensures
            n == self.submitted(),
    {
        self.next_job
    }

    /// Number of jobs still waiting in the queue.
    pub fn pending_count(&self) -> (n: usize)
        ensures
            n == self.pending_jobs().len(),
    {
        self.pending.len()
    }

    /// Number of jobs that have finished running.
    pub fn completed_count(&self) -> (n: usize)
        ensures
            n == self.completed_jobs().len(),
    {
        self.completed.len()
    }

    /// The `i`-th ticket in completion order.
    pub fn completed_at(&self, i: usize) -> (id: u64)
        requires
            i < self.completed_jobs().len(),
        ensures
            id == self.completed_jobs()[i as int],
    {
        self.completed[i]
    }

    /// What worker `w` is doing right now.
    pub fn worker_status(&self, w: usize) -> (st: WorkerStatus)
        requires
            w < self.spec_size(),
            self.worker_states().len() == self.spec_size(),
        ensures
            st == self.worker_states()[w as int],
    {
        self.workers[w]
    }

    /// Whether shutdown has fully taken effect: the queue is closed and
    /// every worker has exited.
    pub fn is_shut_down(&self) -> (b: bool)
        ensures
            b == self.shutdown_complete(),
    {
        if self.open {
            return false;
        }
        let n = self.workers.len();
        let mut w: usize = 0;
        while w < n
            invariant
                w <= n,
                n == self.worker_states().len(),
                forall|v: int| 0 <= v < w ==> (#[trigger] self.worker_states()[v]) is Exited,
            decreases n - w,
        {
            match self.workers[w] {
                WorkerStatus::Exited => {},
                _ => {
                    return false;
                },
            }
            w = w + 1;
        }
        true
    }
}

/// Law: no submitted job is ever lost.  In every reachable pool state, each
/// ticket that was handed out is still queued, being run by some worker, or
/// already in the completion history.
pub proof fn lemma_no_job_lost(p: Pool, id: u64)
    requires
        p.wf(),
        id < p.submitted(),
    ensures
        p.accounted(id),
{
}

/// Law: delivery is mutually exclusive.  Two workers are never running the
/// job with the same ticket — if both claim it, they are the same worker.
pub proof fn lemma_single_delivery(p: Pool, w1: int, w2: int, id: u64)
    requires
        p.wf(),
        0 <= w1 < p.worker_states().len(),
        0 <= w2 < p.worker_states().len(),
        p.worker_states()[w1] == WorkerStatus::Busy(id),
        p.worker_states()[w2] == WorkerStatus::Busy(id),
    ensures
        w1 == w2,
{
}

/// Law: a job sits in at most one place at a time.  A ticket is never both
/// queued and running, queued and completed, or running and completed; in
/// particular no job is executed a second time after it completed.
pub proof fn lemma_one_place(p: Pool, id: u64)
    requires
        p.wf(),
    ensures
        !(p.pending_jobs().contains(id) && p.running(id)),
        !(p.pending_jobs().contains(id) && p.completed_jobs().contains(id)),
        !(p.running(id) && p.completed_jobs().contains(id)),
{
    if p.pending_jobs().contains(id) && p.running(id) {
        let i = choose|i: int| 0 <= i < p.pending_jobs().len() && p.pending_jobs()[i] == id;
        let w = choose|w: int|
            0 <= w < p.worker_states().len() && p.worker_states()[w] == WorkerStatus::Busy(id);
        assert(p.pending_jobs()[i] != id);
    }
    if p.pending_jobs().contains(id) && p.completed_jobs().contains(id) {
        let i = choose|i: int| 0 <= i < p.pending_jobs().len() && p.pending_jobs()[i] == id;
        let j = choose|j: int| 0 <= j < p.completed_jobs().len() && p.completed_jobs()[j] == id;
        assert(p.pending_jobs()[i] != p.completed_jobs()[j]);
    }
    if p.running(id) && p.completed_jobs().contains(id) {
        let w = choose|w: int|
            0 <= w < p.worker_states().len() && p.worker_states()[w] == WorkerStatus::Busy(id);
        let j = choose|j: int| 0 <= j < p.completed_jobs().len() && p.completed_jobs()[j] == id;
        assert(p.completed_jobs()[j] != id);
    }
}

/// Law: the completion history never records a ticket twice — no job is
/// executed more than once.
pub proof fn lemma_completed_once(p: Pool, i: int, j: int)
    requires
        p.wf(),
        0 <= i < p.completed_jobs().len(),
        0 <= j < p.completed_jobs().len(),
        p.completed_jobs()[i] == p.completed_jobs()[j],
    ensures
        i == j,
{
}

/// Law: once shutdown has taken effect — queue closed, all workers exited —
/// the completion history holds every submitted ticket exactly once: jobs
/// were neither dropped nor duplicated, whatever order the workers raced
/// through the queue in.
pub proof fn lemma_drained_history_exact(p: Pool)
    requires
        p.wf(),
        p.shutdown_complete(),
    ensures
        p.pending_jobs().len() == 0,
        p.completed_jobs().no_duplicates(),
        p.completed_jobs().len() == p.submitted(),
        forall|id: u64| id < p.submitted() <==> #[trigger] p.completed_jobs().contains(id),
{
    // Some worker exists and has exited, so the queue is drained.
    assert(p.worker_states()[0] is Exited);
    assert(p.pending_jobs().len() == 0);
    // With the queue empty and every worker exited, each submitted ticket
    // can only be in the completion history.
    assert forall|id: u64| id < p.submitted() implies #[trigger] p.completed_jobs().contains(
        id,
    ) by {
        assert(p.accounted(id));
        if p.running(id) {
            let v = choose|v: int|
                0 <= v < p.worker_states().len() && p.worker_states()[v] == WorkerStatus::Busy(
                    id,
                );
            assert(p.worker_states()[v] is Exited);
        }
    }
    assert forall|id: u64| p.completed_jobs().contains(id) implies id < p.submitted() by {
        let j = choose|j: int| 0 <= j < p.completed_jobs().len() && p.completed_jobs()[j] == id;
        assert(p.completed_jobs()[j] < p.submitted());
    }
    lemma_distinct_cover_len(p.completed_jobs(), p.submitted());
}

/// Loop measure for draining one worker: every step of the drain loop —
/// finishing a job, dequeuing the next one, or observing the drained,
/// closed queue — strictly shrinks it.
spec fn drain_measure(p: Pool, w: int) -> int {
    2 * p.pending_jobs().len() + match p.worker_states()[w] {
        WorkerStatus::Busy(_) => 3int,
        WorkerStatus::Idle => 2int,
        WorkerStatus::Exited => 0int,
    }
}

/// A duplicate-free sequence of tickets that covers `0..n` and stays below
/// `n` has exactly `n` entries.
proof fn lemma_distinct_cover_len(s: Seq<u64>, n: int)
    requires
        0 <= n <= u64::MAX,
        s.no_duplicates(),
        forall|i: int| 0 <= i < s.len() ==> #[trigger] s[i] < n,
        forall|id: u64| id < n ==> #[trigger] s.contains(id),
    ensures
        s.len() == n,
    decreases n,
{
    if n == 0 {
        if s.len() > 0 {
            assert(s[0] < 0);
        }
    } else {
        let last = (n - 1) as u64;
        assert(s.contains(last));
        let k = choose|k: int| 0 <= k < s.len() && s[k] == last;
        let t = s.remove(k);
        assert forall|i: int| 0 <= i < t.len() implies #[trigger] t[i] < n - 1 by {
            if i < k {
                assert(t[i] == s[i]);
                assert(s[i] != last);
            } else {
                assert(t[i] == s[i + 1]);
                assert(s[i + 1] != last);
            }
        }
        assert forall|i: int, j: int| 0 <= i < t.len() && 0 <= j < t.len() && i != j
            implies t[i] != t[j] by {
            let si: int = if i < k { i } else { i + 1 };
            let sj: int = if j < k { j } else { j + 1 };
            assert(t[i] == s[si]);
            assert(t[j] == s[sj]);
        }
        assert forall|id: u64| id < n - 1 implies #[trigger] t.contains(id) by {
            assert(s.contains(id));
            let j = choose|j: int| 0 <= j < s.len() && s[j] == id;
            assert(id != last);
            assert(j != k);
            if j < k {
                assert(t[j] == id);
            } else {
                assert(t[j - 1] == s[j]);
                assert(t[j - 1] == id);
            }
        }
        lemma_distinct_cover_len(t, n - 1);
    }
}

} // verus!
