use std::collections::VecDeque;
use vstd::prelude::*;

verus! {

/// What a worker is doing.
#[derive(Clone, Copy, Debug, PartialEq, Eq, Structural)]
pub enum WorkerState {
    /// Waiting for the next job.
    Idle,
    /// Running the job with this ticket.
    Running(u64),
    /// Exited for good after the pool was closed and drained.
    Terminated,
}

/// The decision handed to a worker that asks for work.
#[derive(Clone, Copy, Debug, PartialEq, Eq, Structural)]
pub enum Step {
    /// Run the job with this ticket, then report back with `finish`.
    Run(u64),
    /// Nothing is queued yet: block until a job is submitted or the pool closes.
    Wait,
    /// The pool is closed and drained: leave the worker loop.
    Exit,
}

/// The scheduling state of a pool of `size` workers.
///
/// Each submitted job gets a ticket, numbered from zero in submission order.
/// The queue holds the tickets of the jobs that no worker has taken yet.
pub struct ThreadPool {
    workers: Vec<WorkerState>,
    queue: VecDeque<u64>,
    submitted: u64,
    taken: u64,
    open: bool,
    done: Ghost<Set<u64>>,
}

/// The weight of one worker in the teardown measure: a running worker owes a
/// `finish`, an idle one a last request for work.
pub open spec fn worker_cost(s: WorkerState) -> nat {
    match s {
        WorkerState::Idle => 1,
        WorkerState::Running(_) => 2,
        WorkerState::Terminated => 0,
    }
}

/// The summed weight of a sequence of workers.
pub open spec fn workers_cost(ws: Seq<WorkerState>) -> nat
    decreases ws.len(),
{
    if ws.len() == 0 {
        0
    } else {
        workers_cost(ws.drop_last()) + worker_cost(ws.last())
    }
}

proof fn lemma_workers_cost_update(ws: Seq<WorkerState>, i: int, s: WorkerState)
    requires
        0 <= i < ws.len(),
    ensures
        workers_cost(ws.update(i, s)) + worker_cost(ws[i]) == workers_cost(ws) + worker_cost(s),
    decreases ws.len(),
{
    let us = ws.update(i, s);
    if i == ws.len() - 1 {
        assert(us.drop_last() =~= ws.drop_last());
    } else {
        lemma_workers_cost_update(ws.drop_last(), i, s);
        assert(us.drop_last() =~= ws.drop_last().update(i, s));
    }
}

/// Whether some worker runs the job with ticket `j`.
pub open spec fn runs_somewhere(ws: Seq<WorkerState>, j: u64) -> bool {
    exists|w: int| 0 <= w < ws.len() && ws[w] == WorkerState::Running(j)
}

proof fn lemma_runs_kept(ws: Seq<WorkerState>, w: int, s: WorkerState, j: u64)
    requires
        0 <= w < ws.len(),
        runs_somewhere(ws, j),
        ws[w] != WorkerState::Running(j),
    ensures
        runs_somewhere(ws.update(w, s), j),
{
    let v = choose|v: int| 0 <= v < ws.len() && ws[v] == WorkerState::Running(j);
    assert(ws.update(w, s)[v] == WorkerState::Running(j));
}

impl ThreadPool {
    /// The state of each worker, indexed by worker id.
    pub closed spec fn spec_workers(&self) -> Seq<WorkerState> {
        self.workers@
    }

    /// The tickets waiting in the queue, front first.
    pub closed spec fn spec_queue(&self) -> Seq<u64> {
        self.queue@
    }

    /// How many jobs were submitted; also the next ticket.
    pub closed spec fn spec_submitted(&self) -> nat {
        self.submitted as nat
    }

    /// How many jobs workers have taken from the queue.
    pub closed spec fn spec_taken(&self) -> nat {
        self.taken as nat
    }

    /// Whether the pool still accepts submissions.
    pub closed spec fn spec_open(&self) -> bool {
        self.open
    }

    /// The tickets of the jobs whose run has completed.
    pub closed spec fn spec_done(&self) -> Set<u64> {
        self.done@
    }

    /// The number of workers.
    pub open spec fn spec_size(&self) -> nat {
        self.spec_workers().len()
    }

    /// The tickets of the jobs that some worker has taken.
    pub open spec fn spec_started(&self) -> Set<u64> {
        Set::new(|j: u64| j < self.spec_taken())
    }

    /// The tickets of the jobs ever submitted.
    pub open spec fn spec_all_jobs(&self) -> Set<u64> {
        Set::new(|j: u64| j < self.spec_submitted())
    }

    /// The jobs that were taken and have not completed: those running now.
    pub open spec fn spec_in_flight(&self) -> Set<u64> {
        self.spec_started().difference(self.spec_done())
    }

    /// Whether every worker has exited.
    pub open spec fn spec_terminated(&self) -> bool {
        forall|w: int|
            0 <= w < self.spec_size() ==> self.spec_workers()[w] == WorkerState::Terminated
    }

    /// What is left to do before every worker has exited, once the pool is closed.
    pub open spec fn teardown_measure(&self) -> nat {
        2 * self.spec_queue().len() + workers_cost(self.spec_workers())
    }

    /// The queue holds the tickets not yet taken, in submission order.
    pub open spec fn queue_in_order(q: Seq<u64>, taken: nat, submitted: nat) -> bool {
        &&& taken <= submitted
        &&& q.len() == submitted - taken
        &&& forall|i: int| 0 <= i < q.len() ==> q[i] == taken + i
    }

    /// The pool's invariant.
    pub closed spec fn wf(&self) -> bool {
        &&& self.workers@.len() >= 1
        &&& Self::queue_in_order(self.queue@, self.taken as nat, self.submitted as nat)
        &&& self.done@.finite()
        &&& forall|j: u64| self.done@.contains(j) ==> j < self.taken
        &&& forall|w: int|
            0 <= w < self.workers@.len() && (#[trigger] self.workers@[w]) is Running ==> {
                &&& self.workers@[w]->Running_0 < self.taken
                &&& !self.done@.contains(self.workers@[w]->Running_0)
            }
        &&& forall|w1: int, w2: int|
            0 <= w1 < self.workers@.len() && 0 <= w2 < self.workers@.len()
                && (#[trigger] self.workers@[w1]) is Running
                && self.workers@[w1] == #[trigger] self.workers@[w2] ==> w1 == w2
        &&& forall|j: u64|
            j < self.taken && !self.done@.contains(j) ==> #[trigger] runs_somewhere(
                self.workers@,
                j,
            )
        &&& forall|w: int|
            0 <= w < self.workers@.len() && self.workers@[w] == WorkerState::Terminated
                ==> !self.open && self.taken == self.submitted
    }

    /// Create the state of a pool of `size` idle workers, open for submissions.
    pub fn new(size: usize) -> (r: ThreadPool)
        requires
            size > 0,
        ensures
            r.wf(),
            r.spec_size() == size,
            r.spec_open(),
            r.spec_submitted() == 0,
            r.spec_taken() == 0,
            r.spec_queue().len() == 0,
            r.spec_done() == Set::<u64>::empty(),
            forall|w: int| 0 <= w < size ==> r.spec_workers()[w] == WorkerState::Idle,
    {
        let mut workers: Vec<WorkerState> = Vec::with_capacity(size);
        let mut i: usize = 0;
        while i < size
            invariant
                i <= size,
                workers@.len() == i,
                forall|w: int| 0 <= w < i ==> workers@[w] == WorkerState::Idle,
            decreases size - i,
        {
            workers.push(WorkerState::Idle);
            i = i + 1;
        }
        let r = ThreadPool {
            workers,
            queue: VecDeque::new(),
            submitted: 0,
            taken: 0,
            open: true,
            done: Ghost(Set::empty()),
        };
        assert(r.queue@.len() == 0);
        r
    }

    /// Submit one job. While the pool is open the job is appended to the
    /// queue and its ticket returned; once it is closed nothing changes and
    /// `None` is returned.
    pub fn execute(&mut self) -> (r: Option<u64>)
        requires
            old(self).wf(),
            old(self).spec_submitted() < u64::MAX,
        ensures
            final(self).wf(),
            old(self).spec_open() ==> {
                &&& r == Some(old(self).spec_submitted() as u64)
                &&& final(self).spec_queue() == old(self).spec_queue().push(
                    old(self).spec_submitted() as u64,
                )
                &&& final(self).spec_submitted() == old(self).spec_submitted() + 1
                &&& final(self).spec_workers() == old(self).spec_workers()
                &&& final(self).spec_taken() == old(self).spec_taken()
                &&& final(self).spec_done() == old(self).spec_done()
                &&& final(self).spec_open()
            },
            !old(self).spec_open() ==> r is None && *final(self) == *old(self),
    {
        if !self.open {
            return None;
        }
        let ticket = self.submitted;
        self.queue.push_back(ticket);
        self.submitted = self.submitted + 1;
        assert(Self::queue_in_order(self.queue@, self.taken as nat, self.submitted as nat));
        Some(ticket)
    }

    /// Worker `w`, idle, asks for work. It is handed the oldest queued job if
    /// there is one; otherwise it waits while the pool is open and exits once
    /// it is closed.
    pub fn take_next(&mut self, w: usize) -> (r: Step)
        requires
            old(self).wf(),
            w < old(self).spec_size(),
            old(self).spec_workers()[w as int] == WorkerState::Idle,
        ensures
            final(self).wf(),
            final(self).spec_submitted() == old(self).spec_submitted(),
            final(self).spec_open() == old(self).spec_open(),
            final(self).spec_done() == old(self).spec_done(),
            old(self).spec_queue().len() > 0 ==> {
                &&& r == Step::Run(old(self).spec_queue()[0])
                &&& old(self).spec_queue()[0] == old(self).spec_taken()
                &&& final(self).spec_queue() == old(self).spec_queue().drop_first()
                &&& final(self).spec_taken() == old(self).spec_taken() + 1
                &&& final(self).spec_workers() == old(self).spec_workers().update(
                    w as int,
                    WorkerState::Running(old(self).spec_queue()[0]),
                )
            },
            old(self).spec_queue().len() == 0 && old(self).spec_open() ==> r == Step::Wait
                && *final(self) == *old(self),
            old(self).spec_queue().len() == 0 && !old(self).spec_open() ==> {
                &&& r == Step::Exit
                &&& final(self).spec_queue() == old(self).spec_queue()
                &&& final(self).spec_taken() == old(self).spec_taken()
                &&& final(self).spec_workers() == old(self).spec_workers().update(
                    w as int,
                    WorkerState::Terminated,
                )
            },
            r matches Step::Run(j) ==> !old(self).spec_started().contains(j)
                && final(self).spec_started() == old(self).spec_started().insert(j),
            !old(self).spec_open() ==> final(self).teardown_measure()
                < old(self).teardown_measure(),
    {
        proof {
            lemma_workers_cost_update(self.workers@, w as int, WorkerState::Running(self.taken));
            lemma_workers_cost_update(self.workers@, w as int, WorkerState::Terminated);
        }
        if self.queue.len() == 0 {
            if self.open {
                return Step::Wait;
            }
            let ghost before = *self;
            self.workers.set(w, WorkerState::Terminated);
            assert forall|j: u64| j < self.taken && !self.done@.contains(j) implies runs_somewhere(
                self.workers@,
                j,
            ) by {
                lemma_runs_kept(before.workers@, w as int, WorkerState::Terminated, j);
            }
            return Step::Exit;
        }
        let ghost before = *self;
        let ticket = match self.queue.pop_front() {
            Some(t) => t,
            None => 0,
        };
        self.workers.set(w, WorkerState::Running(ticket));
        self.taken = self.taken + 1;
        assert(Self::queue_in_order(self.queue@, self.taken as nat, self.submitted as nat));
        assert forall|j: u64| j < self.taken && !self.done@.contains(j) implies runs_somewhere(
            self.workers@,
            j,
        ) by {
            if j != ticket {
                lemma_runs_kept(before.workers@, w as int, WorkerState::Running(ticket), j);
            } else {
                assert(self.workers@[w as int] == WorkerState::Running(j));
            }
        }
        assert(self.spec_started() =~= before.spec_started().insert(ticket));
        Step::Run(ticket)
    }

    /// Worker `w` reports that its job has completed; it becomes idle again.
    /// Returns the ticket of the completed job.
    pub fn finish(&mut self, w: usize) -> (r: u64)
        requires
            old(self).wf(),
            w < old(self).spec_size(),
            old(self).spec_workers()[w as int] is Running,
        ensures
            final(self).wf(),
            old(self).spec_workers()[w as int] == WorkerState::Running(r),
            !old(self).spec_done().contains(r),
            final(self).spec_done() == old(self).spec_done().insert(r),
            final(self).spec_workers() == old(self).spec_workers().update(
                w as int,
                WorkerState::Idle,
            ),
            final(self).spec_queue() == old(self).spec_queue(),
            final(self).spec_submitted() == old(self).spec_submitted(),
            final(self).spec_taken() == old(self).spec_taken(),
            final(self).spec_open() == old(self).spec_open(),
            final(self).teardown_measure() < old(self).teardown_measure(),
    {
        let ticket = match self.workers[w] {
            WorkerState::Running(j) => j,
            _ => 0,
        };
        proof {
            lemma_workers_cost_update(self.workers@, w as int, WorkerState::Idle);
        }
        let ghost before = *self;
        self.workers.set(w, WorkerState::Idle);
        self.done = Ghost(self.done@.insert(ticket));
        assert forall|j: u64| j < self.taken && !self.done@.contains(j) implies runs_somewhere(
            self.workers@,
            j,
        ) by {
            lemma_runs_kept(before.workers@, w as int, WorkerState::Idle, j);
        }
        ticket
    }

    /// Close the pool to submissions. Queued jobs are still handed out.
    pub fn shutdown(&mut self)
        requires
            old(self).wf(),
        ensures
            final(self).wf(),
            !final(self).spec_open(),
            final(self).spec_workers() == old(self).spec_workers(),
            final(self).spec_queue() == old(self).spec_queue(),
            final(self).spec_submitted() == old(self).spec_submitted(),
            final(self).spec_taken() == old(self).spec_taken(),
            final(self).spec_done() == old(self).spec_done(),
    {
        self.open = false;
    }

    /// The number of workers.
    pub fn size(&self) -> (r: usize)
        ensures
            r == self.spec_size(),
    {
        self.workers.len()
    }

    /// The state of worker `w`.
    pub fn worker_state(&self, w: usize) -> (r: WorkerState)
        requires
            w < self.spec_size(),
        ensures
            r == self.spec_workers()[w as int],
    {
        self.workers[w]
    }

    /// How many jobs wait in the queue.
    pub fn pending(&self) -> (r: usize)
        ensures
            r == self.spec_queue().len(),
    {
        self.queue.len()
    }

    /// How many jobs were submitted.
    pub fn submitted(&self) -> (r: u64)
        ensures
            r == self.spec_submitted(),
    {
        self.submitted
    }

    /// Whether the pool still accepts submissions.
    pub fn is_open(&self) -> (r: bool)
        ensures
            r == self.spec_open(),
    {
        self.open
    }

    /// Whether every worker has exited: the teardown is complete.
    pub fn is_terminated(&self) -> (r: bool)
        ensures
            r == self.spec_terminated(),
    {
        let mut i: usize = 0;
        while i < self.workers.len()
            invariant
                i <= self.workers@.len(),
                forall|w: int| 0 <= w < i ==> self.workers@[w] == WorkerState::Terminated,
            decreases self.workers@.len() - i,
        {
            if self.workers[i] != WorkerState::Terminated {
                return false;
            }
            i = i + 1;
        }
        true
    }
}

/// Every submitted job is in exactly one place: still queued, run by exactly
/// one worker, or completed. No job is lost and none is run twice at once.
pub proof fn lemma_exactly_once(p: &ThreadPool, j: u64)
    requires
        p.wf(),
        j < p.spec_submitted(),
    ensures
        p.spec_queue().contains(j) ==> !p.spec_started().contains(j),
        p.spec_in_flight().contains(j) ==> !p.spec_queue().contains(j) && !p.spec_done().contains(
            j,
        ),
        p.spec_done().contains(j) ==> !p.spec_queue().contains(j) && p.spec_started().contains(j),
        p.spec_queue().contains(j) || p.spec_in_flight().contains(j) || p.spec_done().contains(j),
        p.spec_in_flight().contains(j) ==> exists|w: int|
            0 <= w < p.spec_size() && p.spec_workers()[w] == WorkerState::Running(j) && forall|
                v: int,
            |
                0 <= v < p.spec_size() && p.spec_workers()[v] == WorkerState::Running(j) ==> v
                    == w,
{
    if j >= p.taken {
        let i = j - p.taken;
        assert(p.queue@[i as int] == j);
    }
    if p.spec_queue().contains(j) {
        let i = choose|i: int| 0 <= i < p.queue@.len() && p.queue@[i] == j;
    }
    if p.spec_in_flight().contains(j) {
        assert(runs_somewhere(p.workers@, j));
        let w = choose|w: int| 0 <= w < p.workers@.len() && p.workers@[w] == WorkerState::Running(j);
        assert forall|v: int|
            0 <= v < p.spec_size() && p.spec_workers()[v] == WorkerState::Running(j) implies v
            == w by {
            assert(p.workers@[w] is Running);
        }
    }
}

/// Bounded concurrency: at no time do more jobs run than the pool has workers.
pub proof fn lemma_bounded_concurrency(p: &ThreadPool)
    requires
        p.wf(),
    ensures
        p.spec_in_flight().finite(),
        p.spec_in_flight().len() <= p.spec_size(),
{
    let ws = p.workers@;
    let ids = ws.map_values(|s: WorkerState| if s is Running { s->Running_0 } else { 0 });
    assert forall|j: u64| p.spec_in_flight().contains(j) implies ids.to_set().contains(j) by {
        assert(runs_somewhere(ws, j));
        let w = choose|w: int| 0 <= w < ws.len() && ws[w] == WorkerState::Running(j);
        assert(ids[w] == j);
    }
    ids.lemma_cardinality_of_set();
    vstd::set_lib::lemma_len_subset(p.spec_in_flight(), ids.to_set());
}

/// The queue holds exactly the jobs not yet taken, in submission order; with
/// `take_next` handing out the front, jobs start in the order submitted.
pub proof fn lemma_fifo(p: &ThreadPool)
    requires
        p.wf(),
    ensures
        ThreadPool::queue_in_order(p.spec_queue(), p.spec_taken(), p.spec_submitted()),
{
}

/// Once every worker has exited, every job submitted before the shutdown was
/// taken exactly once and has completed, and nothing is left queued.
pub proof fn lemma_teardown_complete(p: &ThreadPool)
    requires
        p.wf(),
        p.spec_terminated(),
    ensures
        !p.spec_open(),
        p.spec_queue().len() == 0,
        p.spec_started() == p.spec_all_jobs(),
        p.spec_done() == p.spec_all_jobs(),
{
    assert(p.workers@[0] == WorkerState::Terminated);
    assert forall|j: u64| p.spec_all_jobs().contains(j) implies p.spec_done().contains(j) by {
        if !p.done@.contains(j) {
            assert(runs_somewhere(p.workers@, j));
        }
    }
    assert(p.spec_done() =~= p.spec_all_jobs());
    assert(p.spec_started() =~= p.spec_all_jobs());
}

/// Teardown cannot deadlock: while the pool is closed and some worker has not
/// exited, that worker can make a step (`take_next` if idle, `finish` if
/// running), and each such step lowers the teardown measure.
pub proof fn lemma_teardown_progress(p: &ThreadPool)
    requires
        p.wf(),
        !p.spec_open(),
        !p.spec_terminated(),
    ensures
        p.teardown_measure() > 0,
        exists|w: int|
            0 <= w < p.spec_size() && (p.spec_workers()[w] == WorkerState::Idle
                || p.spec_workers()[w] is Running),
{
    let w = choose|w: int|
        0 <= w < p.spec_size() && p.spec_workers()[w] != WorkerState::Terminated;
    lemma_workers_cost_update(p.workers@, w, WorkerState::Terminated);
}

/// A closed pool that was never given a job runs none: no worker runs
/// anything and the queue is empty, so each idle worker's `take_next` exits.
pub proof fn lemma_idle_teardown(p: &ThreadPool)
    requires
        p.wf(),
        !p.spec_open(),
        p.spec_submitted() == 0,
    ensures
        p.spec_queue().len() == 0,
        p.spec_started() == Set::<u64>::empty(),
        p.spec_done() == Set::<u64>::empty(),
        forall|w: int| 0 <= w < p.spec_size() ==> !(p.spec_workers()[w] is Running),
{
    assert(p.spec_started() =~= Set::<u64>::empty());
    assert(p.spec_done() =~= Set::<u64>::empty());
}

} // verus!
