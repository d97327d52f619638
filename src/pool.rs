use std::collections::VecDeque;
use vstd::prelude::*;

use crate::error::{PoolCreationError, SubmitError};
use crate::worker::WorkerState;

verus! {

/// What a worker is told to do when it asks for work.
#[derive(Debug)]
pub enum Dequeue<J> {
    /// Run this job, with the pool unlocked, then report back.
    Run(J),
    /// The queue is empty but open: block until a job or the shutdown comes.
    Wait,
    /// The queue is closed and drained: leave the loop.
    Stop,
}

/// How many of the given workers are running a job.
pub open spec fn running_count(states: Seq<WorkerState>) -> nat
    decreases states.len(),
{
    if states.len() == 0 {
        0
    } else {
        running_count(states.drop_last()) + if states.last() is Running {
            1nat
        } else {
            0nat
        }
    }
}

/// The shared state of a pool: the queue of jobs that wait for a worker,
/// whether the pool still takes jobs, and the state of each worker.
///
/// Beside it the pool keeps, as ghost history, every job it accepted and
/// every job it handed out, in order, and the count of jobs that finished.
pub struct ThreadPool<J> {
    queue: VecDeque<J>,
    open: bool,
    workers: Vec<WorkerState>,
    accepted: Ghost<Seq<J>>,
    started: Ghost<Seq<J>>,
    completed: Ghost<nat>,
}

impl<J> ThreadPool<J> {
    /// The jobs that wait for a worker, oldest first.
    pub closed spec fn pending(&self) -> Seq<J> {
        self.queue@
    }

    /// Whether the pool still takes jobs.
    pub closed spec fn is_open_spec(&self) -> bool {
        self.open
    }

    /// The state of each worker, by id.
    pub closed spec fn states(&self) -> Seq<WorkerState> {
        self.workers@
    }

    /// Every job the pool accepted, in the order it accepted them.
    pub closed spec fn accepted(&self) -> Seq<J> {
        self.accepted@
    }

    /// Every job the pool handed to a worker, in the order it handed them out.
    pub closed spec fn started(&self) -> Seq<J> {
        self.started@
    }

    /// How many handed-out jobs have been reported done.
    pub closed spec fn completed(&self) -> nat {
        self.completed@
    }

    /// The number of workers.
    pub open spec fn size_spec(&self) -> nat {
        self.states().len()
    }

    /// The pool's invariant.
    pub closed spec fn wf(&self) -> bool {
        &&& self.workers@.len() > 0
        &&& self.accepted@ == self.started@ + self.queue@
        &&& self.started@.len() == self.completed@ + running_count(self.workers@)
        &&& forall|i: int|
            0 <= i < self.workers@.len() && #[trigger] self.workers@[i] is Terminated ==> !self.open
                && self.queue@.len() == 0
    }

    /// Build a pool of `size` workers, all waiting on an empty, open queue.
    /// A pool of no workers is refused.
    pub fn build(size: usize) -> (r: Result<ThreadPool<J>, PoolCreationError>)
        ensures
            size == 0 <==> r is Err,
            r is Err ==> r == Err::<ThreadPool<J>, PoolCreationError>(
                PoolCreationError::ZeroThreads,
            ),
            r matches Ok(p) ==> {
                &&& p.wf()
                &&& p.states() == Seq::new(size as nat, |i: int| WorkerState::Waiting)
                &&& p.is_open_spec()
                &&& p.pending().len() == 0
                &&& p.accepted().len() == 0
                &&& p.started().len() == 0
                &&& p.completed() == 0
            },
    {
        if size == 0 {
            return Err(PoolCreationError::ZeroThreads);
        }
        let mut workers: Vec<WorkerState> = Vec::with_capacity(size);
        let mut i: usize = 0;
        while i < size
            invariant
                i <= size,
                workers@ == Seq::new(i as nat, |k: int| WorkerState::Waiting),
            decreases size - i,
        {
            workers.push(WorkerState::Waiting);
            i += 1;
            assert(workers@ =~= Seq::new(i as nat, |k: int| WorkerState::Waiting));
        }
        proof {
            lemma_count_none_running(workers@);
        }
        let pool = ThreadPool {
            queue: VecDeque::new(),
            open: true,
            workers,
            accepted: Ghost(Seq::empty()),
            started: Ghost(Seq::empty()),
            completed: Ghost(0),
        };
        assert(pool.accepted@ =~= pool.started@ + pool.queue@);
        Ok(pool)
    }

    /// Submit a job. While the pool is open the job joins the back of the
    /// queue; once shutdown has begun it is handed back in the error and
    /// the pool is left as it was.
    pub fn execute(&mut self, job: J) -> (r: Result<(), SubmitError<J>>)
        requires
            old(self).wf(),
        ensures
            final(self).wf(),
            final(self).states() == old(self).states(),
            final(self).started() == old(self).started(),
            final(self).completed() == old(self).completed(),
            final(self).is_open_spec() == old(self).is_open_spec(),
            old(self).is_open_spec() ==> {
                &&& r is Ok
                &&& final(self).pending() == old(self).pending().push(job)
                &&& final(self).accepted() == old(self).accepted().push(job)
            },
            !old(self).is_open_spec() ==> {
                &&& r == Err::<(), SubmitError<J>>(SubmitError::ShuttingDown(job))
                &&& final(self).pending() == old(self).pending()
                &&& final(self).accepted() == old(self).accepted()
            },
    {
        if !self.open {
            return Err(SubmitError::ShuttingDown(job));
        }
        proof {
            self.accepted@ = self.accepted@.push(job);
        }
        self.queue.push_back(job);
        assert(self.accepted@ =~= self.started@ + self.queue@);
        Ok(())
    }

    /// Called by worker `id`, waiting and holding the pool's lock, to learn
    /// what to do next. The oldest queued job goes to it and it is marked
    /// running; with an empty queue it waits while the pool is open and
    /// stops for good once the pool is closed.
    pub fn next_job(&mut self, id: usize) -> (r: Dequeue<J>)
        requires
            old(self).wf(),
            id < old(self).size_spec(),
            old(self).states()[id as int] is Waiting,
        ensures
            final(self).wf(),
            final(self).accepted() == old(self).accepted(),
            final(self).completed() == old(self).completed(),
            final(self).is_open_spec() == old(self).is_open_spec(),
            old(self).pending().len() > 0 ==> {
                &&& r == Dequeue::Run(old(self).pending()[0])
                &&& final(self).pending() == old(self).pending().drop_first()
                &&& final(self).started() == old(self).started().push(old(self).pending()[0])
                &&& final(self).states() == old(self).states().update(id as int, WorkerState::Running)
            },
            old(self).pending().len() == 0 && !old(self).is_open_spec() ==> {
                &&& r is Stop
                &&& final(self).pending() == old(self).pending()
                &&& final(self).started() == old(self).started()
                &&& final(self).states() == old(self).states().update(id as int, WorkerState::Terminated)
            },
            old(self).pending().len() == 0 && old(self).is_open_spec() ==> {
                &&& r is Wait
                &&& final(self).pending() == old(self).pending()
                &&& final(self).started() == old(self).started()
                &&& final(self).states() == old(self).states()
            },
    {
        match self.queue.pop_front() {
            Some(job) => {
                proof {
                    lemma_count_update(self.workers@, id as int, WorkerState::Running);
                    self.started@ = self.started@.push(job);
                }
                self.workers.set(id, WorkerState::Running);
                assert(self.accepted@ =~= self.started@ + self.queue@);
                Dequeue::Run(job)
            },
            None => {
                if self.open {
                    Dequeue::Wait
                } else {
                    proof {
                        lemma_count_update(self.workers@, id as int, WorkerState::Terminated);
                    }
                    self.workers.set(id, WorkerState::Terminated);
                    Dequeue::Stop
                }
            },
        }
    }

    /// Called by worker `id` when the job it was running has returned,
    /// normally or not: the worker waits for work again.
    pub fn finish_job(&mut self, id: usize)
        requires
            old(self).wf(),
            id < old(self).size_spec(),
            old(self).states()[id as int] is Running,
        ensures
            final(self).wf(),
            final(self).states() == old(self).states().update(id as int, WorkerState::Waiting),
            final(self).completed() == old(self).completed() + 1,
            final(self).pending() == old(self).pending(),
            final(self).accepted() == old(self).accepted(),
            final(self).started() == old(self).started(),
            final(self).is_open_spec() == old(self).is_open_spec(),
    {
        proof {
            lemma_count_update(self.workers@, id as int, WorkerState::Waiting);
            self.completed@ = self.completed@ + 1;
        }
        self.workers.set(id, WorkerState::Waiting);
    }

    /// Begin teardown: the pool takes no more jobs. Jobs already queued are
    /// still handed out; workers stop once the queue is drained.
    pub fn shutdown(&mut self)
        requires
            old(self).wf(),
        ensures
            final(self).wf(),
            !final(self).is_open_spec(),
            final(self).states() == old(self).states(),
            final(self).pending() == old(self).pending(),
            final(self).accepted() == old(self).accepted(),
            final(self).started() == old(self).started(),
            final(self).completed() == old(self).completed(),
    {
        self.open = false;
    }

    /// The number of workers.
    pub fn size(&self) -> (r: usize)
        ensures
            r == self.size_spec(),
    {
        self.workers.len()
    }

    /// Whether the pool still takes jobs.
    pub fn is_open(&self) -> (r: bool)
        ensures
            r == self.is_open_spec(),
    {
        self.open
    }

    /// The number of jobs that wait for a worker.
    pub fn pending_len(&self) -> (r: usize)
        ensures
            r == self.pending().len(),
    {
        self.queue.len()
    }

    /// The state of worker `id`.
    pub fn worker_state(&self, id: usize) -> (r: WorkerState)
        requires
            id < self.size_spec(),
        ensures
            r == self.states()[id as int],
    {
        self.workers[id]
    }

    /// Whether every worker has stopped.
    pub fn all_stopped(&self) -> (r: bool)
        ensures
            r == forall|i: int| 0 <= i < self.size_spec() ==> #[trigger] self.states()[i] is Terminated,
    {
        let mut i: usize = 0;
        while i < self.workers.len()
            invariant
                i <= self.workers@.len(),
                forall|k: int| 0 <= k < i ==> #[trigger] self.workers@[k] is Terminated,
            decreases self.workers@.len() - i,
        {
            if !(self.workers[i] == WorkerState::Terminated) {
                return false;
            }
            i += 1;
        }
        true
    }

    /// At most as many jobs run at once as the pool has workers: the jobs
    /// handed out and not yet finished are exactly those of the running
    /// workers, one each.
    pub proof fn lemma_running_at_most_size(&self)
        requires
            self.wf(),
        ensures
            self.started().len() == self.completed() + running_count(self.states()),
            running_count(self.states()) <= self.size_spec(),
            self.started().len() - self.completed() <= self.size_spec(),
    {
        lemma_count_bounded(self.states());
    }

    /// Jobs are handed out in the order they were submitted: what has been
    /// handed out is always a prefix of what was accepted, and the rest is
    /// the queue, in order.
    pub proof fn lemma_started_in_submission_order(&self)
        requires
            self.wf(),
        ensures
            self.started() == self.accepted().subrange(0, self.started().len() as int),
            self.pending() == self.accepted().subrange(
                self.started().len() as int,
                self.accepted().len() as int,
            ),
    {
        assert(self.started@ =~= self.accepted@.subrange(0, self.started@.len() as int));
        assert(self.queue@ =~= self.accepted@.subrange(
            self.started@.len() as int,
            self.accepted@.len() as int,
        ));
    }

    /// Once every worker has stopped, every accepted job was handed out
    /// exactly once and has finished: none is lost, none runs twice, and
    /// none is still running.
    pub proof fn lemma_stopped_pool_ran_every_job(&self)
        requires
            self.wf(),
            forall|i: int| 0 <= i < self.size_spec() ==> #[trigger] self.states()[i] is Terminated,
        ensures
            self.started() == self.accepted(),
            self.completed() == self.accepted().len(),
            running_count(self.states()) == 0,
            self.pending().len() == 0,
    {
        assert forall|i: int| 0 <= i < self.workers@.len() implies !(
        #[trigger] self.workers@[i] is Running) by {
            assert(self.states()[i] is Terminated);
        }
        lemma_count_none_running(self.workers@);
        assert(self.states()[0] is Terminated);
        assert(self.started@ + self.queue@ =~= self.started@);
    }
}

/// A sequence of workers none of which is running holds no running worker.
proof fn lemma_count_none_running(states: Seq<WorkerState>)
    requires
        forall|i: int| 0 <= i < states.len() ==> !(#[trigger] states[i] is Running),
    ensures
        running_count(states) == 0,
    decreases states.len(),
{
    if states.len() > 0 {
        lemma_count_none_running(states.drop_last());
    }
}

/// Setting one worker's state changes the running count by the
/// difference the change makes at that worker.
proof fn lemma_count_update(states: Seq<WorkerState>, i: int, v: WorkerState)
    requires
        0 <= i < states.len(),
    ensures
        running_count(states.update(i, v)) + (if states[i] is Running {
            1nat
        } else {
            0nat
        }) == running_count(states) + (if v is Running {
            1nat
        } else {
            0nat
        }),
    decreases states.len(),
{
    let u = states.update(i, v);
    if i == states.len() - 1 {
        assert(u.drop_last() =~= states.drop_last());
    } else {
        assert(u.drop_last() =~= states.drop_last().update(i, v));
        lemma_count_update(states.drop_last(), i, v);
    }
}

/// No more workers run than there are workers.
proof fn lemma_count_bounded(states: Seq<WorkerState>)
    ensures
        running_count(states) <= states.len(),
    decreases states.len(),
{
    if states.len() > 0 {
        lemma_count_bounded(states.drop_last());
    }
}

} // verus!
