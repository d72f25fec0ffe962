//! The pool: a fixed set of workers around one work queue, and the order in
//! which it shuts down.

use crate::queue::{QueueModel, Rejected, WorkQueue};
use crate::worker::{Step, Worker, WorkerModel};
use vstd::prelude::*;

verus! {

/// What the owner of a pool has to do next while it shuts the pool down.
#[derive(Debug, PartialEq, Eq)]
pub enum Shutdown<H> {
    /// The sending side of the queue was released by this call: wake every
    /// worker that waits, so that it can see the queue close.
    Wake,
    /// Wait for the thread of worker `id` to end. `thread` is the handle the
    /// worker held; it is `None` if no handle was ever attached.
    Join { id: usize, thread: Option<H> },
    /// Every worker has been visited: the shutdown is complete.
    Done,
}

/// The number of running workers among `workers`.
pub open spec fn count_running<H>(workers: Seq<WorkerModel<H>>) -> nat
    decreases workers.len(),
{
    if workers.len() == 0 {
        0
    } else {
        count_running(workers.drop_last()) + if workers.last().running() {
            1nat
        } else {
            0nat
        }
    }
}

/// A pool as contracts see it.
pub struct PoolModel<J, H> {
    /// The work queue and its history.
    pub queue: QueueModel<J>,
    /// The workers, in the order of their numbers.
    pub workers: Seq<WorkerModel<H>>,
    /// For each job handed out, in order, the number of the worker that took it.
    pub assigned: Seq<nat>,
    /// How many workers the shutdown has visited.
    pub joined: nat,
}

impl<J, H> PoolModel<J, H> {
    /// A new pool of `size` running workers around an open, empty queue.
    pub open spec fn init(size: nat) -> Self {
        PoolModel {
            queue: QueueModel::fresh(),
            workers: Seq::new(size, |i: int| WorkerModel::fresh(i as nat)),
            assigned: Seq::empty(),
            joined: 0,
        }
    }

    /// The number of workers.
    pub open spec fn size(self) -> nat {
        self.workers.len()
    }

    /// The pool still holds the sending side of its queue.
    pub open spec fn active(self) -> bool {
        self.queue.open
    }

    /// Every worker has terminated.
    pub open spec fn all_terminated(self) -> bool {
        forall|i: int| 0 <= i < self.workers.len() ==> !(#[trigger] self.workers[i]).running()
    }

    /// No worker holds a thread handle.
    pub open spec fn no_thread_held(self) -> bool {
        forall|i: int| 0 <= i < self.workers.len() ==> (#[trigger] self.workers[i]).thread is None
    }

    /// What holds of a pool at all times:
    ///
    /// - it has at least one worker, and worker `i` has the number `i`;
    /// - every job handed out was taken by one of its workers;
    /// - a worker has terminated only if the sending side is released and no
    ///   job waits;
    /// - the shutdown visits workers only after the sending side is
    ///   released, and a visited worker holds no thread handle.
    pub open spec fn inv(self) -> bool {
        &&& 1 <= self.workers.len() <= usize::MAX
        &&& forall|i: int| 0 <= i < self.workers.len() ==> (#[trigger] self.workers[i]).id == i
        &&& self.queue.wf()
        &&& self.assigned.len() == self.queue.taken
        &&& forall|k: int|
            0 <= k < self.assigned.len() ==> (#[trigger] self.assigned[k]) < self.workers.len()
        &&& forall|i: int|
            0 <= i < self.workers.len() && !(#[trigger] self.workers[i]).running()
                ==> self.queue.closed()
        &&& self.joined <= self.workers.len()
        &&& self.queue.open ==> self.joined == 0
        &&& forall|i: int| 0 <= i < self.joined ==> (#[trigger] self.workers[i]).thread is None
    }

    /// Whether worker `id` exists, holds no handle, and has not been visited
    /// by the shutdown.
    pub open spec fn can_attach(self, id: nat) -> bool {
        &&& self.joined <= id < self.workers.len()
        &&& self.workers[id as int].thread is None
    }

    /// The pool after `handle` was offered to worker `id`.
    pub open spec fn attach(self, id: nat, handle: H) -> Self {
        if self.can_attach(id) {
            PoolModel {
                workers: self.workers.update(
                    id as int,
                    WorkerModel { thread: Some(handle), ..self.workers[id as int] },
                ),
                ..self
            }
        } else {
            self
        }
    }

    /// The pool after `job` was offered to it.
    pub open spec fn execute(self, job: J) -> Self {
        PoolModel { queue: self.queue.submit(job), ..self }
    }

    /// What worker `id` is told when it asks for its next job.
    pub open spec fn reaction(self, id: nat) -> Step<J> {
        if id < self.workers.len() {
            self.workers[id as int].reaction(self.queue)
        } else {
            Step::Exit
        }
    }

    /// The pool after worker `id` asked for its next job.
    pub open spec fn step(self, id: nat) -> Self {
        if id < self.workers.len() {
            PoolModel {
                queue: self.workers[id as int].queue_after_asking(self.queue),
                workers: self.workers.update(
                    id as int,
                    self.workers[id as int].after_asking(self.queue),
                ),
                assigned: if self.reaction(id) is Run {
                    self.assigned.push(id)
                } else {
                    self.assigned
                },
                ..self
            }
        } else {
            self
        }
    }

    /// What the next step of the shutdown asks of the pool's owner.
    pub open spec fn shutdown_action(self) -> Shutdown<H> {
        if self.queue.open {
            Shutdown::Wake
        } else if self.joined < self.workers.len() {
            Shutdown::Join {
                id: self.joined as usize,
                thread: self.workers[self.joined as int].thread,
            }
        } else {
            Shutdown::Done
        }
    }

    /// The pool after the next step of the shutdown: first the sending side
    /// is released, then the workers give up their handles in the order of
    /// their numbers, then nothing changes any more.
    pub open spec fn shutdown_step(self) -> Self {
        if self.queue.open {
            PoolModel { queue: self.queue.close(), ..self }
        } else if self.joined < self.workers.len() {
            PoolModel {
                workers: self.workers.update(
                    self.joined as int,
                    WorkerModel { thread: None, ..self.workers[self.joined as int] },
                ),
                joined: self.joined + 1,
                ..self
            }
        } else {
            self
        }
    }

    /// The pool after the whole shutdown: the sending side is released, and
    /// every worker that the shutdown had not visited yet has been visited
    /// and has given up its handle. Jobs and worker states are untouched.
    pub open spec fn shut_down(self) -> Self {
        PoolModel {
            queue: self.queue.close(),
            workers: Seq::new(
                self.workers.len(),
                |i: int|
                    if self.joined <= i {
                        WorkerModel { thread: None, ..self.workers[i] }
                    } else {
                        self.workers[i]
                    },
            ),
            joined: if self.joined < self.workers.len() {
                self.workers.len()
            } else {
                self.joined
            },
            ..self
        }
    }

    /// The handles that the whole shutdown takes from the workers, in the
    /// order in which it visits them.
    pub open spec fn threads_to_join(self) -> Seq<Option<H>> {
        Seq::new(
            if self.joined < self.workers.len() {
                (self.workers.len() - self.joined) as nat
            } else {
                0nat
            },
            |k: int| self.workers[self.joined + k].thread,
        )
    }

    /// How many more steps the shutdown takes until it reports `Done`.
    pub open spec fn shutdown_steps_left(self) -> nat {
        ((if self.queue.open { 1nat } else { 0nat }) + self.workers.len() - self.joined) as nat
    }

    /// The number of workers that are still running.
    pub open spec fn running_count(self) -> nat {
        count_running(self.workers)
    }

    /// The work that is left once the sending side is released: one step of a
    /// running worker for each job that waits, and one more for each running
    /// worker to see the queue closed.
    pub open spec fn work_left(self) -> nat {
        self.queue.pending().len() + self.running_count()
    }
}

/// A pool of a fixed number of workers that share one queue of jobs.
///
/// `J` is the type of a job and `H` the type of a thread handle; the pool
/// moves values of both and looks into neither.
pub struct ThreadPool<J, H> {
    workers: Vec<Worker<H>>,
    queue: WorkQueue<J>,
    joined: usize,
    assigned: Ghost<Seq<nat>>,
}

impl<J, H> View for ThreadPool<J, H> {
    type V = PoolModel<J, H>;

    closed spec fn view(&self) -> PoolModel<J, H> {
        PoolModel {
            queue: self.queue@,
            workers: Seq::new(self.workers@.len(), |i: int| self.workers@[i]@),
            assigned: self.assigned@,
            joined: self.joined as nat,
        }
    }
}

impl<J, H> ThreadPool<J, H> {
    /// Well-formedness: the pool's invariant holds. Every pool that this
    /// module hands out is well formed, and every method keeps it so. No
    /// method asks for it: each does what its contract says on any pool.
    pub open spec fn wf(&self) -> bool {
        self@.inv()
    }

    /// Creates a pool of `size` workers, numbered from 0, all running, around
    /// an open and empty queue. The workers hold no thread handles yet.
    pub fn new(size: usize) -> (pool: Self)
        requires
            size > 0,
        ensures
            pool.wf(),
            pool@ == PoolModel::<J, H>::init(size as nat),
            pool@.size() == size,
            forall|i: int| 0 <= i < size ==> #[trigger] pool@.workers[i] == WorkerModel::<H>::fresh(i as nat),
    {
        let mut workers: Vec<Worker<H>> = Vec::new();
        let mut id: usize = 0;
        while id < size
            invariant
                id <= size,
                workers@.len() == id,
                forall|i: int| 0 <= i < id ==> (#[trigger] workers@[i])@ == WorkerModel::<H>::fresh(i as nat),
            decreases size - id,
        {
            workers.push(Worker::new(id));
            id = id + 1;
        }
        let pool = ThreadPool { workers, queue: WorkQueue::new(), joined: 0, assigned: Ghost(Seq::empty()) };
        assert(pool@.workers =~= PoolModel::<J, H>::init(size as nat).workers);
        pool
    }

    /// Creates a pool as `new` does, or none if `size` is zero: a pool has at
    /// least one worker.
    pub fn try_new(size: usize) -> (pool: Option<Self>)
        ensures
            size == 0 <==> pool is None,
            pool matches Some(pool) ==> pool.wf() && pool@ == PoolModel::<J, H>::init(size as nat),
    {
        if size == 0 {
            None
        } else {
            Some(ThreadPool::new(size))
        }
    }

    /// The number of workers.
    pub fn size(&self) -> (size: usize)
        ensures
            size == self@.size(),
            self.wf() ==> size >= 1,
    {
        self.workers.len()
    }

    /// Whether the pool still holds the sending side of its queue.
    pub fn is_active(&self) -> (active: bool)
        ensures
            active == self@.active(),
    {
        self.queue.is_open()
    }

    /// The number of jobs that wait for a worker.
    pub fn pending(&self) -> (pending: usize)
        ensures
            pending == self@.queue.pending().len(),
    {
        self.queue.len()
    }

    /// Worker `id`, or none if `id` names no worker.
    pub fn worker(&self, id: usize) -> (worker: Option<&Worker<H>>)
        ensures
            id < self@.size() <==> worker is Some,
            worker matches Some(worker) ==> worker@ == self@.workers[id as int],
    {
        if id < self.workers.len() {
            Some(&self.workers[id])
        } else {
            None
        }
    }

    /// Gives worker `id` the handle of its thread. The handle comes back, and
    /// nothing changes, if there is no such worker, if the worker holds a
    /// handle already, or if the shutdown has already visited it.
    pub fn attach(&mut self, id: usize, handle: H) -> (result: Result<(), H>)
        ensures
            old(self).wf() ==> final(self).wf(),
            final(self)@ == old(self)@.attach(id as nat, handle),
            old(self)@.can_attach(id as nat) ==> result == Ok::<(), H>(()),
            !old(self)@.can_attach(id as nat) ==> result == Err::<(), H>(handle),
    {
        if id < self.workers.len() && self.joined <= id {
            let result = self.workers[id].attach(handle);
            assert(self@.workers =~= old(self)@.attach(id as nat, handle).workers);
            result
        } else {
            Err(handle)
        }
    }

    /// Hands `job` to the pool. While the pool is active the job is enqueued
    /// behind all waiting jobs and the call returns at once; after the
    /// shutdown has begun the job comes back and nothing changes.
    pub fn execute(&mut self, job: J) -> (result: Result<(), Rejected<J>>)
        ensures
            old(self).wf() ==> final(self).wf(),
            final(self)@ == old(self)@.execute(job),
            old(self)@.active() ==> result == Ok::<(), Rejected<J>>(()),
            !old(self)@.active() ==> result == Err::<(), Rejected<J>>(Rejected { job })
                && final(self)@ == old(self)@,
    {
        self.queue.submit(job)
    }

    /// One turn of the loop of worker `id`: the worker asks the queue for the
    /// next job. It is handed the oldest waiting job, or told to wait, or,
    /// once the queue is closed and empty, it terminates and is told to exit.
    /// A worker that has terminated, and a number that names no worker, is
    /// told to exit and changes nothing.
    pub fn step(&mut self, id: usize) -> (step: Step<J>)
        ensures
            old(self).wf() ==> final(self).wf(),
            step == old(self)@.reaction(id as nat),
            final(self)@ == old(self)@.step(id as nat),
    {
        if id < self.workers.len() {
            let step = self.workers[id].step(&mut self.queue);
            proof {
                if step is Run {
                    self.assigned@ = self.assigned@.push(id as nat);
                }
            }
            assert(self@.workers =~= old(self)@.step(id as nat).workers);
            step
        } else {
            Step::Exit
        }
    }

    /// The next step of the shutdown. The first call releases the sending
    /// side of the queue; each later call takes the thread handle of the next
    /// worker, in the order of the workers' numbers; once every worker has
    /// been visited, this and every further call changes nothing.
    pub fn shutdown_step(&mut self) -> (action: Shutdown<H>)
        ensures
            old(self).wf() ==> final(self).wf(),
            action == old(self)@.shutdown_action(),
            final(self)@ == old(self)@.shutdown_step(),
    {
        if self.queue.is_open() {
            self.queue.close();
            Shutdown::Wake
        } else if self.joined < self.workers.len() {
            let id: usize = self.joined;
            let thread = self.workers[id].release();
            self.joined = id + 1;
            assert(self@.workers =~= old(self)@.shutdown_step().workers);
            Shutdown::Join { id, thread }
        } else {
            Shutdown::Done
        }
    }

    /// The whole shutdown in one call: releases the sending side of the
    /// queue, then takes the thread handle of every worker not yet visited.
    /// The handles come back in the order of the workers' numbers, which is
    /// the order in which to wait for the threads; the first of them belongs
    /// to the first worker that had not been visited. On a pool that is shut
    /// down already the call changes nothing and returns no handle.
    pub fn shutdown(&mut self) -> (threads: Vec<Option<H>>)
        ensures
            old(self).wf() ==> final(self).wf(),
            final(self)@ == old(self)@.shut_down(),
            threads@ == old(self)@.threads_to_join(),
    {
        let ghost before = self@;
        let mut threads: Vec<Option<H>> = Vec::new();
        if self.queue.is_open() {
            self.queue.close();
        }
        while self.joined < self.workers.len()
            invariant
                self@.queue == before.queue.close(),
                self@.assigned == before.assigned,
                self@.workers.len() == before.workers.len(),
                before.joined <= self@.joined,
                before.joined < before.workers.len() ==> self@.joined <= before.workers.len(),
                before.joined >= before.workers.len() ==> self@.joined == before.joined,
                threads@.len() == self@.joined - before.joined,
                forall|k: int|
                    0 <= k < threads@.len() ==> #[trigger] threads@[k] == before.workers[before.joined
                        + k].thread,
                forall|i: int|
                    0 <= i < before.workers.len() ==> #[trigger] self@.workers[i] == (if before.joined
                        <= i < self@.joined {
                        WorkerModel { thread: None, ..before.workers[i] }
                    } else {
                        before.workers[i]
                    }),
                before.inv() ==> self@.inv(),
            decreases self.workers@.len() - self.joined,
        {
            let ghost visited = self@;
            let id: usize = self.joined;
            let thread = self.workers[id].release();
            self.joined = id + 1;
            threads.push(thread);
            proof {
                assert(visited.workers[id as int] == before.workers[id as int]);
                assert(self@ == visited.shutdown_step()) by {
                    assert(self@.workers =~= visited.shutdown_step().workers);
                }
                assert forall|i: int| 0 <= i < before.workers.len() implies #[trigger] self@.workers[i]
                    == (if before.joined <= i < self@.joined {
                    WorkerModel { thread: None, ..before.workers[i] }
                } else {
                    before.workers[i]
                }) by {
                    if i != id {
                        assert(self@.workers[i] == visited.workers[i]);
                    }
                }
            }
        }
        assert(self@.workers =~= before.shut_down().workers);
        assert(threads@ =~= before.threads_to_join()) by {
            if before.joined < before.workers.len() {
                assert(threads@.len() == before.workers.len() - before.joined);
            } else {
                assert(threads@.len() == 0);
            }
        }
        threads
    }
}

} // verus!
