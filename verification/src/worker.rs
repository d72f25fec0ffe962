//! A worker: the part of the pool that one thread drives.

use crate::queue::{QueueModel, Take, WorkQueue};
use vstd::prelude::*;

verus! {

/// The two states of a worker. A worker never leaves `Terminated`.
#[derive(Clone, Copy, Debug, PartialEq, Eq, Structural)]
pub enum WorkerState {
    /// The worker asks for jobs and runs them.
    Running,
    /// The worker has seen the queue closed and has left its loop.
    Terminated,
}

/// What a worker's thread has to do after it asked for the next job.
#[derive(Debug, PartialEq, Eq)]
pub enum Step<J> {
    /// Let go of the queue, run this job, then ask again.
    Run(J),
    /// Nothing waits yet: sleep until the queue changes, then ask again.
    Wait,
    /// Leave the loop and let the thread end.
    Exit,
}

/// A worker as contracts see it.
pub struct WorkerModel<H> {
    /// The worker's place in its pool.
    pub id: nat,
    pub state: WorkerState,
    /// The handle by which the worker's thread is joined, while the worker
    /// still holds it.
    pub thread: Option<H>,
}

impl<H> WorkerModel<H> {
    /// A running worker without a thread handle.
    pub open spec fn fresh(id: nat) -> Self {
        WorkerModel { id, state: WorkerState::Running, thread: None }
    }

    /// Whether the worker still asks the queue for jobs.
    pub open spec fn running(self) -> bool {
        self.state is Running
    }

    /// What the worker's thread does next, given the queue it asks.
    pub open spec fn reaction<J>(self, queue: QueueModel<J>) -> Step<J> {
        if self.running() {
            match queue.next() {
                Take::Job(job) => Step::Run(job),
                Take::Empty => Step::Wait,
                Take::Closed => Step::Exit,
            }
        } else {
            Step::Exit
        }
    }

    /// The worker after it asked `queue`: it terminates when, and only when,
    /// the queue tells it `Closed`.
    pub open spec fn after_asking<J>(self, queue: QueueModel<J>) -> Self {
        if self.running() && queue.next() is Closed {
            WorkerModel { state: WorkerState::Terminated, ..self }
        } else {
            self
        }
    }

    /// The queue after the worker asked it: a terminated worker does not touch
    /// the queue.
    pub open spec fn queue_after_asking<J>(self, queue: QueueModel<J>) -> QueueModel<J> {
        if self.running() {
            queue.take()
        } else {
            queue
        }
    }
}

/// One worker of a pool: its number, its state, and the handle of its thread.
pub struct Worker<H> {
    id: usize,
    state: WorkerState,
    thread: Option<H>,
}

impl<H> View for Worker<H> {
    type V = WorkerModel<H>;

    closed spec fn view(&self) -> WorkerModel<H> {
        WorkerModel { id: self.id as nat, state: self.state, thread: self.thread }
    }
}

impl<H> Worker<H> {
    /// A running worker with the number `id` and no thread handle yet.
    pub fn new(id: usize) -> (worker: Self)
        ensures
            worker@ == WorkerModel::<H>::fresh(id as nat),
    {
        Worker { id, state: WorkerState::Running, thread: None }
    }

    /// The worker's number.
    pub fn id(&self) -> (id: usize)
        ensures
            id == self@.id,
    {
        self.id
    }

    /// The worker's state.
    pub fn state(&self) -> (state: WorkerState)
        ensures
            state == self@.state,
    {
        self.state
    }

    /// Whether the worker still asks for jobs.
    pub fn is_running(&self) -> (running: bool)
        ensures
            running == self@.running(),
    {
        match self.state {
            WorkerState::Running => true,
            WorkerState::Terminated => false,
        }
    }

    /// Whether the worker holds the handle of its thread.
    pub fn has_thread(&self) -> (held: bool)
        ensures
            held == self@.thread is Some,
    {
        self.thread.is_some()
    }

    /// Gives the worker the handle of its thread. A worker holds at most one
    /// handle: if it has one already, `handle` comes back and nothing changes.
    pub fn attach(&mut self, handle: H) -> (result: Result<(), H>)
        ensures
            old(self)@.thread is None ==> result == Ok::<(), H>(()) && final(self)@ == (WorkerModel {
                thread: Some(handle),
                ..old(self)@
            }),
            old(self)@.thread is Some ==> result == Err::<(), H>(handle) && final(self)@ == old(
                self,
            )@,
    {
        if self.thread.is_some() {
            Err(handle)
        } else {
            self.thread = Some(handle);
            Ok(())
        }
    }

    /// Takes the thread handle out of the worker, leaving none behind.
    pub fn release(&mut self) -> (thread: Option<H>)
        ensures
            thread == old(self)@.thread,
            final(self)@ == (WorkerModel { thread: None, ..old(self)@ }),
    {
        self.thread.take()
    }

    /// One turn of the worker's loop: asks `queue` for the next job and says
    /// what the thread does next. On `Closed` the worker terminates. A
    /// terminated worker leaves the queue alone and is told to exit again.
    pub fn step<J>(&mut self, queue: &mut WorkQueue<J>) -> (step: Step<J>)
        ensures
            step == old(self)@.reaction(old(queue)@),
            final(self)@ == old(self)@.after_asking(old(queue)@),
            final(queue)@ == old(self)@.queue_after_asking(old(queue)@),
    {
        match self.state {
            WorkerState::Terminated => Step::Exit,
            WorkerState::Running => match queue.take() {
                Take::Job(job) => Step::Run(job),
                Take::Empty => Step::Wait,
                Take::Closed => {
                    self.state = WorkerState::Terminated;
                    Step::Exit
                },
            },
        }
    }
}

} // verus!
