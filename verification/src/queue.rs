//! The work queue: an unbounded first-in first-out channel of jobs with a
//! sending side that can be released once.

use std::collections::VecDeque;
use vstd::prelude::*;

verus! {

/// What a queue has done so far, and whether its sending side is still held.
///
/// The queue is described by its history: `accepted` lists every job that was
/// ever enqueued, oldest first, and the first `taken` of them have been handed
/// out. Nothing else has happened to any job.
pub struct QueueModel<J> {
    /// The sending side has not been released.
    pub open: bool,
    /// Every job ever enqueued, in the order of submission.
    pub accepted: Seq<J>,
    /// How many jobs have been handed out.
    pub taken: nat,
}

/// The outcome of asking a queue for its next job.
#[derive(Debug, PartialEq, Eq)]
pub enum Take<J> {
    /// The oldest waiting job.
    Job(J),
    /// Nothing waits and the sending side is released: nothing will ever come.
    Closed,
    /// Nothing waits, but the sending side is held: a job may still come.
    Empty,
}

/// A job that a closed queue handed back instead of enqueuing it.
#[derive(Debug, PartialEq, Eq)]
pub struct Rejected<J> {
    pub job: J,
}

impl<J> QueueModel<J> {
    /// A new queue: open, and nothing has happened.
    pub open spec fn fresh() -> Self {
        QueueModel { open: true, accepted: Seq::empty(), taken: 0 }
    }

    /// No more jobs were handed out than were enqueued.
    pub open spec fn wf(self) -> bool {
        self.taken <= self.accepted.len()
    }

    /// The jobs that wait, oldest first.
    pub open spec fn pending(self) -> Seq<J> {
        self.accepted.skip(self.taken as int)
    }

    /// The jobs that were handed out, in the order in which they left.
    pub open spec fn delivered(self) -> Seq<J> {
        self.accepted.take(self.taken as int)
    }

    /// Nothing waits and nothing will come.
    pub open spec fn closed(self) -> bool {
        !self.open && self.taken == self.accepted.len()
    }

    /// The queue after `job` was offered to it.
    pub open spec fn submit(self, job: J) -> Self {
        if self.open {
            QueueModel { accepted: self.accepted.push(job), ..self }
        } else {
            self
        }
    }

    /// What the next `take` returns.
    pub open spec fn next(self) -> Take<J> {
        if self.taken < self.accepted.len() {
            Take::Job(self.accepted[self.taken as int])
        } else if self.open {
            Take::Empty
        } else {
            Take::Closed
        }
    }

    /// The queue after one `take`.
    pub open spec fn take(self) -> Self {
        if self.taken < self.accepted.len() {
            QueueModel { taken: self.taken + 1, ..self }
        } else {
            self
        }
    }

    /// The queue after its sending side was released.
    pub open spec fn close(self) -> Self {
        QueueModel { open: false, ..self }
    }
}

/// A first-in first-out queue of jobs.
pub struct WorkQueue<J> {
    pending: VecDeque<J>,
    open: bool,
    delivered: Ghost<Seq<J>>,
}

impl<J> View for WorkQueue<J> {
    type V = QueueModel<J>;

    closed spec fn view(&self) -> QueueModel<J> {
        QueueModel {
            open: self.open,
            accepted: self.delivered@ + self.pending@,
            taken: self.delivered@.len(),
        }
    }
}

impl<J> WorkQueue<J> {
    /// An open queue with no job in it.
    pub fn new() -> (queue: Self)
        ensures
            queue@ == QueueModel::<J>::fresh(),
    {
        let queue = WorkQueue { pending: VecDeque::new(), open: true, delivered: Ghost(Seq::empty()) };
        assert(queue@.accepted =~= Seq::<J>::empty());
        queue
    }

    /// Enqueues `job` behind all waiting jobs, or hands it back if the sending
    /// side has been released.
    pub fn submit(&mut self, job: J) -> (result: Result<(), Rejected<J>>)
        ensures
            final(self)@ == old(self)@.submit(job),
            final(self)@.wf(),
            old(self)@.open ==> result == Ok::<(), Rejected<J>>(()),
            !old(self)@.open ==> result == Err::<(), Rejected<J>>(Rejected { job }),
    {
        if self.open {
            self.pending.push_back(job);
            assert(self@.accepted =~= old(self)@.accepted.push(job));
            Ok(())
        } else {
            Err(Rejected { job })
        }
    }

    /// Hands out the oldest waiting job, if there is one; otherwise says
    /// whether one may still come.
    pub fn take(&mut self) -> (taken: Take<J>)
        ensures
            taken == old(self)@.next(),
            final(self)@ == old(self)@.take(),
            final(self)@.wf(),
    {
        match self.pending.pop_front() {
            Some(job) => {
                proof {
                    self.delivered@ = self.delivered@.push(job);
                }
                assert(self@.accepted =~= old(self)@.accepted);
                Take::Job(job)
            },
            None => {
                assert(old(self)@.accepted =~= old(self).delivered@);
                if self.open {
                    Take::Empty
                } else {
                    Take::Closed
                }
            },
        }
    }

    /// Releases the sending side. Jobs that wait stay in the queue.
    pub fn close(&mut self)
        ensures
            final(self)@ == old(self)@.close(),
            final(self)@.wf(),
    {
        self.open = false;
    }

    /// No queue has handed out more jobs than it accepted.
    pub proof fn lemma_wf(&self)
        ensures
            self@.wf(),
    {
    }

    /// Whether the sending side is still held.
    pub fn is_open(&self) -> (open: bool)
        ensures
            open == self@.open,
    {
        self.open
    }

    /// The number of jobs that wait.
    pub fn len(&self) -> (len: usize)
        ensures
            len == self@.pending().len(),
            self@.wf(),
    {
        assert(self@.pending() =~= self.pending@);
        self.pending.len()
    }
}

} // verus!
