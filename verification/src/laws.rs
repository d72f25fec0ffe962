//! What holds of every pool, whatever is done to it.
//!
//! The operations of a pool are collected in [`Op`]; [`run`] applies a whole
//! sequence of them. The first lemmas show that the pool's invariant holds in
//! every state that can be reached; the others draw from it what a user of
//! the pool relies on.

use crate::pool::{count_running, PoolModel, Shutdown};
use crate::queue::{QueueModel, Take};
use crate::worker::{Step, WorkerModel};
use vstd::prelude::*;

verus! {

/// One call on a pool.
pub enum Op<J, H> {
    /// A thread handle is offered to worker `id`.
    Attach { id: nat, handle: H },
    /// A job is handed in.
    Execute { job: J },
    /// Worker `id` asks for its next job.
    Step { id: nat },
    /// The owner takes the next step of the shutdown.
    Shutdown,
}

/// The pool after one operation.
pub open spec fn apply<J, H>(pool: PoolModel<J, H>, op: Op<J, H>) -> PoolModel<J, H> {
    match op {
        Op::Attach { id, handle } => pool.attach(id, handle),
        Op::Execute { job } => pool.execute(job),
        Op::Step { id } => pool.step(id),
        Op::Shutdown => pool.shutdown_step(),
    }
}

/// The pool after a sequence of operations, the first one first.
pub open spec fn run<J, H>(pool: PoolModel<J, H>, ops: Seq<Op<J, H>>) -> PoolModel<J, H>
    decreases ops.len(),
{
    if ops.len() == 0 {
        pool
    } else {
        apply(run(pool, ops.drop_last()), ops.last())
    }
}

/// The pool after `n` steps of the shutdown.
pub open spec fn shutdown_run<J, H>(pool: PoolModel<J, H>, n: nat) -> PoolModel<J, H>
    decreases n,
{
    if n == 0 {
        pool
    } else {
        shutdown_run(pool.shutdown_step(), (n - 1) as nat)
    }
}

/// The jobs that a sequence of operations hands in, in order.
pub open spec fn submitted<J, H>(ops: Seq<Op<J, H>>) -> Seq<J>
    decreases ops.len(),
{
    if ops.len() == 0 {
        Seq::empty()
    } else {
        match ops.last() {
            Op::Execute { job } => submitted(ops.drop_last()).push(job),
            _ => submitted(ops.drop_last()),
        }
    }
}

/// The operations that hand in `jobs`, one after the other.
pub open spec fn submissions<J, H>(jobs: Seq<J>) -> Seq<Op<J, H>> {
    Seq::new(jobs.len(), |k: int| Op::Execute { job: jobs[k] })
}

/// A new pool of `size >= 1` workers has exactly `size` workers, numbered
/// from 0, all of them running; its queue is open and empty; and the
/// invariant holds of it.
pub proof fn lemma_new_pool<J, H>(size: nat)
    requires
        1 <= size <= usize::MAX,
    ensures
        PoolModel::<J, H>::init(size).inv(),
        PoolModel::<J, H>::init(size).size() == size,
        PoolModel::<J, H>::init(size).active(),
        PoolModel::<J, H>::init(size).queue.accepted.len() == 0,
        forall|i: int|
            0 <= i < size ==> {
                let worker = #[trigger] PoolModel::<J, H>::init(size).workers[i];
                worker.id == i && worker.running()
            },
{
}

/// No operation breaks the invariant, and none changes the number of workers.
pub proof fn lemma_inv_preserved<J, H>(pool: PoolModel<J, H>, op: Op<J, H>)
    requires
        pool.inv(),
    ensures
        apply(pool, op).inv(),
        apply(pool, op).size() == pool.size(),
{
}

/// No sequence of operations breaks the invariant or changes the number of
/// workers.
pub proof fn lemma_run_inv<J, H>(pool: PoolModel<J, H>, ops: Seq<Op<J, H>>)
    requires
        pool.inv(),
    ensures
        run(pool, ops).inv(),
        run(pool, ops).size() == pool.size(),
    decreases ops.len(),
{
    if ops.len() > 0 {
        lemma_run_inv(pool, ops.drop_last());
        lemma_inv_preserved(run(pool, ops.drop_last()), ops.last());
    }
}

/// The invariant holds in every state that a new pool can reach, and the
/// pool keeps the size it was made with.
pub proof fn lemma_reachable_inv<J, H>(size: nat, ops: Seq<Op<J, H>>)
    requires
        1 <= size <= usize::MAX,
    ensures
        run(PoolModel::<J, H>::init(size), ops).inv(),
        run(PoolModel::<J, H>::init(size), ops).size() == size,
{
    lemma_new_pool::<J, H>(size);
    lemma_run_inv(PoolModel::<J, H>::init(size), ops);
}

/// At all times every job that was accepted is in exactly one place: the
/// jobs handed out, followed by the jobs that wait, are the accepted jobs in
/// the order of their submission. No job is lost and none is handed out twice.
pub proof fn lemma_no_job_lost_or_repeated<J, H>(pool: PoolModel<J, H>)
    requires
        pool.inv(),
    ensures
        pool.queue.delivered() + pool.queue.pending() == pool.queue.accepted,
        pool.queue.delivered().len() == pool.assigned.len(),
        forall|k: int|
            0 <= k < pool.queue.taken ==> #[trigger] pool.queue.delivered()[k]
                == pool.queue.accepted[k] && pool.assigned[k] < pool.size(),
        forall|k: int|
            pool.queue.taken <= k < pool.queue.accepted.len() ==> #[trigger] pool.queue.accepted[k]
                == pool.queue.pending()[k - pool.queue.taken],
{
}

/// Once the workers have terminated, every job that was ever accepted has
/// been handed out, each to one worker, and nothing waits. This holds for any
/// number of workers and any number of jobs.
pub proof fn lemma_all_jobs_handed_out<J, H>(pool: PoolModel<J, H>)
    requires
        pool.inv(),
        pool.all_terminated(),
    ensures
        pool.queue.delivered() == pool.queue.accepted,
        pool.queue.pending().len() == 0,
        pool.assigned.len() == pool.queue.accepted.len(),
{
    assert(!pool.workers[0].running());
}

/// Jobs leave the queue in the order in which they came: of two accepted
/// jobs, the later one is handed out only after the earlier one.
pub proof fn lemma_fifo<J>(queue: QueueModel<J>, earlier: int, later: int)
    requires
        queue.wf(),
        0 <= earlier < later < queue.accepted.len(),
        later < queue.taken,
    ensures
        earlier < queue.taken,
        queue.delivered()[earlier] == queue.accepted[earlier],
        queue.delivered()[later] == queue.accepted[later],
{
}

/// The job that a queue hands out next is the oldest one that waits, and
/// after it the second oldest becomes the oldest.
pub proof fn lemma_take_oldest<J>(queue: QueueModel<J>)
    requires
        queue.wf(),
        queue.pending().len() > 0,
    ensures
        queue.next() == Take::Job(queue.pending()[0]),
        queue.take().pending() == queue.pending().drop_first(),
        queue.take().delivered() == queue.delivered().push(queue.pending()[0]),
        queue.take().accepted == queue.accepted,
{
}

/// Releasing the sending side drops no job: what was accepted stays
/// accepted, and what waits keeps waiting in the same order.
pub proof fn lemma_close_keeps_jobs<J, H>(pool: PoolModel<J, H>)
    requires
        pool.inv(),
        pool.active(),
    ensures
        pool.shutdown_action() == Shutdown::<H>::Wake,
        !pool.shutdown_step().active(),
        pool.shutdown_step().queue.accepted == pool.queue.accepted,
        pool.shutdown_step().queue.pending() == pool.queue.pending(),
        pool.shutdown_step().workers == pool.workers,
{
}

/// While a job waits, a running worker that asks is handed the oldest one,
/// whether or not the sending side has been released.
pub proof fn lemma_waiting_job_is_handed_out<J, H>(pool: PoolModel<J, H>, id: nat)
    requires
        pool.inv(),
        id < pool.size(),
        pool.workers[id as int].running(),
        pool.queue.pending().len() > 0,
    ensures
        pool.reaction(id) == Step::Run(pool.queue.pending()[0]),
        pool.step(id).workers[id as int].running(),
        pool.step(id).assigned == pool.assigned.push(id),
{
}

/// A worker terminates only when the sending side has been released and no
/// job waits, and then it always does.
pub proof fn lemma_worker_stops_iff_closed<J, H>(pool: PoolModel<J, H>, id: nat)
    requires
        pool.inv(),
        id < pool.size(),
        pool.workers[id as int].running(),
    ensures
        !pool.step(id).workers[id as int].running() <==> pool.queue.closed(),
        pool.reaction(id) is Exit <==> pool.queue.closed(),
        pool.reaction(id) is Wait <==> pool.active() && pool.queue.pending().len() == 0,
{
}

/// A pool that has begun to shut down never becomes active again and
/// accepts nothing more, whatever is done to it.
pub proof fn lemma_shutdown_is_final<J, H>(pool: PoolModel<J, H>, ops: Seq<Op<J, H>>)
    requires
        pool.inv(),
        !pool.active(),
    ensures
        !run(pool, ops).active(),
        run(pool, ops).queue.accepted == pool.queue.accepted,
    decreases ops.len(),
{
    if ops.len() > 0 {
        lemma_shutdown_is_final(pool, ops.drop_last());
    }
}

/// A job offered to a pool that has begun to shut down leaves no trace: the
/// pool is as it was before the call.
pub proof fn lemma_closed_pool_rejects<J, H>(pool: PoolModel<J, H>, job: J)
    requires
        !pool.active(),
    ensures
        pool.execute(job) == pool,
{
}

/// Two jobs offered to an active pool are both accepted, each exactly once,
/// in whichever order the two calls take effect; what was accepted before
/// stays in front of them.
pub proof fn lemma_two_submissions<J, H>(pool: PoolModel<J, H>, a: J, b: J)
    requires
        pool.inv(),
        pool.active(),
    ensures
        pool.execute(a).execute(b).queue.accepted == pool.queue.accepted + seq![a, b],
        pool.execute(b).execute(a).queue.accepted == pool.queue.accepted + seq![b, a],
        pool.execute(a).execute(b).queue.pending() == pool.queue.pending() + seq![a, b],
        pool.execute(b).execute(a).queue.pending() == pool.queue.pending() + seq![b, a],
        pool.execute(a).execute(b).active(),
        pool.execute(b).execute(a).active(),
{
}

/// The shutdown takes as many steps as it says: for a pool of `n` workers
/// that is still active, one step to release the sending side and `n` steps
/// to visit the workers. After that it reports `Done`, no worker holds a
/// thread handle, and further steps change nothing. The steps together do
/// what the whole shutdown does in one call.
pub proof fn lemma_shutdown_completes<J, H>(pool: PoolModel<J, H>)
    requires
        pool.inv(),
    ensures
        pool.shutdown_steps_left() <= pool.size() + 1,
        pool.active() ==> pool.shutdown_steps_left() == pool.size() + 1,
        shutdown_run(pool, pool.shutdown_steps_left()) == pool.shut_down(),
        pool.shut_down().inv(),
        pool.shut_down().shutdown_action() == Shutdown::<H>::Done,
        pool.shut_down().shutdown_step() == pool.shut_down(),
        !pool.shut_down().active(),
        pool.shut_down().joined == pool.size(),
        pool.shut_down().no_thread_held(),
        pool.shut_down().queue.accepted == pool.queue.accepted,
        pool.shut_down().queue.taken == pool.queue.taken,
    decreases pool.shutdown_steps_left(),
{
    if pool.shutdown_steps_left() > 0 {
        let next = pool.shutdown_step();
        lemma_shutdown_completes(next);
        assert(next.shut_down().workers =~= pool.shut_down().workers);
        assert(next.shut_down() == pool.shut_down());
    } else {
        assert(pool.shut_down().workers =~= pool.workers);
        assert(pool.shut_down() == pool);
    }
}

/// Shutting down twice is shutting down once: the second shutdown changes
/// nothing and finds no thread to wait for.
pub proof fn lemma_shutdown_idempotent<J, H>(pool: PoolModel<J, H>)
    requires
        pool.inv(),
    ensures
        pool.shut_down().shut_down() == pool.shut_down(),
        pool.shut_down().threads_to_join().len() == 0,
        pool.active() ==> pool.threads_to_join().len() == pool.size(),
        forall|k: int|
            0 <= k < pool.threads_to_join().len() ==> #[trigger] pool.threads_to_join()[k]
                == pool.workers[pool.joined + k].thread,
{
    assert(pool.shut_down().shut_down().workers =~= pool.shut_down().workers);
}

/// The workers are visited in the order of their numbers, each once: the
/// step that follows the visit of worker `id` visits worker `id + 1`, and the
/// handle that a visit hands over is the one the worker held.
pub proof fn lemma_join_order<J, H>(pool: PoolModel<J, H>)
    requires
        pool.inv(),
        !pool.active(),
        pool.joined < pool.size(),
    ensures
        pool.shutdown_action() == (Shutdown::Join {
            id: pool.joined as usize,
            thread: pool.workers[pool.joined as int].thread,
        }),
        pool.shutdown_step().joined == pool.joined + 1,
        pool.shutdown_step().workers[pool.joined as int].thread is None,
        !pool.shutdown_step().can_attach(pool.joined),
        forall|i: int|
            0 <= i < pool.size() && i != pool.joined ==> #[trigger] pool.shutdown_step().workers[i]
                == pool.workers[i],
{
}

/// Replacing one worker changes the number of running workers by that
/// worker alone.
proof fn lemma_count_running_update<H>(
    workers: Seq<WorkerModel<H>>,
    i: int,
    worker: WorkerModel<H>,
)
    requires
        0 <= i < workers.len(),
    ensures
        count_running(workers.update(i, worker)) + (if workers[i].running() {
            1nat
        } else {
            0nat
        }) == count_running(workers) + (if worker.running() {
            1nat
        } else {
            0nat
        }),
    decreases workers.len(),
{
    let updated = workers.update(i, worker);
    if i == workers.len() - 1 {
        assert(updated.drop_last() =~= workers.drop_last());
    } else {
        assert(updated.drop_last() =~= workers.drop_last().update(i, worker));
        lemma_count_running_update(workers.drop_last(), i, worker);
    }
}

/// No worker runs exactly when every worker has terminated.
proof fn lemma_count_running_zero<H>(workers: Seq<WorkerModel<H>>)
    ensures
        count_running(workers) == 0 <==> forall|i: int|
            0 <= i < workers.len() ==> !(#[trigger] workers[i]).running(),
    decreases workers.len(),
{
    if workers.len() > 0 {
        lemma_count_running_zero(workers.drop_last());
        let front = workers.drop_last();
        if count_running(workers) == 0 {
            assert forall|i: int| 0 <= i < workers.len() implies !(#[trigger] workers[i]).running() by {
                if i < front.len() {
                    assert(front[i] == workers[i]);
                }
            }
        } else if !workers.last().running() {
            let i = choose|i: int| 0 <= i < front.len() && (#[trigger] front[i]).running();
            assert(workers[i].running());
        }
    }
}

/// After the sending side is released, every turn of a running worker does
/// one unit of the work that is left: it takes a waiting job, or, when none
/// waits, it terminates. So the pool comes to rest after exactly as many such
/// turns as jobs wait and workers run; with no job waiting, after one turn of
/// each worker.
pub proof fn lemma_wind_down<J, H>(pool: PoolModel<J, H>, id: nat)
    requires
        pool.inv(),
        !pool.active(),
        id < pool.size(),
        pool.workers[id as int].running(),
    ensures
        pool.step(id).work_left() + 1 == pool.work_left(),
        pool.running_count() <= pool.size(),
{
    lemma_count_running_update(
        pool.workers,
        id as int,
        pool.workers[id as int].after_asking(pool.queue),
    );
    lemma_count_running_bound(pool.workers);
}

/// There are no more running workers than workers.
proof fn lemma_count_running_bound<H>(workers: Seq<WorkerModel<H>>)
    ensures
        count_running(workers) <= workers.len(),
    decreases workers.len(),
{
    if workers.len() > 0 {
        lemma_count_running_bound(workers.drop_last());
    }
}

/// When no work is left, the pool is at rest: every worker has terminated,
/// nothing waits, and every accepted job has been handed out. Until then some
/// worker still runs.
pub proof fn lemma_rest<J, H>(pool: PoolModel<J, H>)
    requires
        pool.inv(),
    ensures
        pool.work_left() == 0 <==> pool.all_terminated(),
        pool.all_terminated() ==> pool.queue.delivered() == pool.queue.accepted,
{
    lemma_count_running_zero(pool.workers);
    if pool.all_terminated() {
        lemma_all_jobs_handed_out(pool);
    }
}

/// The sending side is released before any worker is waited for: while the
/// pool is active the shutdown has visited no worker, and its next step is to
/// release the sending side, not to join.
pub proof fn lemma_release_before_join<J, H>(pool: PoolModel<J, H>)
    requires
        pool.inv(),
    ensures
        pool.active() ==> pool.joined == 0 && pool.shutdown_action() == Shutdown::<H>::Wake,
        pool.shutdown_action() is Join ==> !pool.active(),
        pool.joined > 0 ==> !pool.active(),
{
}

/// While the pool is active, a worker that finds no job is told to wait and
/// stays running: waiting for its thread before the sending side is released
/// would never end. After the release no worker is told to wait.
pub proof fn lemma_wait_only_while_active<J, H>(pool: PoolModel<J, H>, id: nat)
    requires
        pool.inv(),
        id < pool.size(),
    ensures
        pool.reaction(id) is Wait ==> pool.active() && pool.step(id) == pool,
        !pool.active() ==> !(pool.reaction(id) is Wait),
        pool.active() ==> pool.workers[id as int].running() && pool.step(id).workers[id as int].running(),
{
    assert(pool.reaction(id) is Wait ==> pool.step(id).workers =~= pool.workers);
}

/// As long as the pool is active in the end, it has accepted every job that
/// was handed in, in the order of the calls.
pub proof fn lemma_active_pool_accepts<J, H>(pool: PoolModel<J, H>, ops: Seq<Op<J, H>>)
    requires
        pool.inv(),
        run(pool, ops).active(),
    ensures
        pool.active(),
        run(pool, ops).queue.accepted == pool.queue.accepted + submitted(ops),
    decreases ops.len(),
{
    if ops.len() > 0 {
        lemma_active_pool_accepts(pool, ops.drop_last());
    }
}

/// Handing in `jobs` one after the other is accepted job by job.
proof fn lemma_submissions<J, H>(jobs: Seq<J>)
    ensures
        submitted(submissions::<J, H>(jobs)) == jobs,
    decreases jobs.len(),
{
    let ops = submissions::<J, H>(jobs);
    if jobs.len() > 0 {
        assert(ops.drop_last() =~= submissions::<J, H>(jobs.drop_last()));
        lemma_submissions::<J, H>(jobs.drop_last());
        assert(jobs.drop_last().push(jobs.last()) =~= jobs);
    } else {
        assert(submitted(ops) =~= jobs);
    }
}

/// An active pool stays active under calls that hand in jobs.
proof fn lemma_submissions_keep_active<J, H>(pool: PoolModel<J, H>, jobs: Seq<J>)
    requires
        pool.active(),
    ensures
        run(pool, submissions::<J, H>(jobs)).active(),
    decreases jobs.len(),
{
    let ops = submissions::<J, H>(jobs);
    if jobs.len() > 0 {
        assert(ops.drop_last() =~= submissions::<J, H>(jobs.drop_last()));
        lemma_submissions_keep_active(pool, jobs.drop_last());
    }
}

/// Any number of jobs handed to a new pool of any size have all been handed
/// to workers, each once and in the order of submission, by the time the
/// workers have terminated: whatever the workers and the owner do after the
/// shutdown has begun, if it ends with every worker terminated, then the jobs
/// handed out are exactly the jobs handed in. A worker runs each job it is
/// handed before it asks again, so by then every job has run.
pub proof fn lemma_submitted_jobs_all_handed_out<J, H>(size: nat, jobs: Seq<J>, later: Seq<Op<J, H>>)
    requires
        1 <= size <= usize::MAX,
        run(
            run(PoolModel::<J, H>::init(size), submissions(jobs)).shutdown_step(),
            later,
        ).all_terminated(),
    ensures
        run(
            run(PoolModel::<J, H>::init(size), submissions(jobs)).shutdown_step(),
            later,
        ).queue.delivered() == jobs,
{
    let fresh = PoolModel::<J, H>::init(size);
    let loaded = run(fresh, submissions(jobs));
    let closing = loaded.shutdown_step();
    let end = run(closing, later);
    lemma_new_pool::<J, H>(size);
    lemma_run_inv(fresh, submissions(jobs));
    lemma_submissions_keep_active(fresh, jobs);
    lemma_active_pool_accepts(fresh, submissions(jobs));
    lemma_submissions::<J, H>(jobs);
    assert(loaded.queue.accepted =~= jobs);
    lemma_inv_preserved(loaded, Op::Shutdown);
    lemma_run_inv(closing, later);
    lemma_shutdown_is_final(closing, later);
    lemma_all_jobs_handed_out(end);
}

} // verus!
