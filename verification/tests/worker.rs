use diy_web_server::queue::WorkQueue;
use diy_web_server::worker::{Step, Worker, WorkerState};

#[test]
fn new_worker_runs_without_thread() {
    let worker: Worker<u8> = Worker::new(3);
    assert_eq!(worker.id(), 3);
    assert_eq!(worker.state(), WorkerState::Running);
    assert!(worker.is_running());
    assert!(!worker.has_thread());
}

#[test]
fn worker_holds_at_most_one_handle() {
    let mut worker: Worker<&str> = Worker::new(0);
    assert_eq!(worker.attach("first"), Ok(()));
    assert!(worker.has_thread());
    assert_eq!(worker.attach("second"), Err("second"));
    assert_eq!(worker.release(), Some("first"));
    assert!(!worker.has_thread());
    assert_eq!(worker.release(), None);
}

#[test]
fn worker_waits_on_open_empty_queue() {
    let mut queue: WorkQueue<u32> = WorkQueue::new();
    let mut worker: Worker<()> = Worker::new(0);
    assert_eq!(worker.step(&mut queue), Step::Wait);
    assert!(worker.is_running());
}

#[test]
fn worker_runs_jobs_then_exits_on_closed_queue() {
    let mut queue: WorkQueue<u32> = WorkQueue::new();
    let mut worker: Worker<()> = Worker::new(0);
    assert_eq!(queue.submit(10), Ok(()));
    assert_eq!(queue.submit(20), Ok(()));
    queue.close();
    assert_eq!(worker.step(&mut queue), Step::Run(10));
    assert!(worker.is_running());
    assert_eq!(worker.step(&mut queue), Step::Run(20));
    assert!(worker.is_running());
    assert_eq!(worker.step(&mut queue), Step::Exit);
    assert_eq!(worker.state(), WorkerState::Terminated);
}

#[test]
fn terminated_worker_leaves_queue_alone() {
    let mut closed: WorkQueue<u32> = WorkQueue::new();
    closed.close();
    let mut worker: Worker<()> = Worker::new(5);
    assert_eq!(worker.step(&mut closed), Step::Exit);
    let mut other: WorkQueue<u32> = WorkQueue::new();
    assert_eq!(other.submit(1), Ok(()));
    assert_eq!(worker.step(&mut other), Step::Exit);
    assert_eq!(other.len(), 1);
    assert_eq!(worker.state(), WorkerState::Terminated);
}
