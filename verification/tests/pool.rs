use diy_web_server::pool::{Shutdown, ThreadPool};
use diy_web_server::queue::Rejected;
use diy_web_server::worker::{Step, WorkerState};

type Pool = ThreadPool<u32, &'static str>;

fn handles() -> Vec<&'static str> {
    vec!["t0", "t1", "t2", "t3", "t4", "t5", "t6", "t7"]
}

fn pool_with_threads(size: usize) -> Pool {
    let mut pool: Pool = ThreadPool::new(size);
    for id in 0..size {
        assert_eq!(pool.attach(id, handles()[id]), Ok(()));
    }
    pool
}

/// Lets the workers take turns, in the order of their numbers, until all have
/// terminated; returns the jobs in the order in which they were handed out,
/// each with the worker that took it.
fn drain(pool: &mut Pool) -> Vec<(usize, u32)> {
    let mut log = Vec::new();
    let mut running = pool.size();
    while running > 0 {
        running = 0;
        for id in 0..pool.size() {
            match pool.step(id) {
                Step::Run(job) => {
                    log.push((id, job));
                    running += 1;
                }
                Step::Wait => panic!("a closed queue never says wait"),
                Step::Exit => {}
            }
        }
    }
    log
}

#[test]
fn new_pool_has_as_many_running_workers_as_asked() {
    for size in [1usize, 2, 4, 17] {
        let pool: Pool = ThreadPool::new(size);
        assert_eq!(pool.size(), size);
        assert!(pool.is_active());
        assert_eq!(pool.pending(), 0);
        for id in 0..size {
            let worker = pool.worker(id).expect("worker exists");
            assert_eq!(worker.id(), id);
            assert_eq!(worker.state(), WorkerState::Running);
            assert!(!worker.has_thread());
        }
        assert!(pool.worker(size).is_none());
    }
}

#[test]
fn pool_of_size_zero_is_refused_every_time() {
    for _ in 0..3 {
        let pool: Option<Pool> = ThreadPool::try_new(0);
        assert!(pool.is_none());
    }
    let pool: Option<Pool> = ThreadPool::try_new(1);
    assert_eq!(pool.expect("one worker is enough").size(), 1);
}

#[test]
fn attach_gives_each_worker_one_handle() {
    let mut pool: Pool = ThreadPool::new(2);
    assert_eq!(pool.attach(1, "b"), Ok(()));
    assert_eq!(pool.attach(1, "again"), Err("again"));
    assert_eq!(pool.attach(2, "nobody"), Err("nobody"));
    assert_eq!(pool.attach(0, "a"), Ok(()));
    assert!(pool.worker(0).expect("worker 0").has_thread());
    assert!(pool.worker(1).expect("worker 1").has_thread());
}

#[test]
fn execute_returns_before_the_job_runs() {
    let mut pool = pool_with_threads(2);
    assert_eq!(pool.execute(41), Ok(()));
    assert_eq!(pool.execute(42), Ok(()));
    assert_eq!(pool.pending(), 2);
    assert!(pool.is_active());
}

#[test]
fn idle_worker_waits_while_pool_is_active() {
    let mut pool = pool_with_threads(3);
    for id in 0..3 {
        assert_eq!(pool.step(id), Step::Wait);
    }
    assert_eq!(pool.execute(9), Ok(()));
    assert_eq!(pool.step(2), Step::Run(9));
    assert_eq!(pool.step(2), Step::Wait);
}

#[test]
fn unknown_worker_is_told_to_exit() {
    let mut pool = pool_with_threads(2);
    assert_eq!(pool.execute(1), Ok(()));
    assert_eq!(pool.step(2), Step::Exit);
    assert_eq!(pool.step(usize::MAX), Step::Exit);
    assert_eq!(pool.pending(), 1);
}

#[test]
fn every_job_runs_once_for_any_number_of_jobs_and_workers() {
    for size in [1usize, 2, 3, 8] {
        for jobs in [0u32, 1, 2, 3, 7, 8, 9, 50] {
            let mut pool = pool_with_threads(size);
            for job in 0..jobs {
                assert_eq!(pool.execute(job), Ok(()));
            }
            assert_eq!(pool.shutdown_step(), Shutdown::Wake);
            let log = drain(&mut pool);
            let ran: Vec<u32> = log.iter().map(|entry| entry.1).collect();
            let expected: Vec<u32> = (0..jobs).collect();
            assert_eq!(ran, expected);
            assert!(log.iter().all(|entry| entry.0 < size));
            assert_eq!(pool.pending(), 0);
            for id in 0..size {
                assert_eq!(pool.worker(id).expect("worker").state(), WorkerState::Terminated);
            }
        }
    }
}

#[test]
fn single_worker_sees_jobs_in_submission_order() {
    let mut pool = pool_with_threads(1);
    let mut seen = Vec::new();
    let mut next = 0u32;
    for round in 0..10u32 {
        for _ in 0..=round % 3 {
            assert_eq!(pool.execute(next), Ok(()));
            next += 1;
        }
        if let Step::Run(job) = pool.step(0) {
            seen.push(job);
        }
    }
    assert_eq!(pool.shutdown_step(), Shutdown::Wake);
    loop {
        match pool.step(0) {
            Step::Run(job) => seen.push(job),
            Step::Wait => panic!("a closed queue never says wait"),
            Step::Exit => break,
        }
    }
    let expected: Vec<u32> = (0..next).collect();
    assert_eq!(seen, expected);
    assert!(seen.windows(2).all(|pair| pair[0] <= pair[1]));
}

#[test]
fn several_workers_take_jobs_in_submission_order() {
    let mut pool = pool_with_threads(3);
    for job in 100..106u32 {
        assert_eq!(pool.execute(job), Ok(()));
    }
    assert_eq!(pool.step(2), Step::Run(100));
    assert_eq!(pool.step(0), Step::Run(101));
    assert_eq!(pool.step(2), Step::Run(102));
    assert_eq!(pool.step(1), Step::Run(103));
    assert_eq!(pool.step(1), Step::Run(104));
    assert_eq!(pool.step(0), Step::Run(105));
    assert_eq!(pool.step(0), Step::Wait);
}

#[test]
fn shutdown_of_idle_pool_takes_size_plus_one_steps() {
    let mut pool = pool_with_threads(4);
    assert_eq!(pool.shutdown_step(), Shutdown::Wake);
    assert!(!pool.is_active());
    for id in 0..4 {
        assert_eq!(pool.step(id), Step::Exit);
    }
    assert_eq!(pool.shutdown_step(), Shutdown::Join { id: 0, thread: Some("t0") });
    assert_eq!(pool.shutdown_step(), Shutdown::Join { id: 1, thread: Some("t1") });
    assert_eq!(pool.shutdown_step(), Shutdown::Join { id: 2, thread: Some("t2") });
    assert_eq!(pool.shutdown_step(), Shutdown::Join { id: 3, thread: Some("t3") });
    assert_eq!(pool.shutdown_step(), Shutdown::Done);
    for id in 0..4 {
        let worker = pool.worker(id).expect("worker");
        assert!(!worker.has_thread());
        assert_eq!(worker.state(), WorkerState::Terminated);
    }
}

#[test]
fn shutdown_releases_sender_before_any_join() {
    let mut pool = pool_with_threads(2);
    assert!(pool.is_active());
    assert_eq!(pool.shutdown_step(), Shutdown::Wake);
    assert!(!pool.is_active());
    assert!(pool.worker(0).expect("worker 0").has_thread());
    assert!(pool.worker(1).expect("worker 1").has_thread());
}

#[test]
fn shutdown_with_pending_jobs_runs_them_all() {
    let mut pool = pool_with_threads(2);
    for job in 1..=5u32 {
        assert_eq!(pool.execute(job), Ok(()));
    }
    assert_eq!(pool.step(0), Step::Run(1));
    assert_eq!(pool.shutdown_step(), Shutdown::Wake);
    assert_eq!(pool.pending(), 4);
    assert_eq!(pool.step(1), Step::Run(2));
    assert_eq!(pool.step(0), Step::Run(3));
    assert_eq!(pool.step(0), Step::Run(4));
    assert_eq!(pool.step(1), Step::Run(5));
    assert_eq!(pool.step(1), Step::Exit);
    assert_eq!(pool.step(0), Step::Exit);
    assert_eq!(pool.shutdown_step(), Shutdown::Join { id: 0, thread: Some("t0") });
    assert_eq!(pool.shutdown_step(), Shutdown::Join { id: 1, thread: Some("t1") });
    assert_eq!(pool.shutdown_step(), Shutdown::Done);
}

#[test]
fn shutdown_twice_is_a_no_op() {
    let mut pool = pool_with_threads(1);
    assert_eq!(pool.shutdown_step(), Shutdown::Wake);
    assert_eq!(pool.shutdown_step(), Shutdown::Join { id: 0, thread: Some("t0") });
    for _ in 0..3 {
        assert_eq!(pool.shutdown_step(), Shutdown::Done);
        assert!(!pool.is_active());
        assert!(!pool.worker(0).expect("worker").has_thread());
    }
}

#[test]
fn shutdown_visits_worker_without_handle() {
    let mut pool: Pool = ThreadPool::new(3);
    assert_eq!(pool.attach(1, "only"), Ok(()));
    assert_eq!(pool.shutdown_step(), Shutdown::Wake);
    assert_eq!(pool.shutdown_step(), Shutdown::Join { id: 0, thread: None });
    assert_eq!(pool.attach(0, "late"), Err("late"));
    assert_eq!(pool.attach(2, "in time"), Ok(()));
    assert_eq!(pool.shutdown_step(), Shutdown::Join { id: 1, thread: Some("only") });
    assert_eq!(pool.shutdown_step(), Shutdown::Join { id: 2, thread: Some("in time") });
    assert_eq!(pool.shutdown_step(), Shutdown::Done);
}

#[test]
fn execute_after_shutdown_hands_the_job_back() {
    let mut pool = pool_with_threads(2);
    assert_eq!(pool.execute(1), Ok(()));
    assert_eq!(pool.shutdown_step(), Shutdown::Wake);
    assert_eq!(pool.execute(2), Err(Rejected { job: 2 }));
    assert_eq!(pool.pending(), 1);
    assert_eq!(pool.step(0), Step::Run(1));
    assert_eq!(pool.step(0), Step::Exit);
    assert_eq!(pool.step(1), Step::Exit);
    assert_eq!(pool.shutdown_step(), Shutdown::Join { id: 0, thread: Some("t0") });
    assert_eq!(pool.execute(3), Err(Rejected { job: 3 }));
    assert_eq!(pool.shutdown_step(), Shutdown::Join { id: 1, thread: Some("t1") });
    assert_eq!(pool.shutdown_step(), Shutdown::Done);
    assert_eq!(pool.execute(4), Err(Rejected { job: 4 }));
    assert_eq!(pool.pending(), 0);
}

#[test]
fn two_submissions_in_either_order_are_both_handed_out_once() {
    for order in [[7u32, 8], [8, 7]] {
        let mut pool = pool_with_threads(2);
        assert_eq!(pool.execute(order[0]), Ok(()));
        assert_eq!(pool.execute(order[1]), Ok(()));
        assert_eq!(pool.shutdown_step(), Shutdown::Wake);
        let log = drain(&mut pool);
        assert_eq!(log, vec![(0, order[0]), (1, order[1])]);
    }
}

#[test]
fn whole_shutdown_releases_sender_and_returns_handles_in_order() {
    let mut pool = pool_with_threads(3);
    assert_eq!(pool.execute(1), Ok(()));
    assert_eq!(pool.shutdown(), vec![Some("t0"), Some("t1"), Some("t2")]);
    assert!(!pool.is_active());
    assert_eq!(pool.pending(), 1);
    for id in 0..3 {
        assert!(!pool.worker(id).expect("worker").has_thread());
        assert_eq!(pool.worker(id).expect("worker").state(), WorkerState::Running);
    }
    assert_eq!(pool.step(2), Step::Run(1));
    assert_eq!(pool.step(2), Step::Exit);
    assert_eq!(pool.shutdown_step(), Shutdown::Done);
}

#[test]
fn whole_shutdown_twice_is_a_no_op() {
    let mut pool = pool_with_threads(2);
    assert_eq!(pool.shutdown(), vec![Some("t0"), Some("t1")]);
    assert_eq!(pool.shutdown(), Vec::<Option<&str>>::new());
    assert_eq!(pool.shutdown(), Vec::<Option<&str>>::new());
    assert!(!pool.is_active());
    assert_eq!(pool.execute(3), Err(Rejected { job: 3 }));
}

#[test]
fn whole_shutdown_finishes_what_steps_began() {
    let mut pool: Pool = ThreadPool::new(4);
    assert_eq!(pool.attach(0, "a"), Ok(()));
    assert_eq!(pool.attach(2, "c"), Ok(()));
    assert_eq!(pool.attach(3, "d"), Ok(()));
    assert_eq!(pool.shutdown_step(), Shutdown::Wake);
    assert_eq!(pool.shutdown_step(), Shutdown::Join { id: 0, thread: Some("a") });
    assert_eq!(pool.shutdown(), vec![None, Some("c"), Some("d")]);
    assert_eq!(pool.shutdown_step(), Shutdown::Done);
}
