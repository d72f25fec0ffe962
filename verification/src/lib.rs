//! A small web server's core: a fixed-size pool of workers that share one
//! queue of jobs, and the few rules by which the server reads a request line
//! and writes its answer.
//!
//! The pool is written as a sequential core. The pool, its work queue and its
//! workers are plain values: every step a thread would take (hand in a job,
//! ask for the next job, shut down) is one method call that changes the pool
//! and says what the caller has to do next. A thin shell puts the pool behind
//! a lock, sleeps where a step says `Wait`, runs the jobs and joins the
//! threads.
//!
//! - [`queue`]: the first-in first-out work queue.
//! - [`worker`]: one worker and the loop it drives.
//! - [`pool`]: the pool, its model and its shutdown.
//! - [`laws`]: what holds of every pool, proved from the model.
//! - [`http`]: the request line, the routes and the response text.

pub mod queue;
pub mod worker;
pub mod pool;
pub mod laws;
pub mod http;
