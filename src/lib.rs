//! A fixed-size worker pool, as a verified state machine.
//!
//! The pool owns an ordered queue of jobs and the state of each of its
//! workers. The threads that run the jobs live outside this library: each
//! of them asks the pool for its next job, runs it with the pool unlocked,
//! and reports back when it is done.

mod error;
mod http;
mod pool;
mod worker;

pub use error::{PoolCreationError, SubmitError};
pub use http::{
    handle_request, response_for_tokens, same_text, BAD_REQUEST_RESPONSE, NOT_FOUND_RESPONSE,
    OK_RESPONSE,
};
pub use pool::{running_count, Dequeue, ThreadPool};
pub use worker::{failed_workers, WorkerState};
