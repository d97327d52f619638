use vstd::prelude::*;

verus! {

/// Why a pool could not be built.
#[derive(Debug, Clone, Copy, PartialEq, Eq, Structural)]
pub enum PoolCreationError {
    /// A pool needs at least one worker.
    ZeroThreads,
}

impl PoolCreationError {
    /// A short description of the error.
    pub fn message(&self) -> (r: String)
        ensures
            r@ == "error creating pool"@,
    {
        "error creating pool".to_owned()
    }
}

/// Why a job was refused; the job is handed back to the caller.
#[derive(Debug)]
pub enum SubmitError<J> {
    /// The pool has begun shutting down and takes no more jobs.
    ShuttingDown(J),
}

} // verus!
