use vstd::prelude::*;

verus! {

/// Where a worker is in its life.
#[derive(Debug, Clone, Copy, PartialEq, Eq, Structural)]
pub enum WorkerState {
    /// Blocked on the queue, holding no job.
    Waiting,
    /// Running a job that it took from the queue.
    Running,
    /// Saw the queue closed and empty; it takes no more jobs.
    Terminated,
}

/// The indices `i` with `joined[i] == false`, in increasing order.
pub open spec fn failures(joined: Seq<bool>) -> Seq<usize>
    decreases joined.len(),
{
    if joined.len() == 0 {
        Seq::empty()
    } else {
        let before = failures(joined.drop_last());
        if joined.last() {
            before
        } else {
            before.push((joined.len() - 1) as usize)
        }
    }
}

/// Given, for each worker in order, whether its thread was joined cleanly,
/// the ids of the workers that were not. Every entry is looked at: one
/// failure does not stop the others from being reported.
pub fn failed_workers(joined: &Vec<bool>) -> (r: Vec<usize>)
    ensures
        r@ == failures(joined@),
{
    let mut r: Vec<usize> = Vec::new();
    let mut i: usize = 0;
    while i < joined.len()
        invariant
            i <= joined@.len(),
            r@ == failures(joined@.subrange(0, i as int)),
        decreases joined.len() - i,
    {
        assert(joined@.subrange(0, i + 1).drop_last() =~= joined@.subrange(0, i as int));
        if !joined[i] {
            r.push(i);
        }
        i += 1;
    }
    assert(joined@.subrange(0, joined@.len() as int) =~= joined@);
    r
}

} // verus!
