//! The messages that travel from submitters to workers.

use vstd::prelude::*;

verus! {

/// What travels through the dispatch channel. `J` is the job: the pool never
/// looks inside it.
#[derive(Debug, PartialEq, Eq)]
pub enum Message<J> {
    /// Run this job.
    NewJob(J),
    /// Stop: the worker that takes this message exits.
    Terminate,
}

} // verus!
