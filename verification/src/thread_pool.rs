//! The configuration of a thread pool, and the choice of the worker that
//! runs a job.

use vstd::prelude::*;

verus! {

/// `num_cpus::get`: the number of logical CPUs, which that crate documents
/// to be at least 1. It depends on the machine; nothing more is claimed.
#[verifier::external_body]
fn cpu_count() -> (n: usize)
    ensures
        n >= 1,
{
    num_cpus::get()
}

/// Settings of a thread pool: how many workers, their name and their stack
/// size; each unset until chosen.
#[derive(Clone)]
pub struct Builder {
    pub num_threads: Option<usize>,
    pub thread_name: Option<String>,
    pub thread_stack_size: Option<usize>,
}

impl Builder {
    /// A builder with nothing chosen.
    pub fn new() -> (b: Builder)
        ensures
            b.num_threads is None,
            b.thread_name is None,
            b.thread_stack_size is None,
    {
        Builder { num_threads: None, thread_name: None, thread_stack_size: None }
    }

    /// Chooses `num_threads` workers; there must be at least one.
    pub fn num_threads(self, num_threads: usize) -> (b: Builder)
        requires
            num_threads > 0,
        ensures
            b.num_threads == Some(num_threads),
            b.thread_name == self.thread_name,
            b.thread_stack_size == self.thread_stack_size,
    {
        Builder { num_threads: Some(num_threads), ..self }
    }

    /// Names every worker `name`.
    pub fn thread_name(self, name: String) -> (b: Builder)
        ensures
            b.num_threads == self.num_threads,
            b.thread_name == Some(name),
            b.thread_stack_size == self.thread_stack_size,
    {
        Builder { thread_name: Some(name), ..self }
    }

    /// Gives every worker a stack of `size` bytes.
    pub fn thread_stack_size(self, size: usize) -> (b: Builder)
        ensures
            b.num_threads == self.num_threads,
            b.thread_name == self.thread_name,
            b.thread_stack_size == Some(size),
    {
        Builder { thread_stack_size: Some(size), ..self }
    }

    /// The number of workers to start: the chosen number, or else one per
    /// logical CPU (at least one either way when chosen through
    /// [`Builder::num_threads`]).
    pub fn worker_count(&self) -> (n: usize)
        ensures
            self.num_threads matches Some(k) ==> n == k,
            self.num_threads is None ==> n >= 1,
    {
        match self.num_threads {
            Some(k) => k,
            None => cpu_count(),
        }
    }
}

impl Default for Builder {
    fn default() -> (b: Builder)
        ensures
            b.num_threads is None,
            b.thread_name is None,
            b.thread_stack_size is None,
    {
        Builder::new()
    }
}

/// The worker, of `workers`, that runs a job sent to position `pos`.
pub fn job_slot(pos: usize, workers: usize) -> (slot: usize)
    requires
        workers >= 1,
    ensures
        slot == pos % workers,
        slot < workers,
{
    pos % workers
}

} // verus!
