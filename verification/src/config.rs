use vstd::prelude::*;

verus! {

/// Configuration for the thread pool.
#[derive(Debug, Clone, Copy)]
pub struct ThreadPoolConfig {
    /// The number of worker threads to spawn.
    pub worker_threads: usize,
    /// The capacity of the task queue.
    pub queue_capacity: usize,
}

/// The queue capacity of a default configuration.
pub const DEFAULT_QUEUE_CAPACITY: usize = 1000;

/// Asks `num_cpus::get` for the number of logical CPUs available to this
/// process. Its documentation promises that the result is at least one; the
/// exact value depends on the machine and is left open.
#[verifier::external_body]
fn available_cpus() -> (n: usize)
    ensures
        n >= 1,
{
    num_cpus::get()
}

impl ThreadPoolConfig {
    /// The default configuration for a machine with `worker_threads` CPUs:
    /// that many workers and a task queue of one thousand entries.
    pub fn with_worker_threads(worker_threads: usize) -> (config: Self)
        ensures
            config.worker_threads == worker_threads,
            config.queue_capacity == DEFAULT_QUEUE_CAPACITY,
    {
        ThreadPoolConfig { worker_threads, queue_capacity: DEFAULT_QUEUE_CAPACITY }
    }
}

impl Default for ThreadPoolConfig {
    /// One worker per available CPU, as `num_cpus` counts them, and a task
    /// queue of one thousand entries. Whatever the machine, there is at
    /// least one worker.
    fn default() -> (config: Self)
        ensures
            config.worker_threads >= 1,
            config.queue_capacity == DEFAULT_QUEUE_CAPACITY,
    {
        Self::with_worker_threads(available_cpus())
    }
}

} // verus!
