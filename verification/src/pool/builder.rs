use vstd::prelude::*;

use crate::config::{ThreadPoolConfig, DEFAULT_QUEUE_CAPACITY};
use crate::pool::thread_pool::{PoolView, ThreadPool, MAX_QUEUE_CAPACITY};

verus! {

/// A builder for creating a thread pool with custom configuration.
pub struct ThreadPoolBuilder {
    config: ThreadPoolConfig,
}

impl ThreadPoolBuilder {
    /// The configuration gathered so far.
    pub closed spec fn spec_config(&self) -> ThreadPoolConfig {
        self.config
    }

    /// Creates a builder that starts from the given configuration.
    pub fn from_config(config: ThreadPoolConfig) -> (builder: Self)
        ensures
            builder.spec_config() == config,
    {
        ThreadPoolBuilder { config }
    }

    /// Creates a builder that starts from the default configuration: one
    /// worker per available CPU and a queue capacity of one thousand.
    pub fn new() -> (builder: Self)
        ensures
            builder.spec_config().worker_threads >= 1,
            builder.spec_config().queue_capacity == DEFAULT_QUEUE_CAPACITY,
    {
        Self::from_config(ThreadPoolConfig::default())
    }

    /// The configuration gathered so far.
    pub fn config(&self) -> (config: &ThreadPoolConfig)
        ensures
            *config == self.spec_config(),
    {
        &self.config
    }

    /// Sets the number of worker threads.
    pub fn worker_threads(self, worker_threads: usize) -> (builder: Self)
        ensures
            builder.spec_config() == (ThreadPoolConfig { worker_threads, ..self.spec_config() }),
    {
        let mut builder = self;
        builder.config.worker_threads = worker_threads;
        builder
    }

    /// Sets the capacity of the task queue.
    pub fn queue_capacity(self, queue_capacity: usize) -> (builder: Self)
        ensures
            builder.spec_config() == (ThreadPoolConfig { queue_capacity, ..self.spec_config() }),
    {
        let mut builder = self;
        builder.config.queue_capacity = queue_capacity;
        builder
    }

    /// Builds the thread pool. The pool's intake channel refuses a capacity
    /// of zero or above `MAX_QUEUE_CAPACITY`.
    pub fn build<T>(self) -> (pool: ThreadPool<T>)
        requires
            0 < self.spec_config().queue_capacity <= MAX_QUEUE_CAPACITY,
        ensures
            pool.wf(),
            pool@ == PoolView::<T>::initial(self.spec_config()),
    {
        ThreadPool::new(self.config)
    }
}

impl Default for ThreadPoolBuilder {
    /// The same as `ThreadPoolBuilder::new`.
    fn default() -> (builder: Self)
        ensures
            builder.spec_config().worker_threads >= 1,
            builder.spec_config().queue_capacity == DEFAULT_QUEUE_CAPACITY,
    {
        Self::new()
    }
}

} // verus!
