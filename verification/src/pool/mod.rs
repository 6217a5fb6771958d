mod builder;
mod thread_pool;

pub use builder::ThreadPoolBuilder;
pub use thread_pool::{
    counter_value, lemma_active_tasks_accounts, lemma_every_task_accounted, lemma_pending_within_capacity, Dispatch, PoolView, ThreadPool, MAX_QUEUE_CAPACITY,
};
