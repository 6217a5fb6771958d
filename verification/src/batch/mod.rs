mod executor;

pub use executor::{collect_results, flatten_joined, lemma_task_result, task_result};
