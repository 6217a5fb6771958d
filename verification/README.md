# tokio_fusion

A work-stealing task pool for Tokio, split in two parts.

- `src/` is the scheduling core, verified with Verus. It models the pool as
  plain data: a bounded intake channel, one FIFO queue per worker, a
  shared queue and the active-task counter. Submitting, distributing a task to a
  worker, choosing what a worker runs next and stealing from a peer are
  verified steps on that state, with contracts over the abstract view
  `PoolView` (see `src/pool/thread_pool.rs` and `src/worker/mod.rs`).
  It also holds the configuration, the builder, the error type and the
  small decisions of task handles and batches.
- `app/` runs those steps on the Tokio runtime: the asynchronous
  `ThreadPool` facade, tasks and their handles, the worker loop, the
  distributor loop and the batch executor.
