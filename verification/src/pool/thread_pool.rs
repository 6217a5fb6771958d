use std::collections::VecDeque;
use vstd::arithmetic::div_mod::{lemma_add_mod_noop, lemma_mod_pos_bound, lemma_mod_self_0, lemma_small_mod};
use vstd::multiset::Multiset;
use vstd::prelude::*;

use crate::config::{ThreadPoolConfig, DEFAULT_QUEUE_CAPACITY};
use crate::rng::random_below;
use crate::worker::{lemma_queued_empty, lemma_takes_next_conserves, queued, takes_next, TaskEnvelope, WorkerState};

verus! {

broadcast use {vstd::seq_lib::group_to_multiset_ensures, vstd::multiset::group_multiset_properties};

/// The largest queue capacity that the pool's intake channel admits.
pub const MAX_QUEUE_CAPACITY: usize = usize::MAX / 8;

/// The value that a `usize` counter holds after counting `count` events
/// up from zero, wrapping around as the pool's atomic counter does.
pub open spec fn counter_value(count: nat) -> nat {
    count % (usize::MAX as nat + 1)
}

/// Counting one more event moves the counter as `wrapping_add(1)` does.
proof fn lemma_counter_up(count: nat, value: usize)
    requires
        value == counter_value(count),
    ensures
        counter_value(count + 1) == value.wrapping_add(1),
{
    let m = usize::MAX as int + 1;
    lemma_add_mod_noop(count as int, 1, m);
    lemma_small_mod(1, m as nat);
    if value + 1 < m {
        lemma_small_mod((value + 1) as nat, m as nat);
    } else {
        lemma_mod_self_0(m);
    }
}

/// Counting one event less moves the counter as `wrapping_sub(1)` does.
proof fn lemma_counter_down(count: nat, value: usize)
    requires
        count >= 1,
        value == counter_value(count),
    ensures
        counter_value((count - 1) as nat) == value.wrapping_sub(1),
{
    let m = usize::MAX as int + 1;
    let r = (count - 1) % m;
    lemma_add_mod_noop(count - 1, 1, m);
    lemma_small_mod(1, m as nat);
    lemma_mod_pos_bound(count - 1, m);
    if r + 1 < m {
        lemma_small_mod((r + 1) as nat, m as nat);
    } else {
        lemma_mod_self_0(m);
    }
}

/// The abstract state of a pool.
pub struct PoolView<T> {
    /// The configuration the pool was built with.
    pub config: ThreadPoolConfig,
    /// Tasks submitted and not yet handed to a worker, oldest first.
    pub pending: Seq<TaskEnvelope<T>>,
    /// The queue of each worker, front first.
    pub queues: Seq<Seq<TaskEnvelope<T>>>,
    /// The queue that all workers share, front first.
    pub shared: Seq<TaskEnvelope<T>>,
    /// Tasks handed to a worker whose result is not yet produced.
    pub running: nat,
    /// The counter of active tasks: submitted and with no result produced
    /// yet. A `usize` that wraps around as an atomic counter does.
    pub active_tasks: nat,
    /// How many submissions were accepted so far.
    pub accepted: nat,
    /// How many tasks produced their result so far.
    pub finished: nat,
    /// How many tasks left the intake channel while the pool had no worker
    /// to take them; their handles report cancellation.
    pub discarded: nat,
}

impl<T> PoolView<T> {
    /// Every task that waits somewhere in the pool, counted with multiplicity.
    pub open spec fn in_flight(self) -> Multiset<TaskEnvelope<T>> {
        self.pending.to_multiset().add(queued(self.queues).add(self.shared.to_multiset()))
    }

    /// The active tasks: waiting somewhere in the pool or running.
    pub open spec fn live(self) -> nat {
        self.in_flight().len() + self.running
    }

    /// A freshly built pool: no task anywhere, one empty queue per worker.
    pub open spec fn initial(config: ThreadPoolConfig) -> PoolView<T> {
        PoolView {
            config,
            pending: Seq::empty(),
            queues: Seq::new(config.worker_threads as nat, |i: int| Seq::<TaskEnvelope<T>>::empty()),
            shared: Seq::empty(),
            running: 0,
            active_tasks: 0,
            accepted: 0,
            finished: 0,
            discarded: 0,
        }
    }

    /// One queue per configured worker, an intake channel within its
    /// capacity, a counter of the active tasks, and every accepted task
    /// accounted for: waiting, running, finished or discarded.
    pub open spec fn well_formed(self) -> bool {
        &&& self.queues.len() == self.config.worker_threads
        &&& 0 < self.config.queue_capacity <= MAX_QUEUE_CAPACITY
        &&& self.pending.len() <= self.config.queue_capacity
        &&& self.active_tasks == counter_value(self.live())
        &&& self.accepted == self.live() + self.finished + self.discarded
    }
}

/// What the distributor did with the oldest submitted task.
pub enum Dispatch<T> {
    /// No task was waiting.
    Idle,
    /// The pool has no worker; the task was taken out and is handed back to
    /// be dropped.
    Discarded(TaskEnvelope<T>),
    /// The task joined the back of this worker's queue.
    Delivered(usize),
}

/// The scheduling core of a thread pool: a bounded intake channel for
/// submitted tasks, the workers' queues with work stealing, and the count of
/// active tasks, those submitted whose result is not yet produced.
pub struct ThreadPool<T> {
    channel: VecDeque<TaskEnvelope<T>>,
    state: WorkerState<T>,
    running: usize,
    active_tasks: usize,
    config: ThreadPoolConfig,
    accepted: Ghost<nat>,
    finished: Ghost<nat>,
    discarded: Ghost<nat>,
}

impl<T> View for ThreadPool<T> {
    type V = PoolView<T>;

    closed spec fn view(&self) -> PoolView<T> {
        PoolView {
            config: self.config,
            pending: self.channel@,
            queues: self.state.queues(),
            shared: self.state.shared(),
            running: self.running as nat,
            active_tasks: self.active_tasks as nat,
            accepted: self.accepted@,
            finished: self.finished@,
            discarded: self.discarded@,
        }
    }
}

impl<T> ThreadPool<T> {
    /// The identifier of each worker, in the order of the view's queues.
    pub closed spec fn worker_ids(&self) -> Seq<usize> {
        self.state.ids()
    }

    /// The workers sit at the positions given by their identifiers.
    pub open spec fn inv(&self) -> bool {
        &&& self.worker_ids().len() == self@.queues.len()
        &&& forall|i: int| 0 <= i < self.worker_ids().len() ==> #[trigger] self.worker_ids()[i] == i
    }

    /// The pool's invariant.
    pub open spec fn wf(&self) -> bool {
        &&& self.inv()
        &&& self@.well_formed()
    }

    /// Creates a pool for the given configuration. The intake channel
    /// refuses a capacity of zero or above `MAX_QUEUE_CAPACITY`.
    pub fn new(config: ThreadPoolConfig) -> (pool: Self)
        requires
            0 < config.queue_capacity <= MAX_QUEUE_CAPACITY,
        ensures
            pool.wf(),
            pool@ == PoolView::<T>::initial(config),
    {
        let state = WorkerState::new(config.worker_threads);
        proof {
            lemma_queued_empty::<T>(config.worker_threads as nat);
            lemma_small_mod(0, usize::MAX as nat + 1);
        }
        let pool = ThreadPool {
            channel: VecDeque::new(),
            state,
            running: 0,
            active_tasks: 0,
            config,
            accepted: Ghost(0),
            finished: Ghost(0),
            discarded: Ghost(0),
        };
        assert(pool@.in_flight() =~= Multiset::empty());
        pool
    }

    /// The number of active tasks: submitted, with no result produced yet.
    pub fn active_tasks(&self) -> (n: usize)
        ensures
            n == self@.active_tasks,
    {
        self.active_tasks
    }

    /// The number of tasks handed to a worker whose result is not yet
    /// produced.
    pub fn running_tasks(&self) -> (n: usize)
        ensures
            n == self@.running,
    {
        self.running
    }

    /// The configuration.
    pub fn config(&self) -> (config: &ThreadPoolConfig)
        ensures
            *config == self@.config,
    {
        &self.config
    }

    /// Submits a task. The intake channel holds up to the configured queue
    /// capacity; while it is full the task is handed back, and the submitter
    /// waits and tries again. An accepted task is counted as active.
    pub fn submit(&mut self, task: TaskEnvelope<T>) -> (r: Result<(), TaskEnvelope<T>>)
        requires
            old(self).wf(),
        ensures
            final(self).wf(),
            old(self)@.pending.len() < old(self)@.config.queue_capacity ==> r is Ok && final(self)@ == (
            PoolView {
                pending: old(self)@.pending.push(task),
                active_tasks: (old(self)@.active_tasks as usize).wrapping_add(1) as nat,
                accepted: old(self)@.accepted + 1,
                ..old(self)@
            }),
            old(self)@.pending.len() >= old(self)@.config.queue_capacity ==> r == Err::<(), _>(task)
                && final(self)@ == old(self)@,
            r is Ok ==> final(self)@.in_flight() == old(self)@.in_flight().insert(task),
    {
        if self.channel.len() < self.config.queue_capacity {
            self.channel.push_back(task);
            proof {
                lemma_counter_up(old(self)@.live(), self.active_tasks);
                self.accepted@ = self.accepted@ + 1;
            }
            self.active_tasks = self.active_tasks.wrapping_add(1);
            assert(self@.in_flight() =~= old(self)@.in_flight().insert(task));
            Ok(())
        } else {
            Err(task)
        }
    }

    /// Hands the oldest submitted task to the back of `worker`'s queue.
    pub fn dispatch_to(&mut self, worker: usize)
        requires
            old(self).wf(),
            old(self)@.pending.len() > 0,
            worker < old(self)@.queues.len(),
        ensures
            final(self).wf(),
            final(self)@ == (PoolView {
                pending: old(self)@.pending.drop_first(),
                queues: old(self)@.queues.update(
                    worker as int,
                    old(self)@.queues[worker as int].push(old(self)@.pending[0]),
                ),
                ..old(self)@
            }),
            final(self)@.in_flight() == old(self)@.in_flight(),
    {
        let task = self.channel.pop_front().unwrap();
        self.state.push_task(worker, task);
        proof {
            let q = old(self)@.queues;
            crate::worker::lemma_queued_update(q, worker as int, q[worker as int].push(task));
            crate::worker::lemma_multiset_drop_first(old(self)@.pending);
            assert forall|v| #[trigger] self@.in_flight().count(v) == old(self)@.in_flight().count(v) by {
                assert(queued(self@.queues).add(q[worker as int].to_multiset()).count(v) == queued(q).add(
                    q[worker as int].push(task).to_multiset(),
                ).count(v));
            }
            assert(self@.in_flight() =~= old(self)@.in_flight());
        }
    }

    /// The distributor's step: takes the oldest submitted task, if any, and
    /// hands it to a worker chosen at random; with no worker at all the task
    /// is taken out and handed back to be dropped, which ends it: it is no
    /// longer active.
    pub fn dispatch(&mut self) -> (r: Dispatch<T>)
        requires
            old(self).wf(),
        ensures
            final(self).wf(),
            old(self)@.pending.len() == 0 ==> r is Idle && final(self)@ == old(self)@,
            old(self)@.pending.len() > 0 && old(self)@.queues.len() == 0 ==> r == Dispatch::Discarded(
                old(self)@.pending[0],
            ) && final(self)@ == (PoolView {
                pending: old(self)@.pending.drop_first(),
                active_tasks: (old(self)@.active_tasks as usize).wrapping_sub(1) as nat,
                discarded: old(self)@.discarded + 1,
                ..old(self)@
            }),
            old(self)@.pending.len() > 0 && old(self)@.queues.len() > 0 ==> (r matches Dispatch::Delivered(w)
                && w < old(self)@.queues.len() && final(self)@ == (PoolView {
                pending: old(self)@.pending.drop_first(),
                queues: old(self)@.queues.update(w as int, old(self)@.queues[w as int].push(old(self)@.pending[0])),
                ..old(self)@
            })),
            r matches Dispatch::Discarded(t) ==> old(self)@.in_flight() == final(self)@.in_flight().insert(t),
            !(r is Discarded) ==> final(self)@.in_flight() == old(self)@.in_flight(),
    {
        if self.channel.len() == 0 {
            return Dispatch::Idle;
        }
        let n = self.state.num_workers();
        if n == 0 {
            let task = self.channel.pop_front().unwrap();
            proof {
                self.discarded@ = self.discarded@ + 1;
                crate::worker::lemma_multiset_drop_first(old(self)@.pending);
                assert(old(self)@.in_flight() =~= self@.in_flight().insert(task));
                lemma_counter_down(old(self)@.live(), self.active_tasks);
            }
            self.active_tasks = self.active_tasks.wrapping_sub(1);
            return Dispatch::Discarded(task);
        }
        let worker = random_below(n);
        self.dispatch_to(worker);
        Dispatch::Delivered(worker)
    }

    /// What `worker` runs next: the oldest task of its own queue, else the
    /// shared queue's oldest, else a task stolen from another worker (see
    /// `takes_next`). A task that is handed out counts as
    /// running, and stays active until `finish_task` reports its result.
    pub fn next_task(&mut self, worker: usize) -> (task: Option<TaskEnvelope<T>>)
        requires
            old(self).wf(),
            worker < old(self)@.queues.len(),
            old(self)@.running < usize::MAX,
        ensures
            final(self).wf(),
            takes_next(
                old(self)@.queues,
                old(self)@.shared,
                worker as int,
                task,
                final(self)@.queues,
                final(self)@.shared,
            ),
            final(self)@.config == old(self)@.config,
            final(self)@.pending == old(self)@.pending,
            final(self)@.discarded == old(self)@.discarded,
            final(self)@.accepted == old(self)@.accepted,
            final(self)@.finished == old(self)@.finished,
            final(self)@.active_tasks == old(self)@.active_tasks,
            task is None ==> final(self)@.running == old(self)@.running,
            task is Some ==> final(self)@.running == old(self)@.running + 1,
            task is None ==> final(self)@.in_flight() == old(self)@.in_flight(),
            task matches Some(t) ==> old(self)@.in_flight() == final(self)@.in_flight().insert(t),
    {
        let task = self.state.next_task(worker);
        proof {
            lemma_takes_next_conserves(
                old(self)@.queues,
                old(self)@.shared,
                worker as int,
                task,
                self@.queues,
                self@.shared,
            );
            let p = self@.pending.to_multiset();
            let w0 = queued(old(self)@.queues).add(old(self)@.shared.to_multiset());
            let w1 = queued(self@.queues).add(self@.shared.to_multiset());
            if task is Some {
                let t = task->0;
                assert forall|v| #[trigger] old(self)@.in_flight().count(v) == self@.in_flight().insert(t).count(v) by {
                    assert(w1.insert(t).count(v) == w0.count(v));
                }
                assert(old(self)@.in_flight() =~= self@.in_flight().insert(t));
            } else {
                assert(self@.in_flight() =~= old(self)@.in_flight());
            }
        }
        if task.is_some() {
            self.running = self.running + 1;
        }
        task
    }

    /// Records that a running task produced its result: it is no longer
    /// active. Returns `false`, changing nothing, when no task is running.
    pub fn finish_task(&mut self) -> (done: bool)
        requires
            old(self).wf(),
        ensures
            final(self).wf(),
            old(self)@.running == 0 ==> !done && final(self)@ == old(self)@,
            old(self)@.running > 0 ==> done && final(self)@ == (PoolView {
                running: (old(self)@.running - 1) as nat,
                active_tasks: (old(self)@.active_tasks as usize).wrapping_sub(1) as nat,
                finished: old(self)@.finished + 1,
                ..old(self)@
            }),
    {
        if self.running == 0 {
            return false;
        }
        proof {
            lemma_counter_down(old(self)@.live(), self.active_tasks);
            self.finished@ = self.finished@ + 1;
        }
        self.running = self.running - 1;
        self.active_tasks = self.active_tasks.wrapping_sub(1);
        true
    }

    /// The number of workers.
    pub fn num_workers(&self) -> (n: usize)
        ensures
            n == self@.queues.len(),
    {
        self.state.num_workers()
    }
}

impl<T> Default for ThreadPool<T> {
    /// A pool with the default configuration.
    fn default() -> (pool: Self)
        ensures
            pool.wf(),
            pool@ == PoolView::<T>::initial(pool@.config),
            pool@.config.worker_threads >= 1,
            pool@.config.queue_capacity == DEFAULT_QUEUE_CAPACITY,
    {
        Self::new(ThreadPoolConfig::default())
    }
}

/// The active-task counter of a pool counts the tasks submitted whose result
/// is not yet produced: those waiting in the intake channel, the workers'
/// queues or the shared queue, and those running. It counts them as a `usize`
/// counter does; they are never more than the accepted submissions, and as
/// long as they fit in a `usize` the counter holds their number exactly.
pub proof fn lemma_active_tasks_accounts<T>(pool: &ThreadPool<T>)
    requires
        pool.wf(),
    ensures
        pool@.active_tasks == counter_value(pool@.in_flight().len() + pool@.running),
        pool@.in_flight().len() + pool@.running <= pool@.accepted,
        pool@.in_flight().len() + pool@.running <= usize::MAX ==> pool@.active_tasks == pool@.in_flight().len()
            + pool@.running,
{
    if pool@.live() <= usize::MAX {
        lemma_small_mod(pool@.live(), usize::MAX as nat + 1);
    }
}

/// Every accepted submission is accounted for exactly once: it waits in the
/// pool, runs, has finished, or was discarded for want of a worker.
pub proof fn lemma_every_task_accounted<T>(pool: &ThreadPool<T>)
    requires
        pool.wf(),
    ensures
        pool@.accepted == pool@.in_flight().len() + pool@.running + pool@.finished + pool@.discarded,
{
}

/// A pool never holds more submitted, undistributed tasks than its queue
/// capacity, and it always has one queue per configured worker.
pub proof fn lemma_pending_within_capacity<T>(pool: &ThreadPool<T>)
    requires
        pool.wf(),
    ensures
        pool@.pending.len() <= pool@.config.queue_capacity,
        pool@.queues.len() == pool@.config.worker_threads,
{
}

} // verus!
