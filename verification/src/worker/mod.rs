mod envelope;
mod worker_impl;

pub use envelope::TaskEnvelope;
pub use worker_impl::Worker;

use std::collections::VecDeque;
use vstd::arithmetic::div_mod::{lemma_mod_add_multiples_vanish, lemma_small_mod};
use vstd::multiset::Multiset;
use vstd::prelude::*;

use crate::rng::random_below;

verus! {

broadcast use {vstd::seq_lib::group_to_multiset_ensures, vstd::multiset::group_multiset_properties};

/// Where worker `k` of a rotation of `n` workers begins at `start`.
pub open spec fn rotation(start: int, k: int, n: int) -> int {
    (start + k) % n
}

/// Whether `thief` may steal from worker `idx`: another worker whose queue
/// is not empty.
pub open spec fn can_steal_from<T>(queues: Seq<Seq<TaskEnvelope<T>>>, thief: int, idx: int) -> bool {
    &&& 0 <= idx < queues.len()
    &&& idx != thief
    &&& queues[idx].len() > 0
}

/// Whether some worker other than `thief` has a task waiting.
pub open spec fn has_victim<T>(queues: Seq<Seq<TaskEnvelope<T>>>, thief: int) -> bool {
    exists|idx: int| can_steal_from(queues, thief, idx)
}

/// Whether the `k`-th worker of the rotation that begins at `start` is the
/// first one in that rotation that `thief` may steal from.
pub open spec fn is_first_victim<T>(
    queues: Seq<Seq<TaskEnvelope<T>>>,
    thief: int,
    start: int,
    k: int,
) -> bool {
    &&& 0 <= k < queues.len()
    &&& can_steal_from(queues, thief, rotation(start, k, queues.len() as int))
    &&& forall|j: int|
        0 <= j < k ==> !can_steal_from(queues, thief, #[trigger] rotation(start, j, queues.len() as int))
}

/// The rotation stays within the workers and can be computed without a
/// division.
pub proof fn lemma_rotation(start: int, k: int, n: int)
    requires
        0 <= start < n,
        0 <= k < n,
    ensures
        rotation(start, k, n) == (if start + k < n { start + k } else { start + k - n }),
        0 <= rotation(start, k, n) < n,
{
    if start + k < n {
        lemma_small_mod((start + k) as nat, n as nat);
    } else {
        lemma_mod_add_multiples_vanish(start + k - n, n);
        lemma_small_mod((start + k - n) as nat, n as nat);
    }
}

/// Every worker is reached by the rotation that begins at `start`.
pub proof fn lemma_rotation_covers(start: int, idx: int, n: int) -> (k: int)
    requires
        0 <= start < n,
        0 <= idx < n,
    ensures
        0 <= k < n,
        rotation(start, k, n) == idx,
{
    let k = if idx >= start { idx - start } else { idx + n - start };
    lemma_rotation(start, k, n);
    k
}

/// The step by which worker `w` finds its next task, from queues `q` and
/// shared queue `shared` to `q2` and `shared2`: the oldest task of its own
/// queue; failing that, the oldest task of the shared queue; failing that,
/// the newest task of some other worker that has one; and nothing only when
/// no other worker has a task.
pub open spec fn takes_next<T>(
    q: Seq<Seq<TaskEnvelope<T>>>,
    shared: Seq<TaskEnvelope<T>>,
    w: int,
    task: Option<TaskEnvelope<T>>,
    q2: Seq<Seq<TaskEnvelope<T>>>,
    shared2: Seq<TaskEnvelope<T>>,
) -> bool {
    if q[w].len() > 0 {
        &&& task == Some(q[w][0])
        &&& q2 == q.update(w, q[w].drop_first())
        &&& shared2 == shared
    } else if shared.len() > 0 {
        &&& task == Some(shared[0])
        &&& q2 == q
        &&& shared2 == shared.drop_first()
    } else {
        &&& shared2 == shared
        &&& (task is None <==> !has_victim(q, w))
        &&& task is None ==> q2 == q
        &&& task matches Some(t) ==> exists|victim: int|
            #[trigger] can_steal_from(q, w, victim) && t == q[victim].last() && q2 == q.update(
                victim,
                q[victim].drop_last(),
            )
    }
}

/// A worker finds nothing to run exactly when no task waits anywhere it can
/// reach: its own queue, the shared queue and every other worker's queue are
/// all empty.
pub proof fn lemma_idle_only_without_work<T>(
    q: Seq<Seq<TaskEnvelope<T>>>,
    shared: Seq<TaskEnvelope<T>>,
    w: int,
    task: Option<TaskEnvelope<T>>,
    q2: Seq<Seq<TaskEnvelope<T>>>,
    shared2: Seq<TaskEnvelope<T>>,
)
    requires
        0 <= w < q.len(),
        takes_next(q, shared, w, task, q2, shared2),
    ensures
        task is None <==> (shared.len() == 0 && forall|i: int| 0 <= i < q.len() ==> #[trigger] q[i].len() == 0),
{
    if task is None {
        assert forall|i: int| 0 <= i < q.len() implies #[trigger] q[i].len() == 0 by {
            if i != w {
                assert(!can_steal_from(q, w, i));
            }
        }
    } else if q[w].len() == 0 && shared.len() == 0 {
        let t = task->0;
        let victim = choose|victim: int|
            #[trigger] can_steal_from(q, w, victim) && t == q[victim].last() && q2 == q.update(
                victim,
                q[victim].drop_last(),
            );
        assert(q[victim].len() > 0);
    }
}

/// All tasks waiting in a collection of queues, counted with multiplicity.
pub open spec fn queued<T>(queues: Seq<Seq<TaskEnvelope<T>>>) -> Multiset<TaskEnvelope<T>>
    decreases queues.len(),
{
    if queues.len() == 0 {
        Multiset::empty()
    } else {
        queued(queues.drop_last()).add(queues.last().to_multiset())
    }
}

/// Replacing one queue changes the waiting tasks by the difference between
/// the old and the new queue.
pub proof fn lemma_queued_update<T>(queues: Seq<Seq<TaskEnvelope<T>>>, i: int, s: Seq<TaskEnvelope<T>>)
    requires
        0 <= i < queues.len(),
    ensures
        queued(queues.update(i, s)).add(queues[i].to_multiset()) =~= queued(queues).add(s.to_multiset()),
    decreases queues.len(),
{
    let u = queues.update(i, s);
    if i == queues.len() - 1 {
        assert(u.drop_last() =~= queues.drop_last());
        assert(u.last() == s);
        assert(queued(u) == queued(queues.drop_last()).add(s.to_multiset()));
        assert(queued(queues) == queued(queues.drop_last()).add(queues[i].to_multiset()));
        assert(queued(u).add(queues[i].to_multiset()) =~= queued(queues).add(s.to_multiset()));
    } else {
        assert(u.drop_last() =~= queues.drop_last().update(i, s));
        assert(u.last() == queues.last());
        lemma_queued_update(queues.drop_last(), i, s);
        assert(queues.drop_last()[i] == queues[i]);
        assert(queued(queues.drop_last().update(i, s)).add(queues[i].to_multiset()) == queued(
            queues.drop_last(),
        ).add(s.to_multiset()));
        assert(queued(u) == queued(u.drop_last()).add(queues.last().to_multiset()));
        assert(queued(queues) == queued(queues.drop_last()).add(queues.last().to_multiset()));
        let a = queued(queues.drop_last().update(i, s));
        let b = queued(queues.drop_last());
        assert forall|v| #[trigger] queued(u).add(queues[i].to_multiset()).count(v) == queued(queues).add(
            s.to_multiset(),
        ).count(v) by {
            assert(a.add(queues[i].to_multiset()).count(v) == b.add(s.to_multiset()).count(v));
        }
        assert(queued(u).add(queues[i].to_multiset()) =~= queued(queues).add(s.to_multiset()));
    }
}

/// Queues that are all empty hold no task.
pub proof fn lemma_queued_empty<T>(n: nat)
    ensures
        queued(Seq::new(n, |i: int| Seq::<TaskEnvelope<T>>::empty())) =~= Multiset::empty(),
    decreases n,
{
    if n > 0 {
        let qs = Seq::new(n, |i: int| Seq::<TaskEnvelope<T>>::empty());
        assert(qs.drop_last() =~= Seq::new((n - 1) as nat, |i: int| Seq::<TaskEnvelope<T>>::empty()));
        lemma_queued_empty::<T>((n - 1) as nat);
        assert(qs.last().to_multiset() =~= Multiset::empty());
    }
}

/// Taking the first task of a sequence leaves the rest.
pub proof fn lemma_multiset_drop_first<T>(s: Seq<T>)
    requires
        s.len() > 0,
    ensures
        s.to_multiset() =~= s.drop_first().to_multiset().insert(s[0]),
{
    broadcast use vstd::seq_lib::lemma_multiset_commutative;

    assert(s =~= seq![s[0]] + s.drop_first());
    assert(seq![s[0]].to_multiset() =~= Multiset::empty().insert(s[0])) by {
        assert(seq![s[0]] =~= Seq::<T>::empty().push(s[0]));
    }
}

/// Taking the last task of a sequence leaves the rest.
pub proof fn lemma_multiset_drop_last<T>(s: Seq<T>)
    requires
        s.len() > 0,
    ensures
        s.to_multiset() =~= s.drop_last().to_multiset().insert(s.last()),
{
    assert(s =~= s.drop_last().push(s.last()));
}

/// The step `takes_next` removes exactly the task that it hands out.
pub proof fn lemma_takes_next_conserves<T>(
    q: Seq<Seq<TaskEnvelope<T>>>,
    shared: Seq<TaskEnvelope<T>>,
    w: int,
    task: Option<TaskEnvelope<T>>,
    q2: Seq<Seq<TaskEnvelope<T>>>,
    shared2: Seq<TaskEnvelope<T>>,
)
    requires
        0 <= w < q.len(),
        takes_next(q, shared, w, task, q2, shared2),
    ensures
        task is None ==> queued(q2).add(shared2.to_multiset()) == queued(q).add(shared.to_multiset()),
        task matches Some(t) ==> queued(q2).add(shared2.to_multiset()).insert(t) == queued(q).add(
            shared.to_multiset(),
        ),
{
    if q[w].len() > 0 {
        lemma_queued_update(q, w, q[w].drop_first());
        lemma_multiset_drop_first(q[w]);
        assert forall|v| #[trigger] queued(q2).add(shared2.to_multiset()).insert(q[w][0]).count(v)
            == queued(q).add(shared.to_multiset()).count(v) by {
            assert(queued(q2).add(q[w].to_multiset()).count(v) == queued(q).add(
                q[w].drop_first().to_multiset(),
            ).count(v));
            assert(q[w].to_multiset().count(v) == q[w].drop_first().to_multiset().insert(q[w][0]).count(v));
        }
        assert(queued(q2).add(shared2.to_multiset()).insert(q[w][0]) =~= queued(q).add(shared.to_multiset()));
    } else if shared.len() > 0 {
        lemma_multiset_drop_first(shared);
        assert(queued(q2).add(shared2.to_multiset()).insert(shared[0]) =~= queued(q).add(shared.to_multiset()));
    } else if task is Some {
        let t = task->0;
        let victim = choose|victim: int|
            #[trigger] can_steal_from(q, w, victim) && t == q[victim].last() && q2 == q.update(
                victim,
                q[victim].drop_last(),
            );
        lemma_queued_update(q, victim, q[victim].drop_last());
        lemma_multiset_drop_last(q[victim]);
        assert forall|v| #[trigger] queued(q2).add(shared2.to_multiset()).insert(t).count(v)
            == queued(q).add(shared.to_multiset()).count(v) by {
            assert(queued(q2).add(q[victim].to_multiset()).count(v) == queued(q).add(
                q[victim].drop_last().to_multiset(),
            ).count(v));
            assert(q[victim].to_multiset().count(v) == q[victim].drop_last().to_multiset().insert(
                q[victim].last(),
            ).count(v));
        }
        assert(queued(q2).add(shared2.to_multiset()).insert(t) =~= queued(q).add(shared.to_multiset()));
    }
}

/// The workers of the pool and the queue they share.
pub struct WorkerState<T> {
    workers: Vec<Worker<T>>,
    shared_queue: VecDeque<TaskEnvelope<T>>,
}

impl<T> WorkerState<T> {
    /// The queue of each worker, indexed by the worker's identifier.
    pub closed spec fn queues(&self) -> Seq<Seq<TaskEnvelope<T>>> {
        Seq::new(self.workers@.len(), |i: int| self.workers@[i]@)
    }

    /// The shared queue, front first.
    pub closed spec fn shared(&self) -> Seq<TaskEnvelope<T>> {
        self.shared_queue@
    }

    /// The identifier of each worker, in the order of `queues`.
    pub closed spec fn ids(&self) -> Seq<usize> {
        Seq::new(self.workers@.len(), |i: int| self.workers@[i].spec_id())
    }

    /// Each worker sits at the position given by its identifier.
    pub open spec fn wf(&self) -> bool {
        &&& self.ids().len() == self.queues().len()
        &&& forall|i: int| 0 <= i < self.ids().len() ==> #[trigger] self.ids()[i] == i
    }

    /// Creates `num_workers` workers with empty queues and an empty shared
    /// queue.
    pub fn new(num_workers: usize) -> (state: Self)
        ensures
            state.wf(),
            state.queues() == Seq::new(num_workers as nat, |i: int| Seq::<TaskEnvelope<T>>::empty()),
            state.shared() == Seq::<TaskEnvelope<T>>::empty(),
    {
        let mut workers: Vec<Worker<T>> = Vec::new();
        let mut i: usize = 0;
        while i < num_workers
            invariant
                i <= num_workers,
                workers@.len() == i,
                forall|j: int|
                    0 <= j < i ==> (#[trigger] workers@[j]).spec_id() == j && workers@[j]@ == Seq::<
                        TaskEnvelope<T>,
                    >::empty(),
            decreases num_workers - i,
        {
            workers.push(Worker::new(i));
            i = i + 1;
        }
        let state = WorkerState { workers, shared_queue: VecDeque::new() };
        assert(state.queues() =~= Seq::new(num_workers as nat, |i: int| Seq::<TaskEnvelope<T>>::empty()));
        state
    }

    /// The number of workers.
    pub fn num_workers(&self) -> (n: usize)
        ensures
            n == self.queues().len(),
    {
        self.workers.len()
    }

    /// Pushes a task to the back of a worker's queue.
    pub fn push_task(&mut self, worker: usize, task: TaskEnvelope<T>)
        requires
            old(self).wf(),
            worker < old(self).queues().len(),
        ensures
            final(self).wf(),
            final(self).queues() == old(self).queues().update(
                worker as int,
                old(self).queues()[worker as int].push(task),
            ),
            final(self).shared() == old(self).shared(),
    {
        self.workers[worker].push_task(task);
        assert(self.ids() =~= old(self).ids());
        assert(self.queues() =~= old(self).queues().update(
            worker as int,
            old(self).queues()[worker as int].push(task),
        ));
    }

    /// Takes the oldest task of a worker's own queue.
    pub fn take_local(&mut self, worker: usize) -> (task: Option<TaskEnvelope<T>>)
        requires
            old(self).wf(),
            worker < old(self).queues().len(),
        ensures
            final(self).wf(),
            final(self).shared() == old(self).shared(),
            old(self).queues()[worker as int].len() == 0 ==> task is None && final(self).queues()
                == old(self).queues(),
            old(self).queues()[worker as int].len() > 0 ==> task == Some(
                old(self).queues()[worker as int][0],
            ) && final(self).queues() == old(self).queues().update(
                worker as int,
                old(self).queues()[worker as int].drop_first(),
            ),
    {
        let task = self.workers[worker].take_local();
        assert(self.ids() =~= old(self).ids());
        assert(self.queues() =~= old(self).queues().update(worker as int, self.workers@[worker as int]@));
        task
    }

    /// Tries to get a task from the shared queue.
    pub fn try_get_shared_task(&mut self) -> (task: Option<TaskEnvelope<T>>)
        ensures
            final(self).wf() == old(self).wf(),
            final(self).queues() == old(self).queues(),
            old(self).shared().len() == 0 ==> task is None && final(self).shared() == old(self).shared(),
            old(self).shared().len() > 0 ==> task == Some(old(self).shared()[0]) && final(self).shared()
                == old(self).shared().drop_first(),
    {
        let task = self.shared_queue.pop_front();
        assert(self.queues() =~= old(self).queues());
        task
    }

    /// Looks for a task to steal: visits the workers in the rotation that
    /// begins at `start`, skips `thief` itself and every empty queue, and
    /// takes the newest task of the first worker that has one.
    pub fn steal_starting_at(&mut self, thief: usize, start: usize) -> (task: Option<TaskEnvelope<T>>)
        requires
            old(self).wf(),
            thief < old(self).queues().len(),
            start < old(self).queues().len(),
        ensures
            final(self).wf(),
            final(self).shared() == old(self).shared(),
            task is None ==> !has_victim(old(self).queues(), thief as int) && final(self).queues()
                == old(self).queues(),
            task matches Some(t) ==> exists|k: int|
                #[trigger] is_first_victim(old(self).queues(), thief as int, start as int, k) && {
                    let victim = rotation(start as int, k, old(self).queues().len() as int);
                    &&& t == old(self).queues()[victim].last()
                    &&& final(self).queues() == old(self).queues().update(
                        victim,
                        old(self).queues()[victim].drop_last(),
                    )
                },
    {
        let n = self.workers.len();
        let ghost q0 = self.queues();
        let mut k: usize = 0;
        while k < n
            invariant
                n == q0.len(),
                thief < n,
                start < n,
                k <= n,
                self.wf(),
                self.queues() == q0,
                self.shared() == old(self).shared(),
                q0 == old(self).queues(),
                forall|j: int| 0 <= j < k ==> !can_steal_from(q0, thief as int, #[trigger] rotation(start as int, j, n as int)),
            decreases n - k,
        {
            proof {
                lemma_rotation(start as int, k as int, n as int);
            }
            let idx = if k < n - start { start + k } else { k - (n - start) };
            assert(self.workers@[idx as int]@ == q0[idx as int]);
            if idx != thief && self.workers[idx].has_tasks() {
                let ghost ids0 = self.ids();
                let task = self.workers[idx].take_stolen();
                assert(self.ids() =~= ids0);
                assert(self.queues() =~= q0.update(idx as int, q0[idx as int].drop_last()));
                assert(is_first_victim(q0, thief as int, start as int, k as int));
                return task;
            }
            k = k + 1;
        }
        assert forall|idx: int| !can_steal_from(q0, thief as int, idx) by {
            if 0 <= idx < n {
                let k = lemma_rotation_covers(start as int, idx, n as int);
                assert(!can_steal_from(q0, thief as int, rotation(start as int, k, n as int)));
            }
        }
        None
    }

    /// Tries to steal a task from another worker, as `Worker::try_steal_task`
    /// does: with fewer than two workers there is nobody to steal from;
    /// otherwise the rotation begins at a random worker. Whatever the random
    /// start, a task is found exactly when some other worker has one, and it
    /// is the newest task of that worker.
    pub fn try_steal_task(&mut self, thief: usize) -> (task: Option<TaskEnvelope<T>>)
        requires
            old(self).wf(),
            thief < old(self).queues().len(),
        ensures
            final(self).wf(),
            final(self).shared() == old(self).shared(),
            task is None <==> !has_victim(old(self).queues(), thief as int),
            task is None ==> final(self).queues() == old(self).queues(),
            task matches Some(t) ==> exists|victim: int|
                #[trigger] can_steal_from(old(self).queues(), thief as int, victim) && t == old(
                    self,
                ).queues()[victim].last() && final(self).queues() == old(self).queues().update(
                    victim,
                    old(self).queues()[victim].drop_last(),
                ),
    {
        let n = self.workers.len();
        if n <= 1 {
            return None;
        }
        let start = random_below(n);
        let task = self.steal_starting_at(thief, start);
        proof {
            if task is Some {
                let t = task->0;
                let k = choose|k: int| #[trigger] is_first_victim(old(self).queues(), thief as int, start as int, k) && {
                    let victim = rotation(start as int, k, n as int);
                    &&& t == old(self).queues()[victim].last()
                    &&& self.queues() == old(self).queues().update(victim, old(self).queues()[victim].drop_last())
                };
                let victim = rotation(start as int, k, n as int);
                assert(can_steal_from(old(self).queues(), thief as int, victim));
            }
        }
        task
    }

    /// What a worker runs next: the oldest task of its own queue; failing
    /// that, the oldest task of the shared queue; failing that, a task stolen
    /// from another worker. `None` means that the worker finds nothing and
    /// yields.
    pub fn next_task(&mut self, worker: usize) -> (task: Option<TaskEnvelope<T>>)
        requires
            old(self).wf(),
            worker < old(self).queues().len(),
        ensures
            final(self).wf(),
            takes_next(
                old(self).queues(),
                old(self).shared(),
                worker as int,
                task,
                final(self).queues(),
                final(self).shared(),
            ),
    {
        if self.workers[worker].has_tasks() {
            assert(self.workers@[worker as int]@ == self.queues()[worker as int]);
            return self.take_local(worker);
        }
        assert(self.workers@[worker as int]@ == self.queues()[worker as int]);
        if self.shared_queue.len() > 0 {
            return self.try_get_shared_task();
        }
        self.try_steal_task(worker)
    }
}

} // verus!
