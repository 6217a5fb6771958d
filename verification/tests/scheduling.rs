use tokio_fusion::config::{ThreadPoolConfig, DEFAULT_QUEUE_CAPACITY};
use tokio_fusion::pool::{Dispatch, ThreadPool, ThreadPoolBuilder, MAX_QUEUE_CAPACITY};
use tokio_fusion::worker::{TaskEnvelope, Worker, WorkerState};

fn env(task: u32, priority: usize) -> TaskEnvelope<u32> {
    TaskEnvelope::new(task, priority)
}

fn pool(workers: usize, capacity: usize) -> ThreadPool<u32> {
    ThreadPool::new(ThreadPoolConfig { worker_threads: workers, queue_capacity: capacity })
}

#[test]
fn default_config_has_a_worker_per_cpu_and_a_thousand_slots() {
    let config = ThreadPoolConfig::default();
    assert!(config.worker_threads >= 1);
    assert_eq!(config.queue_capacity, 1000);
    assert_eq!(DEFAULT_QUEUE_CAPACITY, 1000);
    let eight = ThreadPoolConfig::with_worker_threads(8);
    assert_eq!(eight.worker_threads, 8);
    assert_eq!(eight.queue_capacity, 1000);
    let b = ThreadPoolBuilder::from_config(eight);
    assert_eq!(b.config().worker_threads, 8);
    assert_eq!(b.config().queue_capacity, 1000);
    assert_eq!(ThreadPoolBuilder::new().config().queue_capacity, 1000);
    assert_eq!(
        ThreadPoolBuilder::default().config().worker_threads,
        ThreadPoolConfig::default().worker_threads
    );
}

#[test]
fn builder_sets_each_field_alone() {
    let base = ThreadPoolBuilder::new();
    let p: ThreadPool<u32> = base.worker_threads(3).build();
    assert_eq!(p.config().worker_threads, 3);
    assert_eq!(p.config().queue_capacity, 1000);
    let q: ThreadPool<u32> = ThreadPoolBuilder::default().queue_capacity(7).build();
    assert_eq!(q.config().queue_capacity, 7);
    assert!(q.config().worker_threads >= 1);
    let r: ThreadPool<u32> = ThreadPoolBuilder::new().queue_capacity(2).worker_threads(5).build();
    assert_eq!(r.num_workers(), 5);
    assert_eq!(r.config().queue_capacity, 2);
}

#[test]
fn default_pool_starts_empty() {
    let p: ThreadPool<u32> = ThreadPool::default();
    assert_eq!(p.active_tasks(), 0);
    assert_eq!(p.config().queue_capacity, 1000);
    assert_eq!(p.num_workers(), p.config().worker_threads);
}

#[test]
fn largest_capacity_is_an_eighth_of_usize() {
    assert_eq!(MAX_QUEUE_CAPACITY, usize::MAX >> 3);
    let p = pool(1, MAX_QUEUE_CAPACITY);
    assert_eq!(p.config().queue_capacity, MAX_QUEUE_CAPACITY);
}

#[test]
fn submit_is_refused_while_the_channel_is_full() {
    let mut p = pool(2, 2);
    assert!(p.submit(env(1, 0)).is_ok());
    assert!(p.submit(env(2, 0)).is_ok());
    assert_eq!(p.active_tasks(), 2);
    match p.submit(env(3, 9)) {
        Err(back) => {
            assert_eq!(back.task, 3);
            assert_eq!(back.priority, 9);
        }
        Ok(()) => panic!("a full channel accepted a task"),
    }
    assert_eq!(p.active_tasks(), 2);
    p.dispatch_to(0);
    assert!(p.submit(env(3, 9)).is_ok());
    assert_eq!(p.active_tasks(), 3);
}

#[test]
fn dispatch_without_workers_discards_and_keeps_counting() {
    let mut p = pool(0, 4);
    assert!(p.submit(env(5, 1)).is_ok());
    match p.dispatch() {
        Dispatch::Discarded(t) => assert_eq!(t.task, 5),
        _ => panic!("expected the task to be discarded"),
    }
    assert_eq!(p.active_tasks(), 0);
    assert!(matches!(p.dispatch(), Dispatch::Idle));
}

#[test]
fn dispatch_delivers_to_a_worker_in_range() {
    let mut p = pool(4, 8);
    assert!(matches!(p.dispatch(), Dispatch::Idle));
    assert!(p.submit(env(11, 0)).is_ok());
    match p.dispatch() {
        Dispatch::Delivered(w) => {
            assert!(w < 4);
            let t = p.next_task(w).unwrap();
            assert_eq!(t.task, 11);
        }
        _ => panic!("expected a delivery"),
    }
    assert_eq!(p.active_tasks(), 1);
    assert_eq!(p.running_tasks(), 1);
    assert!(p.finish_task());
    assert_eq!(p.active_tasks(), 0);
    assert_eq!(p.running_tasks(), 0);
    assert!(!p.finish_task());
    assert_eq!(p.active_tasks(), 0);
}

#[test]
fn worker_runs_its_own_tasks_oldest_first() {
    let mut p = pool(2, 8);
    for i in 0..3u32 {
        assert!(p.submit(env(i, (3 - i) as usize)).is_ok());
        p.dispatch_to(1);
    }
    assert_eq!(p.next_task(1).unwrap().task, 0);
    assert_eq!(p.next_task(1).unwrap().task, 1);
    assert_eq!(p.next_task(1).unwrap().task, 2);
    assert!(p.next_task(1).is_none());
    assert_eq!(p.active_tasks(), 3);
    assert_eq!(p.running_tasks(), 3);
    assert!(p.finish_task());
    assert!(p.finish_task());
    assert!(p.finish_task());
    assert_eq!(p.active_tasks(), 0);
}

#[test]
fn priorities_do_not_reorder_a_workers_queue() {
    let mut p = pool(1, 8);
    for (task, priority) in [(1u32, 2usize), (2, 1), (3, 2), (4, 0)] {
        assert!(p.submit(env(task, priority)).is_ok());
        p.dispatch_to(0);
    }
    let first = p.next_task(0).unwrap();
    assert_eq!((first.task, first.priority), (1, 2));
    assert_eq!(p.next_task(0).unwrap().task, 2);
    assert_eq!(p.next_task(0).unwrap().task, 3);
    let last = p.next_task(0).unwrap();
    assert_eq!((last.task, last.priority), (4, 0));
}

#[test]
fn thief_takes_the_newest_task_of_a_busy_peer() {
    let mut p = pool(3, 8);
    assert!(p.submit(env(10, 0)).is_ok());
    assert!(p.submit(env(20, 0)).is_ok());
    p.dispatch_to(0);
    p.dispatch_to(0);
    assert_eq!(p.next_task(2).unwrap().task, 20);
    assert_eq!(p.next_task(1).unwrap().task, 10);
    assert!(p.next_task(0).is_none());
    assert!(p.next_task(1).is_none());
}

#[test]
fn single_worker_never_steals() {
    let mut p = pool(1, 8);
    assert!(p.next_task(0).is_none());
    assert!(p.submit(env(4, 0)).is_ok());
    assert!(p.next_task(0).is_none());
    p.dispatch_to(0);
    assert_eq!(p.next_task(0).unwrap().task, 4);
}

#[test]
fn steal_follows_the_rotation_from_its_start() {
    let mut s: WorkerState<u32> = WorkerState::new(4);
    s.push_task(0, env(100, 0));
    s.push_task(2, env(200, 0));
    s.push_task(2, env(201, 0));
    assert_eq!(s.steal_starting_at(1, 2).unwrap().task, 201);
    assert_eq!(s.steal_starting_at(1, 3).unwrap().task, 100);
    assert_eq!(s.steal_starting_at(1, 1).unwrap().task, 200);
    assert!(s.steal_starting_at(1, 0).is_none());
}

#[test]
fn steal_skips_the_thief_itself() {
    let mut s: WorkerState<u32> = WorkerState::new(3);
    s.push_task(1, env(7, 0));
    assert!(s.steal_starting_at(1, 1).is_none());
    assert!(s.try_steal_task(1).is_none());
    assert_eq!(s.try_steal_task(0).unwrap().task, 7);
}

#[test]
fn next_task_prefers_own_then_shared_then_stolen() {
    let mut s: WorkerState<u32> = WorkerState::new(2);
    s.push_task(0, env(1, 0));
    s.push_task(1, env(2, 0));
    s.push_task(1, env(3, 0));
    assert_eq!(s.next_task(0).unwrap().task, 1);
    assert_eq!(s.next_task(0).unwrap().task, 3);
    assert_eq!(s.next_task(0).unwrap().task, 2);
    assert!(s.next_task(0).is_none());
    assert!(s.try_get_shared_task().is_none());
    assert!(s.take_local(1).is_none());
    assert_eq!(s.num_workers(), 2);
}

#[test]
fn worker_queue_is_fifo_for_itself_and_lifo_for_thieves() {
    let mut w: Worker<u32> = Worker::new(6);
    assert_eq!(w.id(), 6);
    assert!(!w.has_tasks());
    w.push_task(env(1, 0));
    w.push_task(env(2, 0));
    w.push_task(env(3, 0));
    assert!(w.has_tasks());
    assert_eq!(w.take_local().unwrap().task, 1);
    assert_eq!(w.take_stolen().unwrap().task, 3);
    assert_eq!(w.take_local().unwrap().task, 2);
    assert!(w.take_local().is_none());
    assert!(w.take_stolen().is_none());
    w.push_task(env(7, 5));
    w.push_task(env(8, 9));
    w.push_task(env(9, 4));
    assert_eq!(w.take_local().unwrap().task, 7);
    assert_eq!(w.take_stolen().unwrap().task, 9);
    assert_eq!(w.take_local().unwrap().task, 8);
}

#[test]
fn envelope_keeps_task_and_priority() {
    let e = TaskEnvelope::new("job", 42);
    assert_eq!(e.task, "job");
    assert_eq!(e.priority, 42);
    assert_eq!(e.describe(), "TaskEnvelope { priority: 42 }");
    assert_eq!(TaskEnvelope::new((), 0).describe(), "TaskEnvelope { priority: 0 }");
    assert_eq!(
        TaskEnvelope::new((), usize::MAX).describe(),
        format!("TaskEnvelope {{ priority: {} }}", usize::MAX)
    );
}
