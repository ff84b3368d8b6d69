use std::sync::atomic::{AtomicUsize, Ordering};
use std::sync::Arc;

use script::runtime::async_performance_optimizer::{
    AdaptiveScheduler, AsyncCache, BatchProcessor, ObjectPool, PerformanceConfig, PerformanceMetrics,
    SchedulingStrategy,
};
use script::runtime::async_runtime_secure::{
    check_block_timeout, AsyncRuntimeError, BlockingExecutor, Executor, JoinAll, PollOutcome, RunStep,
    SharedResult, Task, TaskId, TaskState, Timer, TimerPoll, TimerQueue,
};

const MS: u64 = 1_000_000;
const SEC: u64 = 1_000_000_000;

#[test]
fn test_object_pool() {
    let mut pool = ObjectPool::new(|| String::new(), 5);

    let obj1 = pool.get();
    let obj2 = pool.get();

    assert_eq!(pool.stats().1, 2);

    pool.return_object(obj1);
    pool.return_object(obj2);

    assert_eq!(pool.stats().0, 2);
}

#[test]
fn object_pool_reuses_and_bounds() {
    let mut pool = ObjectPool::new(|| vec![0u8; 4], 1);
    let a = pool.get();
    let b = pool.get();
    assert_eq!(pool.stats(), (0, 2, 2));
    pool.return_object(a);
    pool.return_object(b);
    assert_eq!(pool.stats(), (1, 1, 2));
    let _c = pool.get();
    assert_eq!(pool.stats(), (0, 2, 2));
}

#[test]
fn test_adaptive_scheduler() {
    let config = PerformanceConfig::default();
    let mut scheduler = AdaptiveScheduler::new(config, 0);

    scheduler.record_workload(10, 5, 0).unwrap();
    scheduler.record_workload(20, 15, 0).unwrap();

    assert_eq!(scheduler.current_strategy(), SchedulingStrategy::RoundRobin);
}

#[test]
fn scheduler_adapts_after_ten_samples() {
    let mut scheduler = AdaptiveScheduler::new(PerformanceConfig::default(), 0);
    for _ in 0..10 {
        scheduler.record_workload(1, 30, 200 * MS).unwrap();
    }
    // no task has run: average times are zero, so shortest job first
    assert_eq!(scheduler.current_strategy(), SchedulingStrategy::ShortestJobFirst);
    assert_eq!(scheduler.metrics().scheduler_adaptations, 1);
}

#[test]
fn test_batch_processor() {
    let processed_count = Arc::new(AtomicUsize::new(0));
    let count_clone = processed_count.clone();

    let mut config = PerformanceConfig::default();
    config.max_batch_size = 3;

    let mut processor = BatchProcessor::new(
        config,
        move |items: Vec<usize>| {
            count_clone.fetch_add(items.len(), Ordering::Relaxed);
            Ok(())
        },
        0,
    );

    processor.add(1, 0).unwrap();
    processor.add(2, 0).unwrap();
    processor.add(3, 0).unwrap();

    assert_eq!(processed_count.load(Ordering::Relaxed), 3);
}

#[test]
fn batch_processor_flushes_on_time_and_on_demand() {
    let seen = Arc::new(AtomicUsize::new(0));
    let s = seen.clone();
    let mut processor = BatchProcessor::new(
        PerformanceConfig::default(),
        move |items: Vec<u32>| {
            s.fetch_add(items.len(), Ordering::Relaxed);
            Ok(())
        },
        0,
    );
    processor.add(1, 0).unwrap();
    assert_eq!(processor.pending_len(), 1);
    processor.add(2, 11 * MS).unwrap();
    assert_eq!(seen.load(Ordering::Relaxed), 2);
    processor.add(3, 12 * MS).unwrap();
    processor.flush(13 * MS).unwrap();
    assert_eq!(seen.load(Ordering::Relaxed), 3);
    assert_eq!(processor.pending_len(), 0);
}

#[test]
fn test_async_cache() {
    let metrics = PerformanceMetrics::default();
    let mut cache = AsyncCache::new(5, SEC, metrics);

    cache.put("key1".to_string(), "value1".to_string(), 0).unwrap();
    let result = cache.get("key1", 0).unwrap();
    assert_eq!(result, Some("value1".to_string()));

    let result = cache.get("nonexistent", 0).unwrap();
    assert_eq!(result, None);
}

#[test]
fn cache_expires_and_evicts_least_recently_used() {
    let mut cache = AsyncCache::new(2, 10 * SEC, PerformanceMetrics::default());
    cache.put("a".to_string(), 1, 0).unwrap();
    cache.put("b".to_string(), 2, 0).unwrap();
    // read "a" twice: "b", as old and read less, is the one to go
    assert_eq!(cache.get("a", 0).unwrap(), Some(1));
    assert_eq!(cache.get("a", 0).unwrap(), Some(1));
    cache.put("c".to_string(), 3, 0).unwrap();
    assert_eq!(cache.len(), 2);
    assert_eq!(cache.get("a", 0).unwrap(), Some(1));
    assert_eq!(cache.get("b", 0).unwrap(), None);
    // expiry
    assert_eq!(cache.get("c", 11 * SEC).unwrap(), None);
    assert_eq!(cache.len(), 1);
    assert_eq!(cache.cleanup(20 * SEC).unwrap(), 1);
    assert_eq!(cache.len(), 0);
    assert_eq!(cache.stats().unwrap(), (0, 5));
    assert_eq!(cache.metrics().cache_hits, 3);
}

#[test]
fn performance_metrics_average() {
    let mut metrics = PerformanceMetrics::default();
    metrics.tasks_processed = 100;
    metrics.total_execution_time_ns = 1_000_000_000;
    assert_eq!(metrics.avg_execution_time_ns(), 10_000_000);
    metrics.reset();
    assert_eq!(metrics.avg_execution_time_ns(), 0);
}

#[test]
fn test_task_limit_validation() {
    let mut executor = Executor::with_max_tasks(5);

    for _ in 0..5 {
        executor.spawn(0).expect("Should succeed within limit");
    }

    let result = executor.spawn(0);
    assert!(matches!(result, Err(AsyncRuntimeError::TaskLimitExceeded { .. })));
}

#[test]
fn test_invalid_timer_duration() {
    let result = Timer::new(4000 * SEC, 0);
    assert!(matches!(result, Err(AsyncRuntimeError::InvalidTimerDuration(_))));
}

#[test]
fn executor_steps_through_tasks() {
    let mut executor = Executor::new();
    let a = executor.spawn(0).unwrap();
    let b = executor.spawn(0).unwrap();
    assert_eq!(a, TaskId(0));
    assert_eq!(b, TaskId(1));
    assert_eq!(executor.run_step(), RunStep::Poll(a));
    executor.finish_poll(a, PollOutcome::Ready);
    assert_eq!(executor.run_step(), RunStep::Poll(b));
    executor.finish_poll(b, PollOutcome::Pending);
    assert_eq!(executor.run_step(), RunStep::Wait);
    executor.wake_task(b).unwrap();
    assert_eq!(executor.run_step(), RunStep::Poll(b));
    executor.finish_poll(b, PollOutcome::Failed);
    assert_eq!(executor.get_stats(), (2, 1, 0));
    assert_eq!(executor.run_step(), RunStep::Finished);
    executor.shutdown();
    assert_eq!(executor.run_step(), RunStep::Stop);
    assert!(matches!(executor.wake_task(a), Err(AsyncRuntimeError::ExecutorShutdown)));
}

#[test]
fn timers_and_their_queue() {
    let mut timer = Timer::new(100 * MS, 1_000).unwrap();
    assert_eq!(timer.poll_at(1_000), TimerPoll::Register(100 * MS + 1_000));
    assert_eq!(timer.poll_at(2_000), TimerPoll::Pending);
    assert_eq!(timer.poll_at(100 * MS + 1_000), TimerPoll::Ready);

    let mut queue = TimerQueue::new();
    queue.insert(30, "c");
    queue.insert(10, "a");
    queue.insert(20, "b");
    queue.insert(10, "a2");
    assert_eq!(queue.next_timeout(5), 5);
    assert_eq!(queue.expire(15), vec!["a", "a2"]);
    assert_eq!(queue.len(), 2);
    assert_eq!(queue.next_timeout(40), 0);
    assert_eq!(queue.expire(40), vec!["b", "c"]);
    assert_eq!(queue.next_timeout(40), 60 * SEC);
}

#[test]
fn error_messages() {
    let e = AsyncRuntimeError::TaskLimitExceeded { limit: 5, attempted: 5 };
    assert_eq!(e.to_string(), "Task limit exceeded: attempted 5, limit 5");
    assert_eq!(AsyncRuntimeError::InvalidTimerDuration(4000 * SEC).to_string(), "Invalid timer duration: 4000s");
    assert_eq!(AsyncRuntimeError::TaskNotFound(TaskId(3)).to_string(), "Task not found: TaskId(3)");
    assert!(TaskId(100_000).validate().is_err());
    assert!(TaskId(99_999).validate().is_ok());
    assert!(check_block_timeout(3600 * SEC).is_ok());
    assert!(check_block_timeout(3601 * SEC).is_err());
}

#[test]
fn joins_and_shared_results() {
    let mut join: JoinAll<u8, i32> = JoinAll::new(vec![1u8, 2u8]).unwrap();
    assert!(!join.all_ready());
    join.record(1, 20);
    assert!(join.is_pending(0));
    join.record(0, 10);
    assert!(join.all_ready());
    assert_eq!(join.take_results(), vec![10, 20]);

    let mut shared = SharedResult::new(5);
    assert!(!shared.is_completed());
    shared.set_result(7).unwrap();
    assert!(shared.is_completed());
    assert_eq!(shared.age(15), 10);
    assert_eq!(shared.take_result().unwrap(), 7);
    assert!(matches!(shared.take_result(), Err(AsyncRuntimeError::InvalidTaskState(_))));

    let task = Task::new(TaskId(1), 3).unwrap();
    assert_eq!(task.state(), TaskState::Created);
    assert_eq!(task.age(10), 7);
    assert_eq!(TaskState::from_code(2), TaskState::Completed);
    assert_eq!(TaskState::from_code(9), TaskState::Failed);

    let blocking = BlockingExecutor::new();
    assert_eq!(blocking.executor.get_stats(), (0, 0, 0));
}

#[test]
fn cache_put_into_full_cache_reads_back() {
    let mut cache = AsyncCache::new(1, 10 * SEC, PerformanceMetrics::default());
    cache.put("old".to_string(), 1, 0).unwrap();
    cache.put("new".to_string(), 2, 5).unwrap();
    assert_eq!(cache.len(), 1);
    assert_eq!(cache.get("new", 5 + 10 * SEC).unwrap(), Some(2));
    assert_eq!(cache.get("old", 5).unwrap(), None);
}

#[test]
fn cache_put_stays_within_capacity_and_costs_one_entry() {
    let mut cache = AsyncCache::new(3, 10 * SEC, PerformanceMetrics::default());
    cache.put("a".to_string(), 1, 0).unwrap();
    cache.put("b".to_string(), 2, 0).unwrap();
    cache.put("c".to_string(), 3, 0).unwrap();
    assert_eq!(cache.len(), 3);
    cache.put("d".to_string(), 4, 0).unwrap();
    assert_eq!(cache.len(), 3);
    let kept = ["a", "b", "c"].iter().filter(|k| cache.get(k, 1).unwrap().is_some()).count();
    assert_eq!(kept, 2);
    assert_eq!(cache.get("d", 1).unwrap(), Some(4));
    // below capacity nothing else goes
    let mut roomy = AsyncCache::new(5, 10 * SEC, PerformanceMetrics::default());
    roomy.put("x".to_string(), 1, 0).unwrap();
    roomy.put("y".to_string(), 2, 0).unwrap();
    assert_eq!(roomy.get("x", 0).unwrap(), Some(1));
    assert_eq!(roomy.get("y", 0).unwrap(), Some(2));
}

#[test]
fn cache_evicts_the_oldest_entry_first() {
    let mut cache = AsyncCache::new(2, 100 * SEC, PerformanceMetrics::default());
    cache.put("old".to_string(), 1, 0).unwrap();
    cache.put("new".to_string(), 2, 5 * SEC).unwrap();
    cache.put("newest".to_string(), 3, 6 * SEC).unwrap();
    assert_eq!(cache.get("old", 6 * SEC).unwrap(), None);
    assert_eq!(cache.get("new", 6 * SEC).unwrap(), Some(2));
    assert_eq!(cache.get("newest", 6 * SEC).unwrap(), Some(3));
}
