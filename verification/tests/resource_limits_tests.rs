use script::runtime::async_resource_limits::{AsyncResourceLimits, AsyncResourceMonitor, AsyncResourceViolation};

#[test]
fn test_async_resource_monitor_task_limits() {
    let limits = AsyncResourceLimits { max_concurrent_tasks: 5, ..Default::default() };
    let mut monitor = AsyncResourceMonitor::new(limits);
    for _ in 0..5 {
        assert!(monitor.record_task_spawn().is_ok());
    }
    assert!(monitor.record_task_spawn().is_err());
}

#[test]
fn test_async_memory_tracking() {
    let limits = AsyncResourceLimits {
        max_task_memory_bytes: 1000,
        max_total_async_memory_bytes: 5000,
        ..Default::default()
    };
    let mut monitor = AsyncResourceMonitor::new(limits);
    assert!(monitor.record_task_memory_allocation(1, 500).is_ok());
    assert!(monitor.record_task_memory_allocation(2, 500).is_ok());
    assert!(monitor.record_task_memory_allocation(1, 600).is_err());
}

#[test]
fn spawn_limit_reports_the_attempted_count() {
    let limits = AsyncResourceLimits { max_concurrent_tasks: 1, ..Default::default() };
    let mut monitor = AsyncResourceMonitor::new(limits);
    assert_eq!(monitor.record_task_spawn(), Ok(()));
    assert_eq!(
        monitor.record_task_spawn(),
        Err(AsyncResourceViolation::TooManyConcurrentTasks { current: 2, limit: 1 })
    );
    let stats = monitor.get_async_stats();
    assert_eq!(stats.active_tasks, 1);
    assert_eq!(stats.peak_concurrent_tasks, 1);
    assert_eq!(stats.total_tasks_spawned, 1);
}

#[test]
fn memory_is_given_back_when_tasks_end() {
    let limits = AsyncResourceLimits {
        max_task_memory_bytes: 1000,
        max_total_async_memory_bytes: 1500,
        ..Default::default()
    };
    let mut monitor = AsyncResourceMonitor::new(limits);
    monitor.record_task_spawn().unwrap();
    monitor.record_task_spawn().unwrap();
    assert_eq!(monitor.record_task_memory_allocation(1, 700), Ok(()));
    assert_eq!(monitor.record_task_memory_allocation(2, 700), Ok(()));
    assert_eq!(
        monitor.record_task_memory_allocation(2, 200),
        Err(AsyncResourceViolation::TotalAsyncMemoryExceeded { total_memory: 1600, limit: 1500 })
    );
    assert_eq!(monitor.get_async_stats().current_async_memory, 1400);
    assert_eq!(monitor.record_task_completion(1, 10), Ok(()));
    let stats = monitor.get_async_stats();
    assert_eq!(stats.current_async_memory, 700);
    assert_eq!(stats.peak_async_memory, 1400);
    assert_eq!(stats.total_tasks_completed, 1);
    assert_eq!(stats.active_tasks, 1);
    monitor.record_task_failure(2);
    let stats = monitor.get_async_stats();
    assert_eq!(stats.current_async_memory, 0);
    assert_eq!(stats.total_tasks_failed, 1);
    assert_eq!(stats.active_tasks, 0);
}

#[test]
fn task_over_its_limit_keeps_its_bytes_counted() {
    let limits = AsyncResourceLimits {
        max_task_memory_bytes: 1000,
        max_total_async_memory_bytes: 5000,
        ..Default::default()
    };
    let mut monitor = AsyncResourceMonitor::new(limits);
    assert_eq!(monitor.record_task_memory_allocation(1, 500), Ok(()));
    assert_eq!(
        monitor.record_task_memory_allocation(1, 600),
        Err(AsyncResourceViolation::TaskMemoryExceeded { task_memory: 1100, limit: 1000 })
    );
    assert_eq!(monitor.get_async_stats().current_async_memory, 1100);
    assert_eq!(
        monitor.record_task_memory_allocation(3, 2000),
        Err(AsyncResourceViolation::TaskMemoryExceeded { task_memory: 2000, limit: 1000 })
    );
}

#[test]
fn overlong_tasks_are_refused() {
    let limits = AsyncResourceLimits { max_task_execution_time_ns: 100, ..Default::default() };
    let mut monitor = AsyncResourceMonitor::new(limits);
    monitor.record_task_spawn().unwrap();
    assert_eq!(
        monitor.record_task_completion(0, 101),
        Err(AsyncResourceViolation::TaskExecutionTimeExceeded { execution_time_ns: 101, limit_ns: 100 })
    );
    assert_eq!(monitor.get_async_stats().active_tasks, 1);
    assert_eq!(monitor.record_task_completion(0, 100), Ok(()));
    assert_eq!(monitor.get_async_stats().active_tasks, 0);
}

#[test]
fn default_limits() {
    let l = AsyncResourceLimits::default();
    assert_eq!(l.max_concurrent_tasks, 10_000);
    assert_eq!(l.max_task_memory_bytes, 10 * 1024 * 1024);
    assert_eq!(l.max_total_async_memory_bytes, 100 * 1024 * 1024);
    assert_eq!(l.max_task_execution_time_ns, 300_000_000_000);
    assert!(l.enable_async_throttling);
}

#[test]
fn allocations_past_the_word_size_are_refused() {
    let limits = AsyncResourceLimits {
        max_task_memory_bytes: usize::MAX,
        max_total_async_memory_bytes: usize::MAX,
        ..Default::default()
    };
    let mut monitor = AsyncResourceMonitor::new(limits);
    assert_eq!(monitor.record_task_memory_allocation(1, usize::MAX), Ok(()));
    assert_eq!(
        monitor.record_task_memory_allocation(2, 1),
        Err(AsyncResourceViolation::TotalAsyncMemoryExceeded { total_memory: usize::MAX, limit: usize::MAX })
    );
}
