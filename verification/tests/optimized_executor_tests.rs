use script::runtime::async_performance_optimizer::{OptimizedExecutor, PerformanceConfig, SchedulingStrategy};
use script::runtime::async_runtime_secure::{AsyncResult, Executor, TaskId};

fn make() -> OptimizedExecutor<fn(), u8, fn(Vec<TaskId>) -> AsyncResult<()>> {
    fn unit() {}
    fn handle(_ids: Vec<TaskId>) -> AsyncResult<()> {
        Ok(())
    }
    OptimizedExecutor::new(PerformanceConfig::default(), unit as fn(), handle as fn(Vec<TaskId>) -> AsyncResult<()>, 0)
}

#[test]
fn test_optimized_spawn_uses_pool_and_base() {
    let mut opt = make();
    let mut base = Executor::new();
    assert_eq!(opt.spawn_optimized(&mut base, 5).ok().map(|t| t.0), Some(0));
    assert_eq!(opt.spawn_optimized(&mut base, 6).ok().map(|t| t.0), Some(1));
    let counts = opt.optimization_counts();
    assert_eq!(counts.object_pool_created, 1);
    assert_eq!(counts.object_pool_available, 1);
    assert_eq!(counts.object_pool_in_use, 0);
    assert_eq!(counts.current_strategy, SchedulingStrategy::RoundRobin);
    assert_eq!(base.get_stats(), (2, 0, 2));
}

#[test]
fn test_optimized_spawn_without_pooling() {
    fn unit() {}
    fn handle(_ids: Vec<TaskId>) -> AsyncResult<()> {
        Ok(())
    }
    let mut config = PerformanceConfig::default();
    config.enable_object_pooling = false;
    let mut opt: OptimizedExecutor<fn(), u8, fn(Vec<TaskId>) -> AsyncResult<()>> =
        OptimizedExecutor::new(config, unit as fn(), handle as fn(Vec<TaskId>) -> AsyncResult<()>, 0);
    let mut base = Executor::new();
    assert!(opt.spawn_optimized(&mut base, 1).is_ok());
    assert_eq!(opt.optimization_counts().object_pool_created, 0);
}

#[test]
fn test_record_spawn_counts_task_and_time() {
    let mut opt = make();
    let mut base = Executor::new();
    opt.spawn_optimized(&mut base, 1).unwrap();
    assert!(opt.record_spawn(&base, 250, 2).is_ok());
    let m = opt.get_performance_metrics();
    assert_eq!(m.tasks_processed, 1);
    assert_eq!(m.total_execution_time_ns, 250);
}

#[test]
fn test_spawn_refused_at_limit() {
    let mut opt = make();
    let mut base = Executor::with_max_tasks(1);
    assert!(opt.spawn_optimized(&mut base, 1).is_ok());
    assert!(opt.spawn_optimized(&mut base, 2).is_err());
}

#[test]
fn test_running_flag_and_maintenance() {
    let mut opt = make();
    assert!(!opt.is_running());
    opt.set_running(true);
    assert!(opt.is_running());
    opt.maintain(100);
    assert_eq!(opt.optimization_counts().cache_size, 0);
}
