use script::runtime::async_runtime::AsyncRuntimeConfig;
use script::runtime::async_tokio_bridge::{check_task_limit, TokioConfig};

#[test]
fn tokio_config_defaults() {
    let c = TokioConfig::default();
    assert!(c.worker_threads >= 1);
    assert_eq!(c.thread_stack_size, 2 * 1024 * 1024);
    assert!(c.enable_io && c.enable_time);
    assert_eq!(c.thread_name_prefix, "script-worker");
    assert_eq!(c.max_blocking_threads, 512);
}

#[test]
fn bridge_task_limit() {
    let mut config = AsyncRuntimeConfig::default();
    config.max_concurrent_tasks = 2;
    // two tasks start, the third is refused
    assert!(check_task_limit(0, config.max_concurrent_tasks).is_ok());
    assert!(check_task_limit(1, config.max_concurrent_tasks).is_ok());
    let e = check_task_limit(2, config.max_concurrent_tasks).unwrap_err();
    assert_eq!(e.message(), "Maximum concurrent tasks exceeded: 2/2");
}
