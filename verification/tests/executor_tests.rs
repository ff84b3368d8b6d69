use script::error::ErrorKind;
use script::runtime::async_runtime::{
    AsyncRuntimeConfig, BlockingExecutor, BoundedTaskQueue, EvictionPolicy, Executor, JoinAll, ResourceMonitor,
    RunStep, SharedResult, TaskId, Timer,
};
use script::runtime::async_runtime_secure as secure;

const MS: u64 = 1_000_000;
const SEC: u64 = 1_000_000_000;

/// A task of the simulated run loops: a timer, or one that is ready at once.
enum Job {
    Sleep(Timer),
    Immediate,
}

/// Runs the executor to the end with a simulated clock: a pending timer
/// registers a wake-up at its deadline, and waiting jumps to the earliest
/// wake-up. Gives back how many tasks completed.
fn run_executor(executor: &mut Executor, jobs: &mut Vec<Job>, start: u64) -> usize {
    let mut now = start;
    let mut wakeups: Vec<(u64, TaskId)> = Vec::new();
    let mut completed = 0;
    let mut resumed = false;
    loop {
        let step = executor.run_step(now, resumed).expect("run step");
        resumed = false;
        match step {
            RunStep::Stop | RunStep::Finished => break,
            RunStep::Skip => {}
            RunStep::Wait => {
                let (pos, _) = wakeups.iter().enumerate().min_by_key(|(_, w)| w.0).expect("a wake-up is registered");
                let (deadline, id) = wakeups.remove(pos);
                now = now.max(deadline);
                executor.wake_task(id, now).expect("wake");
                resumed = true;
            }
            RunStep::Poll(id) => {
                let ready = match &mut jobs[id.0] {
                    Job::Immediate => true,
                    Job::Sleep(timer) => match timer.poll_at(now) {
                        None => true,
                        Some(Some(deadline)) => {
                            wakeups.push((deadline, id));
                            false
                        }
                        Some(None) => false,
                    },
                };
                if ready {
                    completed += 1;
                }
                executor.finish_poll(id, ready);
            }
        }
    }
    completed
}

#[test]
fn test_timer() {
    let mut executor = Executor::new(0);
    let mut jobs = vec![Job::Sleep(Timer::new(100 * MS, 0))];
    let _task_id = executor.spawn(0).unwrap();
    assert_eq!(run_executor(&mut executor, &mut jobs, 0), 1);
}

#[test]
fn test_multiple_timers() {
    let mut executor = Executor::new(0);
    let mut jobs = Vec::new();
    for i in 0..5u64 {
        jobs.push(Job::Sleep(Timer::new(50 * MS * (i + 1), 0)));
        executor.spawn(0).unwrap();
    }
    let counter = run_executor(&mut executor, &mut jobs, 0);
    // All 5 timers should have completed
    assert_eq!(counter, 5);
}

#[test]
fn test_immediate_ready() {
    let mut executor = Executor::new(0);
    let mut jobs = vec![Job::Immediate];
    executor.spawn(0).unwrap();
    assert_eq!(run_executor(&mut executor, &mut jobs, 0), 1);
    assert_eq!(executor.get_stats(0).active_tasks, 0);
}

#[test]
fn executor_steps_and_monitor() {
    let mut executor = Executor::new(0);
    let a = executor.spawn(0).unwrap();
    let b = executor.spawn(0).unwrap();
    assert_eq!((a, b), (TaskId(0), TaskId(1)));
    let stats = executor.get_stats(5);
    assert_eq!((stats.active_tasks, stats.queue_size, stats.memory_usage, stats.uptime), (2, 2, 2048, 5));
    assert_eq!(executor.run_step(1, false).unwrap(), RunStep::Poll(a));
    executor.finish_poll(a, true);
    assert_eq!(executor.run_step(1, false).unwrap(), RunStep::Poll(b));
    executor.finish_poll(b, false);
    assert_eq!(executor.run_step(1, false).unwrap(), RunStep::Wait);
    let stats = executor.get_stats(1);
    assert_eq!((stats.active_tasks, stats.queue_size, stats.memory_usage), (1, 0, 1024));
    assert!(executor.is_healthy(1));
    // past the global timeout of 30 s
    let late = executor.run_step(31 * SEC, false).unwrap_err();
    assert_eq!(late.kind(), ErrorKind::SecurityError);
    assert_eq!(late.message(), "Global timeout exceeded: 30s");
    assert!(!executor.is_healthy(31 * SEC));
    executor.shutdown();
    assert_eq!(executor.run_step(1, false).unwrap(), RunStep::Stop);
}

#[test]
fn executor_task_limit() {
    let mut config = AsyncRuntimeConfig::default();
    config.max_concurrent_tasks = 2;
    let mut executor = Executor::with_config(config, 0);
    assert_eq!(executor.spawn(0).unwrap().0, 0);
    assert_eq!(executor.spawn(0).unwrap().0, 1);
    assert_eq!(executor.get_stats(0).active_tasks, 2);
    let e = executor.spawn(0).unwrap_err();
    assert_eq!(e.message(), "Maximum concurrent tasks exceeded: 2/2");
    assert_eq!(e.to_string(), "Security error: Maximum concurrent tasks exceeded: 2/2");
}

#[test]
fn monitor_limits_in_order() {
    let mut config = AsyncRuntimeConfig::default();
    config.max_queue_size = 1;
    config.max_memory_usage = 1024;
    let mut monitor = ResourceMonitor::new(config, 0);
    assert!(monitor.can_add_task(0).is_ok());
    monitor.add_task();
    assert_eq!(monitor.can_add_task(0).unwrap_err().message(), "Memory limit exceeded: 1024/1024 bytes");
    monitor.add_to_queue();
    assert_eq!(monitor.can_add_task(0).unwrap_err().message(), "Task queue full: 1/1");
    monitor.remove_from_queue();
    monitor.remove_task();
    assert!(monitor.can_add_task(0).is_ok());
    assert!(monitor.reserve_task_slot(0).is_ok());
    assert_eq!(monitor.get_stats(0).active_tasks, 1);
    monitor.release_task_slot();
    assert_eq!(monitor.get_stats(0).active_tasks, 0);
}

#[test]
fn queue_policies() {
    let mut fifo = BoundedTaskQueue::new(2, EvictionPolicy::Fifo);
    assert_eq!(fifo.push(TaskId(1)).unwrap(), None);
    assert_eq!(fifo.push(TaskId(2)).unwrap(), None);
    assert_eq!(fifo.push(TaskId(3)).unwrap(), Some(TaskId(1)));
    assert_eq!(fifo.len(), 2);
    assert_eq!(fifo.pop(), Some(TaskId(2)));
    assert_eq!(fifo.pop(), Some(TaskId(3)));
    assert_eq!(fifo.pop(), None);
    assert!(fifo.is_empty());

    let mut reject = BoundedTaskQueue::new(1, EvictionPolicy::Reject);
    reject.push(TaskId(1)).unwrap();
    let e = reject.push(TaskId(2)).unwrap_err();
    assert_eq!(e.message(), "Task queue full, rejecting new task: 1");
    reject.clear();
    assert!(reject.is_empty());

    let mut priority = BoundedTaskQueue::new(1, EvictionPolicy::Priority);
    priority.push(TaskId(1)).unwrap();
    assert_eq!(priority.push(TaskId(2)).unwrap(), Some(TaskId(1)));
}

#[test]
fn timer_polls() {
    let mut timer = Timer::new(100 * MS, 10);
    assert_eq!(timer.poll_at(10), Some(Some(100 * MS + 10)));
    assert_eq!(timer.poll_at(20), Some(None));
    assert_eq!(timer.poll_at(100 * MS + 10), None);
}

#[test]
fn joins_shared_results_and_blocking() {
    let mut join: JoinAll<u8, i32> = JoinAll::new(vec![1, 2, 3]);
    join.record(0, 1);
    join.record(2, 3);
    assert!(join.is_pending(1));
    assert_eq!(join.take_results(), None);

    let mut join: JoinAll<u8, i32> = JoinAll::new(vec![1, 2]);
    *join.future_mut(0) = 7;
    join.record(1, 20);
    join.record(0, 10);
    assert_eq!(join.take_results(), Some(vec![10, 20]));

    let mut shared = SharedResult::new();
    assert!(!shared.is_completed());
    assert_eq!(shared.try_take(), None);
    shared.set_result("done").unwrap();
    assert!(shared.is_completed());
    assert_eq!(shared.take_result().unwrap(), "done");
    let e = shared.take_result().unwrap_err();
    assert_eq!(e.kind(), ErrorKind::InternalError);

    assert_eq!(BlockingExecutor::block_on_timeout_limit(SEC).unwrap(), SEC);
    assert_eq!(BlockingExecutor::block_on_timeout_limit(400 * SEC).unwrap(), 300 * SEC);
    assert_eq!(BlockingExecutor::block_on_timeout_limit(0).unwrap_err().message(), "Timeout cannot be zero");
    assert_eq!(BlockingExecutor::timed_out_error().message(), "Operation timed out");
    let blocking = BlockingExecutor::new(0);
    assert_eq!(blocking.executor.get_stats(0).active_tasks, 0);
}

/// A task of the simulated secure run loop.
enum SecureJob {
    Sleep(secure::Timer),
    Immediate,
}

/// Runs the secure executor to the end with a simulated clock; gives back
/// how many tasks completed.
fn run_secure(executor: &mut secure::Executor, jobs: &mut Vec<SecureJob>, start: u64) -> usize {
    let mut now = start;
    let mut wakeups: Vec<(u64, secure::TaskId)> = Vec::new();
    let mut completed = 0;
    loop {
        match executor.run_step() {
            secure::RunStep::Stop | secure::RunStep::Finished => break,
            secure::RunStep::Skip => {}
            secure::RunStep::Wait => {
                let (pos, _) = wakeups.iter().enumerate().min_by_key(|(_, w)| w.0).expect("a wake-up is registered");
                let (deadline, id) = wakeups.remove(pos);
                now = now.max(deadline);
                executor.wake_task(id).expect("wake");
            }
            secure::RunStep::Poll(id) => {
                let outcome = match &mut jobs[id.0] {
                    SecureJob::Immediate => secure::PollOutcome::Ready,
                    SecureJob::Sleep(timer) => match timer.poll_at(now) {
                        secure::TimerPoll::Ready => secure::PollOutcome::Ready,
                        secure::TimerPoll::Register(deadline) => {
                            secure::check_timer_deadline(deadline, now).expect("deadline within an hour");
                            wakeups.push((deadline, id));
                            secure::PollOutcome::Pending
                        }
                        secure::TimerPoll::Pending => secure::PollOutcome::Pending,
                    },
                };
                if outcome == secure::PollOutcome::Ready {
                    completed += 1;
                }
                executor.finish_poll(id, outcome);
            }
        }
    }
    completed
}

#[test]
fn test_secure_timer() {
    let mut executor = secure::Executor::new();
    let task = secure::Timer::new(100 * MS, 0).expect("Failed to create timer task");
    let mut jobs = vec![SecureJob::Sleep(task)];
    let _task_id = executor.spawn(0).expect("Failed to spawn task");
    assert_eq!(run_secure(&mut executor, &mut jobs, 0), 1);
}

#[test]
fn test_secure_multiple_timers() {
    let mut executor = secure::Executor::new();
    let mut jobs = Vec::new();
    for i in 0..5u64 {
        let timer = secure::Timer::new(50 * MS * (i + 1), 0).expect("Failed to create counting timer");
        jobs.push(SecureJob::Sleep(timer));
        executor.spawn(0).expect("Failed to spawn counting timer");
    }
    let counter = run_secure(&mut executor, &mut jobs, 0);
    // All 5 timers should have completed
    assert_eq!(counter, 5);
}

#[test]
fn test_secure_immediate_ready() {
    let mut executor = secure::Executor::new();
    let mut jobs = vec![SecureJob::Immediate];
    executor.spawn(0).expect("Failed to spawn immediate task");
    assert_eq!(run_secure(&mut executor, &mut jobs, 0), 1);
}

#[test]
fn executor_spawn_within_one_task_limit() {
    let mut config = AsyncRuntimeConfig::default();
    config.max_concurrent_tasks = 1;
    let mut executor = Executor::with_config(config, 0);
    assert_eq!(executor.spawn(0).unwrap().0, 0);
    assert_eq!(executor.get_stats(0).active_tasks, 1);
    assert_eq!(executor.get_stats(0).queue_size, 1);
}

#[test]
fn block_on_deadline_and_wait() {
    assert_eq!(BlockingExecutor::block_on_deadline(10, 5), 15);
    assert_eq!(BlockingExecutor::block_on_deadline(u64::MAX - 1, 5), u64::MAX);
    assert_eq!(BlockingExecutor::block_on_wait(20, 15), None);
    assert_eq!(BlockingExecutor::block_on_wait(15, 15), None);
    assert_eq!(BlockingExecutor::block_on_wait(10, 15), Some(5));
    assert_eq!(BlockingExecutor::block_on_wait(0, 1_000_000_000), Some(100_000_000));
}

#[test]
fn secure_blocking_deadline_and_wait() {
    assert_eq!(secure::blocking_deadline(10, 5), 15);
    assert_eq!(secure::blocking_deadline(u64::MAX - 1, 5), u64::MAX);
    assert_eq!(secure::blocking_wait(10, 15), Some(5));
    assert_eq!(secure::blocking_wait(15, 15), None);
    assert_eq!(secure::blocking_wait(20, 15), None);
}
