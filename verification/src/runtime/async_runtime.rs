//! The decisions of the async runtime with configurable resource limits: a
//! resource monitor, a bounded ready queue with an eviction policy, and an
//! executor driven step by step.
//!
//! Time is passed in as nanoseconds on a monotonic clock; polling futures,
//! waking, waiting and threads are left to the caller.
use vstd::prelude::*;
use crate::error::{Error, ErrorKind};
use crate::runtime::async_runtime_secure::{duration_debug, duration_debug_text, wrap_inc};
use crate::text::{concat, concat3, concat4, decimal, usize_to_text};

verus! {

/// Configuration for the async runtime with security limits
#[derive(Debug, Clone)]
pub struct AsyncRuntimeConfig {
    /// Maximum number of concurrent tasks (default: 1000)
    pub max_concurrent_tasks: usize,
    /// Maximum task queue size (default: 10000)
    pub max_queue_size: usize,
    /// Global timeout for all operations, in nanoseconds (default: 30s)
    pub global_timeout: u64,
    /// Maximum memory usage per executor in bytes (default: 100MB)
    pub max_memory_usage: usize,
    /// Enable resource monitoring (default: true)
    pub enable_monitoring: bool,
    /// Task eviction policy when limits are reached
    pub eviction_policy: EvictionPolicy,
}

/// Policy for evicting tasks when resource limits are reached
#[derive(Debug, Clone, Copy, PartialEq, Eq, Structural)]
pub enum EvictionPolicy {
    /// First In, First Out - evict oldest tasks
    Fifo,
    /// Reject new tasks when limit is reached
    Reject,
    /// Evict tasks based on priority (evicts as first in, first out)
    Priority,
}

/// Security-specific error types for async runtime
#[derive(Debug, Clone)]
pub enum SecurityError {
    /// Resource exhaustion - too many tasks
    ResourceExhaustion(String),
    /// Timeout exceeded (nanoseconds)
    TimeoutExceeded(u64),
    /// Memory limit exceeded
    MemoryLimitExceeded(usize),
    /// Task queue full
    QueueFull(usize),
    /// Invalid configuration
    InvalidConfig(String),
}

/// The memory counted for each task, in bytes.
pub const TASK_MEMORY: usize = 1024;

impl Default for AsyncRuntimeConfig {
    /// 1000 tasks, a queue of 10000, 30 s, 100 MiB, monitoring on, FIFO
    /// eviction.
    fn default() -> (c: Self)
        ensures
            c.max_concurrent_tasks == 1000,
            c.max_queue_size == 10000,
            c.global_timeout == 30000000000,
            c.max_memory_usage == 104857600,
            c.enable_monitoring,
            c.eviction_policy == EvictionPolicy::Fifo,
    {
        AsyncRuntimeConfig {
            max_concurrent_tasks: 1000,
            max_queue_size: 10000,
            global_timeout: 30000000000,
            max_memory_usage: 104857600,
            enable_monitoring: true,
            eviction_policy: EvictionPolicy::Fifo,
        }
    }
}

/// The message of a limit error: `what: current/max` (and " bytes" for
/// memory).
pub open spec fn limit_message(head: Seq<char>, current: nat, max: nat, tail: Seq<char>) -> Seq<char> {
    head + decimal(current) + "/"@ + decimal(max) + tail
}

/// The message of a timeout error.
pub open spec fn timeout_message(head: Seq<char>, timeout: u64) -> Seq<char> {
    head + duration_debug(timeout)
}

/// `a + b`, wrapping around.
pub open spec fn wrap_add(a: usize, b: usize) -> usize {
    if a + b > usize::MAX {
        (a + b - usize::MAX - 1) as usize
    } else {
        (a + b) as usize
    }
}

/// `a - b`, wrapping around.
pub open spec fn wrap_sub(a: usize, b: usize) -> usize {
    if a >= b {
        (a - b) as usize
    } else {
        (a - b + usize::MAX + 1) as usize
    }
}

/// The time since `start` at `now` (zero if `now` is earlier).
pub open spec fn elapsed(start: u64, now: u64) -> int {
    if now >= start {
        now - start
    } else {
        0
    }
}

/// Resource usage statistics
#[derive(Debug, Clone)]
pub struct ResourceStats {
    pub active_tasks: usize,
    pub queue_size: usize,
    pub memory_usage: usize,
    /// Time since the monitor started, in nanoseconds
    pub uptime: u64,
}

fn limit_error(head: &str, current: usize, max: usize, tail: &str) -> (e: Error)
    ensures
        e.kind == ErrorKind::SecurityError,
        e.message@ == limit_message(head@, current as nat, max as nat, tail@),
{
    let a = usize_to_text(current);
    let b = usize_to_text(max);
    let s = concat4(head, a.as_str(), "/", b.as_str());
    proof {
        reveal_strlit("/");
    }
    Error::security_error(concat(s.as_str(), tail))
}

fn timeout_error(head: &str, timeout: u64) -> (e: Error)
    ensures
        e.kind == ErrorKind::SecurityError,
        e.message@ == timeout_message(head@, timeout),
{
    let d = duration_debug_text(timeout);
    Error::security_error(concat(head, d.as_str()))
}

/// The check of the limits a new task must stay within, with the error for
/// the first one it would break: tasks, queue, memory, then time.
pub open spec fn limits_error(
    tasks: usize,
    queue: usize,
    memory: usize,
    start: u64,
    config: AsyncRuntimeConfig,
    now: u64,
) -> Option<Seq<char>> {
    if tasks >= config.max_concurrent_tasks {
        Some(limit_message("Maximum concurrent tasks exceeded: "@, tasks as nat, config.max_concurrent_tasks as nat, ""@))
    } else if queue >= config.max_queue_size {
        Some(limit_message("Task queue full: "@, queue as nat, config.max_queue_size as nat, ""@))
    } else if memory >= config.max_memory_usage {
        Some(limit_message("Memory limit exceeded: "@, memory as nat, config.max_memory_usage as nat, " bytes"@))
    } else if elapsed(start, now) >= config.global_timeout {
        Some(timeout_message("Global timeout exceeded: "@, config.global_timeout))
    } else {
        None
    }
}

/// What putting a task in the ready queue does and gives back: with room
/// it is appended and counted; a full queue rejects it under the `Reject`
/// policy, and otherwise drops its first task (the count stays) to append
/// it.
pub open spec fn enqueued(
    q: BoundedTaskQueue,
    queued: usize,
    q2: BoundedTaskQueue,
    queued2: usize,
    task_id: TaskId,
    r: Result<(), Error>,
) -> bool {
    &&& q2.bound() == q.bound()
    &&& q2.policy() == q.policy()
    &&& if q.items().len() < q.bound() {
        r is Ok && q2.items() == q.items().push(task_id) && queued2 == wrap_inc(queued)
    } else if q.policy() == EvictionPolicy::Reject {
        (r matches Err(e) && e.kind == ErrorKind::SecurityError && e.message@ == rejected_message(q.bound()))
            && q2.items() == q.items() && queued2 == queued
    } else {
        &&& r is Ok
        &&& q2.items() == (if q.items().len() > 0 {
            q.items().drop_first()
        } else {
            q.items()
        }).push(task_id)
        &&& queued2 == (if q.items().len() > 0 {
            queued
        } else {
            wrap_inc(queued)
        })
    }
}

/// Resource monitor for tracking runtime usage
#[derive(Debug)]
pub struct ResourceMonitor {
    active_tasks: usize,
    queue_size: usize,
    memory_usage: usize,
    start_time: u64,
    config: AsyncRuntimeConfig,
}

impl ResourceMonitor {
    /// Tasks counted as active.
    pub closed spec fn tasks(&self) -> usize {
        self.active_tasks
    }

    /// Tasks counted as queued.
    pub closed spec fn queued(&self) -> usize {
        self.queue_size
    }

    /// Memory counted, in bytes.
    pub closed spec fn memory(&self) -> usize {
        self.memory_usage
    }

    /// When the monitor started.
    pub closed spec fn started(&self) -> u64 {
        self.start_time
    }

    /// The limits watched.
    pub closed spec fn limits(&self) -> AsyncRuntimeConfig {
        self.config
    }

    /// A monitor started at `now` with nothing counted
    pub fn new(config: AsyncRuntimeConfig, now: u64) -> (m: Self)
        ensures
            m.tasks() == 0,
            m.queued() == 0,
            m.memory() == 0,
            m.started() == now,
            m.limits() == config,
    {
        ResourceMonitor { active_tasks: 0, queue_size: 0, memory_usage: 0, start_time: now, config }
    }

    /// Check at `now` whether a new task stays within the limits
    pub fn can_add_task(&self, now: u64) -> (r: Result<(), Error>)
        ensures
            match limits_error(self.tasks(), self.queued(), self.memory(), self.started(), self.limits(), now) {
                Some(m) => r matches Err(e) && e.kind == ErrorKind::SecurityError && e.message@ == m,
                None => r is Ok,
            },
    {
        proof {
            reveal_strlit("");
        }
        if self.active_tasks >= self.config.max_concurrent_tasks {
            return Err(limit_error("Maximum concurrent tasks exceeded: ", self.active_tasks, self.config.max_concurrent_tasks, ""));
        }
        if self.queue_size >= self.config.max_queue_size {
            return Err(limit_error("Task queue full: ", self.queue_size, self.config.max_queue_size, ""));
        }
        if self.memory_usage >= self.config.max_memory_usage {
            return Err(limit_error("Memory limit exceeded: ", self.memory_usage, self.config.max_memory_usage, " bytes"));
        }
        if now.saturating_sub(self.start_time) >= self.config.global_timeout {
            return Err(timeout_error("Global timeout exceeded: ", self.config.global_timeout));
        }
        Ok(())
    }

    /// Reserve a task slot at `now`: counted first, and given back when a
    /// limit is broken
    pub fn reserve_task_slot(&mut self, now: u64) -> (r: Result<(), Error>)
        ensures
            final(self).queued() == old(self).queued(),
            final(self).memory() == old(self).memory(),
            final(self).started() == old(self).started(),
            final(self).limits() == old(self).limits(),
            match limits_error(old(self).tasks(), old(self).queued(), old(self).memory(), old(self).started(), old(self).limits(), now) {
                Some(m) => r matches Err(e) && e.kind == ErrorKind::SecurityError && e.message@ == m && final(self).tasks()
                    == old(self).tasks(),
                None => r is Ok && final(self).tasks() == wrap_inc(old(self).tasks()),
            },
    {
        let previous = self.active_tasks;
        self.active_tasks = self.active_tasks.wrapping_add(1);
        match self.can_add_previous(previous, now) {
            Ok(()) => Ok(()),
            Err(e) => {
                self.active_tasks = previous;
                Err(e)
            },
        }
    }

    /// The limit check with `previous` active tasks.
    fn can_add_previous(&self, previous: usize, now: u64) -> (r: Result<(), Error>)
        ensures
            match limits_error(previous, self.queued(), self.memory(), self.started(), self.limits(), now) {
                Some(m) => r matches Err(e) && e.kind == ErrorKind::SecurityError && e.message@ == m,
                None => r is Ok,
            },
    {
        proof {
            reveal_strlit("");
        }
        if previous >= self.config.max_concurrent_tasks {
            return Err(limit_error("Maximum concurrent tasks exceeded: ", previous, self.config.max_concurrent_tasks, ""));
        }
        if self.queue_size >= self.config.max_queue_size {
            return Err(limit_error("Task queue full: ", self.queue_size, self.config.max_queue_size, ""));
        }
        if self.memory_usage >= self.config.max_memory_usage {
            return Err(limit_error("Memory limit exceeded: ", self.memory_usage, self.config.max_memory_usage, " bytes"));
        }
        if now.saturating_sub(self.start_time) >= self.config.global_timeout {
            return Err(timeout_error("Global timeout exceeded: ", self.config.global_timeout));
        }
        Ok(())
    }

    /// Give back a reserved task slot
    pub fn release_task_slot(&mut self)
        ensures
            final(self).tasks() == wrap_sub(old(self).tasks(), 1),
            final(self).queued() == old(self).queued(),
            final(self).memory() == old(self).memory(),
            final(self).started() == old(self).started(),
            final(self).limits() == old(self).limits(),
    {
        self.active_tasks = self.active_tasks.wrapping_sub(1);
    }

    /// Count a new task and its memory
    pub fn add_task(&mut self)
        ensures
            final(self).tasks() == wrap_inc(old(self).tasks()),
            final(self).memory() == wrap_add(old(self).memory(), TASK_MEMORY),
            final(self).queued() == old(self).queued(),
            final(self).started() == old(self).started(),
            final(self).limits() == old(self).limits(),
    {
        self.active_tasks = self.active_tasks.wrapping_add(1);
        self.memory_usage = self.memory_usage.wrapping_add(TASK_MEMORY);
    }

    /// Count a task and its memory gone
    pub fn remove_task(&mut self)
        ensures
            final(self).tasks() == wrap_sub(old(self).tasks(), 1),
            final(self).memory() == wrap_sub(old(self).memory(), TASK_MEMORY),
            final(self).queued() == old(self).queued(),
            final(self).started() == old(self).started(),
            final(self).limits() == old(self).limits(),
    {
        self.active_tasks = self.active_tasks.wrapping_sub(1);
        self.memory_usage = self.memory_usage.wrapping_sub(TASK_MEMORY);
    }

    /// Count the memory of a spawned task
    pub fn add_memory(&mut self)
        ensures
            final(self).memory() == wrap_add(old(self).memory(), TASK_MEMORY),
            final(self).tasks() == old(self).tasks(),
            final(self).queued() == old(self).queued(),
            final(self).started() == old(self).started(),
            final(self).limits() == old(self).limits(),
    {
        self.memory_usage = self.memory_usage.wrapping_add(TASK_MEMORY);
    }

    /// Count a task queued
    pub fn add_to_queue(&mut self)
        ensures
            final(self).queued() == wrap_inc(old(self).queued()),
            final(self).tasks() == old(self).tasks(),
            final(self).memory() == old(self).memory(),
            final(self).started() == old(self).started(),
            final(self).limits() == old(self).limits(),
    {
        self.queue_size = self.queue_size.wrapping_add(1);
    }

    /// Count a task taken from the queue
    pub fn remove_from_queue(&mut self)
        ensures
            final(self).queued() == wrap_sub(old(self).queued(), 1),
            final(self).tasks() == old(self).tasks(),
            final(self).memory() == old(self).memory(),
            final(self).started() == old(self).started(),
            final(self).limits() == old(self).limits(),
    {
        self.queue_size = self.queue_size.wrapping_sub(1);
    }

    /// Get current resource usage stats at `now`
    pub fn get_stats(&self, now: u64) -> (s: ResourceStats)
        ensures
            s.active_tasks == self.tasks(),
            s.queue_size == self.queued(),
            s.memory_usage == self.memory(),
            s.uptime == elapsed(self.started(), now),
    {
        ResourceStats {
            active_tasks: self.active_tasks,
            queue_size: self.queue_size,
            memory_usage: self.memory_usage,
            uptime: now.saturating_sub(self.start_time),
        }
    }
}

/// Unique identifier for tasks
#[derive(Debug, Clone, Copy, PartialEq, Eq, Hash, Structural)]
pub struct TaskId(pub usize);

/// Bounded task queue with configurable limits
#[derive(Debug)]
pub struct BoundedTaskQueue {
    queue: Vec<TaskId>,
    max_size: usize,
    eviction_policy: EvictionPolicy,
}

/// The message of the error for a rejected task.
pub open spec fn rejected_message(max: usize) -> Seq<char> {
    "Task queue full, rejecting new task: "@ + decimal(max as nat)
}

impl BoundedTaskQueue {
    /// The queued tasks, first to go first.
    pub closed spec fn items(&self) -> Seq<TaskId> {
        self.queue@
    }

    /// The most tasks held.
    pub closed spec fn bound(&self) -> usize {
        self.max_size
    }

    /// What happens to a task that finds the queue full.
    pub closed spec fn policy(&self) -> EvictionPolicy {
        self.eviction_policy
    }

    /// An empty queue
    pub fn new(max_size: usize, policy: EvictionPolicy) -> (q: Self)
        ensures
            q.items() == Seq::<TaskId>::empty(),
            q.bound() == max_size,
            q.policy() == policy,
    {
        BoundedTaskQueue { queue: Vec::new(), max_size, eviction_policy: policy }
    }

    /// Add a task: when the queue is full, the oldest task is evicted and
    /// given back, or the new one is rejected, as the policy says
    pub fn push(&mut self, task_id: TaskId) -> (r: Result<Option<TaskId>, Error>)
        ensures
            final(self).bound() == old(self).bound(),
            final(self).policy() == old(self).policy(),
            old(self).items().len() < old(self).bound() ==> r == Ok::<Option<TaskId>, Error>(None) && final(self).items()
                == old(self).items().push(task_id),
            old(self).items().len() >= old(self).bound() && old(self).policy() == EvictionPolicy::Reject ==> (r matches Err(e)
                && e.kind == ErrorKind::SecurityError && e.message@ == rejected_message(old(self).bound()))
                && final(self).items() == old(self).items(),
            old(self).items().len() >= old(self).bound() && old(self).policy() != EvictionPolicy::Reject ==> ({
                let q = old(self).items();
                &&& r == Ok::<Option<TaskId>, Error>(if q.len() > 0 { Some(q[0]) } else { None })
                &&& final(self).items() == (if q.len() > 0 { q.drop_first() } else { q }).push(task_id)
            }),
    {
        if self.queue.len() >= self.max_size {
            match self.eviction_policy {
                EvictionPolicy::Reject => {
                    let m = usize_to_text(self.max_size);
                    proof {
                        reveal_strlit("Task queue full, rejecting new task: ");
                    }
                    Err(Error::security_error(concat("Task queue full, rejecting new task: ", m.as_str())))
                },
                _ => {
                    let evicted = if self.queue.len() > 0 {
                        Some(self.queue.remove(0))
                    } else {
                        None
                    };
                    self.queue.push(task_id);
                    Ok(evicted)
                },
            }
        } else {
            self.queue.push(task_id);
            Ok(None)
        }
    }

    /// Remove a task from the front of the queue
    pub fn pop(&mut self) -> (r: Option<TaskId>)
        ensures
            old(self).items().len() > 0 ==> r == Some(old(self).items()[0]) && final(self).items() == old(self).items().drop_first(),
            old(self).items().len() == 0 ==> r is None && final(self).items() == old(self).items(),
            final(self).bound() == old(self).bound(),
            final(self).policy() == old(self).policy(),
    {
        if self.queue.len() > 0 {
            Some(self.queue.remove(0))
        } else {
            None
        }
    }

    /// Check if queue is empty
    pub fn is_empty(&self) -> (b: bool)
        ensures
            b == (self.items().len() == 0),
    {
        self.queue.len() == 0
    }

    /// Get current queue size
    pub fn len(&self) -> (n: usize)
        ensures
            n == self.items().len(),
    {
        self.queue.len()
    }

    /// Clear the queue
    pub fn clear(&mut self)
        ensures
            final(self).items() == Seq::<TaskId>::empty(),
            final(self).bound() == old(self).bound(),
            final(self).policy() == old(self).policy(),
    {
        self.queue = Vec::new();
    }
}

/// Task represents an async computation that can be scheduled; its future
/// is held by the caller
#[derive(Debug, Clone, Copy, PartialEq, Eq, Structural)]
pub struct Task {
    /// The task's identifier
    pub id: TaskId,
    /// Set while the task is being polled, to prevent double execution
    pub is_running: bool,
    /// Set once the task completed
    pub is_completed: bool,
}

/// One step of running an executor.
#[derive(Debug, Clone, Copy, PartialEq, Eq, Structural)]
pub enum RunStep {
    /// The executor was shut down: stop running
    Stop,
    /// Every task completed: stop running
    Finished,
    /// No task is ready but some are alive: wait (at most 100 ms) for a
    /// wake-up, then take the next step as resumed
    Wait,
    /// Poll the task with this identifier (it is marked running)
    Poll(TaskId),
    /// The task taken from the queue is gone, done or running: take the
    /// next step
    Skip,
}

/// Whether some position of the table holds a task.
pub open spec fn has_live(tasks: Seq<Option<Task>>) -> bool {
    exists|i: int| 0 <= i < tasks.len() && #[trigger] tasks[i] is Some
}

/// The task at position `id`, if any.
pub open spec fn slot(tasks: Seq<Option<Task>>, id: TaskId) -> Option<Task> {
    if id.0 < tasks.len() {
        tasks[id.0 as int]
    } else {
        None
    }
}

/// The message of the error for the executor's own task limit.
pub open spec fn tasks_reached_message(max: usize) -> Seq<char> {
    "Maximum tasks reached: "@ + decimal(max as nat)
}

/// The async executor's task table, ready queue and resource monitor
pub struct Executor {
    tasks: Vec<Option<Task>>,
    next_id: usize,
    max_tasks: usize,
    ready_queue: BoundedTaskQueue,
    shutdown: bool,
    monitor: ResourceMonitor,
}

impl Executor {
    /// The task table.
    pub closed spec fn table(&self) -> Seq<Option<Task>> {
        self.tasks@
    }

    /// The identifier the next task will get.
    pub closed spec fn next(&self) -> usize {
        self.next_id
    }

    /// The number of tasks this executor accepts over its life.
    pub closed spec fn limit(&self) -> usize {
        self.max_tasks
    }

    /// The ready queue.
    pub closed spec fn queue(&self) -> BoundedTaskQueue {
        self.ready_queue
    }

    /// Whether the executor was shut down.
    pub closed spec fn is_shut(&self) -> bool {
        self.shutdown
    }

    /// The resource monitor.
    pub closed spec fn watch(&self) -> ResourceMonitor {
        self.monitor
    }

    /// Create a new executor with default configuration at time `now`
    pub fn new(now: u64) -> (e: Self)
        ensures
            e.table() == Seq::<Option<Task>>::empty(),
            e.next() == 0,
            e.limit() == 1000,
            e.queue().items() == Seq::<TaskId>::empty(),
            e.queue().bound() == 10000,
            e.queue().policy() == EvictionPolicy::Fifo,
            !e.is_shut(),
            e.watch().tasks() == 0 && e.watch().queued() == 0 && e.watch().memory() == 0,
            e.watch().started() == now,
    {
        Self::with_config(AsyncRuntimeConfig::default(), now)
    }

    /// Create a new executor with custom configuration at time `now`
    pub fn with_config(config: AsyncRuntimeConfig, now: u64) -> (e: Self)
        ensures
            e.table() == Seq::<Option<Task>>::empty(),
            e.next() == 0,
            e.limit() == config.max_concurrent_tasks,
            e.queue().items() == Seq::<TaskId>::empty(),
            e.queue().bound() == config.max_queue_size,
            e.queue().policy() == config.eviction_policy,
            !e.is_shut(),
            e.watch().tasks() == 0 && e.watch().queued() == 0 && e.watch().memory() == 0,
            e.watch().started() == now,
            e.watch().limits() == config,
    {
        let max_tasks = config.max_concurrent_tasks;
        let queue = BoundedTaskQueue::new(config.max_queue_size, config.eviction_policy);
        Executor {
            tasks: Vec::new(),
            next_id: 0,
            max_tasks,
            ready_queue: queue,
            shutdown: false,
            monitor: ResourceMonitor::new(config, now),
        }
    }

    /// Get resource usage statistics at `now`
    pub fn get_stats(&self, now: u64) -> (s: ResourceStats)
        ensures
            s.active_tasks == self.watch().tasks(),
            s.queue_size == self.watch().queued(),
            s.memory_usage == self.watch().memory(),
            s.uptime == elapsed(self.watch().started(), now),
    {
        self.monitor.get_stats(now)
    }

    /// Whether a new task would stay within the limits at `now`
    pub fn is_healthy(&self, now: u64) -> (b: bool)
        ensures
            b == limits_error(
                self.watch().tasks(),
                self.watch().queued(),
                self.watch().memory(),
                self.watch().started(),
                self.watch().limits(),
                now,
            ) is None,
    {
        self.monitor.can_add_task(now).is_ok()
    }

    /// Put a task in the ready queue: refused by the queue's policy when it
    /// is full; an evicted task is not counted again
    fn enqueue(&mut self, task_id: TaskId) -> (r: Result<(), Error>)
        ensures
            final(self).table() == old(self).table(),
            final(self).next() == old(self).next(),
            final(self).limit() == old(self).limit(),
            final(self).is_shut() == old(self).is_shut(),
            final(self).watch().tasks() == old(self).watch().tasks(),
            final(self).watch().memory() == old(self).watch().memory(),
            final(self).watch().started() == old(self).watch().started(),
            final(self).watch().limits() == old(self).watch().limits(),
            enqueued(old(self).queue(), old(self).watch().queued(), final(self).queue(), final(self).watch().queued(), task_id, r),
    {
        match self.ready_queue.push(task_id)? {
            Some(_evicted) => {},
            None => {
                self.monitor.add_to_queue();
            },
        }
        Ok(())
    }

    /// Queue a task at `now`: refused beyond the limits or by the queue's
    /// policy; an evicted task is not counted again
    pub fn wake_task(&mut self, task_id: TaskId, now: u64) -> (r: Result<(), Error>)
        ensures
            final(self).table() == old(self).table(),
            final(self).next() == old(self).next(),
            final(self).limit() == old(self).limit(),
            final(self).is_shut() == old(self).is_shut(),
            final(self).watch().tasks() == old(self).watch().tasks(),
            final(self).watch().memory() == old(self).watch().memory(),
            final(self).watch().started() == old(self).watch().started(),
            final(self).watch().limits() == old(self).watch().limits(),
            ({
                let m = old(self).watch();
                match limits_error(m.tasks(), m.queued(), m.memory(), m.started(), m.limits(), now) {
                    Some(msg) => (r matches Err(e) && e.kind == ErrorKind::SecurityError && e.message@ == msg)
                        && final(self).queue() == old(self).queue() && final(self).watch().queued() == m.queued(),
                    None => enqueued(old(self).queue(), m.queued(), final(self).queue(), final(self).watch().queued(), task_id, r),
                }
            }),
    {
        self.monitor.can_add_task(now)?;
        self.enqueue(task_id)
    }

    /// Spawn a new task at `now`: a slot is reserved within the limits (and
    /// given back when the executor's own limit is reached), the task gets
    /// the next identifier and its memory is counted, and it is queued
    /// under the slot it reserved
    pub fn spawn(&mut self, now: u64) -> (r: Result<TaskId, Error>)
        ensures
            final(self).limit() == old(self).limit(),
            final(self).is_shut() == old(self).is_shut(),
            ({
                let m = old(self).watch();
                match limits_error(m.tasks(), m.queued(), m.memory(), m.started(), m.limits(), now) {
                    Some(msg) => (r matches Err(e) && e.kind == ErrorKind::SecurityError && e.message@ == msg)
                        && *final(self) == *old(self),
                    None => if old(self).next() >= old(self).limit() {
                        (r matches Err(e) && e.kind == ErrorKind::SecurityError && e.message@ == tasks_reached_message(
                            old(self).limit(),
                        )) && final(self).table() == old(self).table() && final(self).next() == old(self).next()
                            && final(self).queue() == old(self).queue() && final(self).watch().tasks() == m.tasks()
                    } else {
                        let id = TaskId(old(self).next());
                        &&& final(self).next() == old(self).next() + 1
                        &&& slot(final(self).table(), id) == Some(
                            Task { id, is_running: false, is_completed: false },
                        )
                        &&& final(self).watch().tasks() == wrap_inc(m.tasks())
                        &&& final(self).watch().memory() == wrap_add(m.memory(), TASK_MEMORY)
                        &&& enqueued(
                            old(self).queue(),
                            m.queued(),
                            final(self).queue(),
                            final(self).watch().queued(),
                            id,
                            match r {
                                Ok(_) => Ok::<(), Error>(()),
                                Err(e) => Err::<(), Error>(e),
                            },
                        )
                        &&& r is Ok ==> r == Ok::<TaskId, Error>(id)
                    },
                }
            }),
    {
        self.monitor.reserve_task_slot(now)?;
        if self.next_id >= self.max_tasks {
            self.monitor.release_task_slot();
            let m = usize_to_text(self.max_tasks);
            proof {
                reveal_strlit("Maximum tasks reached: ");
            }
            return Err(Error::security_error(concat("Maximum tasks reached: ", m.as_str())));
        }
        let task_id = TaskId(self.next_id);
        self.next_id = self.next_id + 1;
        grow_table(&mut self.tasks, task_id.0);
        self.tasks.set(task_id.0, Some(Task { id: task_id, is_running: false, is_completed: false }));
        self.monitor.add_memory();
        match self.enqueue(task_id) {
            Ok(()) => Ok(task_id),
            Err(e) => Err(e),
        }
    }

    /// Whether some task is alive
    fn has_tasks(&self) -> (b: bool)
        ensures
            b == has_live(self.table()),
    {
        let mut i: usize = 0;
        while i < self.tasks.len()
            invariant
                i <= self.tasks@.len(),
                forall|j: int| 0 <= j < i ==> self.tasks@[j] is None,
            decreases self.tasks@.len() - i,
        {
            if self.tasks[i].is_some() {
                return true;
            }
            i = i + 1;
        }
        false
    }

    /// Decide the next step of running the executor at `now`; `resumed`
    /// after a wait. Running stops on shutdown, finishes when no task is
    /// alive, fails once the global timeout has passed, and else takes the
    /// first ready task to poll
    pub fn run_step(&mut self, now: u64, resumed: bool) -> (r: Result<RunStep, Error>)
        ensures
            run_step_result(*old(self), *final(self), now, resumed, r),
    {
        let t = self.monitor.config.global_timeout;
        let late = now.saturating_sub(self.monitor.start_time) >= t;
        if !resumed {
            if self.shutdown {
                return Ok(RunStep::Stop);
            }
            if late {
                return Err(timeout_error("Global timeout exceeded: ", t));
            }
        }
        if self.ready_queue.is_empty() && !self.shutdown {
            if !self.has_tasks() {
                return Ok(RunStep::Finished);
            }
            if late {
                return Err(timeout_error("Global timeout exceeded while waiting for tasks: ", t));
            }
            return Ok(RunStep::Wait);
        }
        if self.shutdown {
            return Ok(RunStep::Stop);
        }
        match self.ready_queue.pop() {
            Some(id) => {
                self.monitor.remove_from_queue();
                if id.0 < self.tasks.len() {
                    match self.tasks[id.0] {
                        Some(task) => {
                            if late {
                                return Err(timeout_error("Global timeout exceeded before executing task: ", t));
                            }
                            if task.is_completed || task.is_running {
                                return Ok(RunStep::Skip);
                            }
                            self.tasks.set(id.0, Some(Task { id: task.id, is_running: true, is_completed: false }));
                            Ok(RunStep::Poll(id))
                        },
                        None => Ok(RunStep::Skip),
                    }
                } else {
                    Ok(RunStep::Skip)
                }
            },
            None => Ok(RunStep::Skip),
        }
    }

    /// Record what polling a task gave: a completed task leaves the table
    /// and the monitor; a pending one is no longer running
    pub fn finish_poll(&mut self, task_id: TaskId, ready: bool)
        requires
            task_id.0 < old(self).table().len(),
        ensures
            final(self).next() == old(self).next(),
            final(self).limit() == old(self).limit(),
            final(self).queue() == old(self).queue(),
            final(self).is_shut() == old(self).is_shut(),
            ready ==> final(self).table() == old(self).table().update(task_id.0 as int, None) && final(self).watch().tasks()
                == wrap_sub(old(self).watch().tasks(), 1) && final(self).watch().memory() == wrap_sub(
                old(self).watch().memory(),
                TASK_MEMORY,
            ) && final(self).watch().queued() == old(self).watch().queued(),
            !ready ==> final(self).watch() == old(self).watch() && final(self).table() == match old(self).table()[task_id.0 as int] {
                Some(t) => old(self).table().update(
                    task_id.0 as int,
                    Some(Task { id: t.id, is_running: false, is_completed: t.is_completed }),
                ),
                None => old(self).table(),
            },
    {
        if ready {
            self.tasks.set(task_id.0, None);
            self.monitor.remove_task();
        } else {
            if let Some(t) = self.tasks[task_id.0] {
                self.tasks.set(task_id.0, Some(Task { id: t.id, is_running: false, is_completed: t.is_completed }));
            }
        }
    }

    /// Shutdown the executor: the ready queue is cleared
    pub fn shutdown(&mut self)
        ensures
            final(self).is_shut(),
            final(self).queue().items() == Seq::<TaskId>::empty(),
            final(self).queue().bound() == old(self).queue().bound(),
            final(self).queue().policy() == old(self).queue().policy(),
            final(self).table() == old(self).table(),
            final(self).next() == old(self).next(),
            final(self).limit() == old(self).limit(),
            final(self).watch() == old(self).watch(),
    {
        self.shutdown = true;
        self.ready_queue.clear();
    }
}

/// What a step of running gives (see `Executor::run_step`).
pub open spec fn run_step_result(b: Executor, a: Executor, now: u64, resumed: bool, r: Result<RunStep, Error>) -> bool {
    let t = b.watch().limits().global_timeout;
    let late = elapsed(b.watch().started(), now) >= t;
    if !resumed && b.is_shut() {
        r == Ok::<RunStep, Error>(RunStep::Stop) && a == b
    } else if !resumed && late {
        (r matches Err(e) && e.kind == ErrorKind::SecurityError && e.message@ == timeout_message(
            "Global timeout exceeded: "@,
            t,
        )) && a == b
    } else if b.queue().items().len() == 0 && !b.is_shut() {
        if !has_live(b.table()) {
            r == Ok::<RunStep, Error>(RunStep::Finished) && a == b
        } else if late {
            (r matches Err(e) && e.kind == ErrorKind::SecurityError && e.message@ == timeout_message(
                "Global timeout exceeded while waiting for tasks: "@,
                t,
            )) && a == b
        } else {
            r == Ok::<RunStep, Error>(RunStep::Wait) && a == b
        }
    } else if b.is_shut() {
        r == Ok::<RunStep, Error>(RunStep::Stop) && a == b
    } else {
        let id = b.queue().items()[0];
        &&& a.queue().items() == b.queue().items().drop_first()
        &&& a.queue().bound() == b.queue().bound()
        &&& a.queue().policy() == b.queue().policy()
        &&& a.watch().queued() == wrap_sub(b.watch().queued(), 1)
        &&& a.watch().tasks() == b.watch().tasks()
        &&& a.watch().memory() == b.watch().memory()
        &&& a.watch().started() == b.watch().started()
        &&& a.watch().limits() == b.watch().limits()
        &&& a.next() == b.next() && a.limit() == b.limit() && a.is_shut() == b.is_shut()
        &&& match slot(b.table(), id) {
            Some(task) => if late {
                (r matches Err(e) && e.kind == ErrorKind::SecurityError && e.message@ == timeout_message(
                    "Global timeout exceeded before executing task: "@,
                    t,
                )) && a.table() == b.table()
            } else if task.is_completed || task.is_running {
                r == Ok::<RunStep, Error>(RunStep::Skip) && a.table() == b.table()
            } else {
                r == Ok::<RunStep, Error>(RunStep::Poll(id)) && a.table() == b.table().update(
                    id.0 as int,
                    Some(Task { id: task.id, is_running: true, is_completed: false }),
                )
            },
            None => r == Ok::<RunStep, Error>(RunStep::Skip) && a.table() == b.table(),
        }
    }
}

/// Grows a task table to hold position `id` (new positions empty).
fn grow_table(tasks: &mut Vec<Option<Task>>, id: usize)
    ensures
        final(tasks)@.len() == if id < old(tasks)@.len() {
            old(tasks)@.len() as int
        } else {
            id + 1
        },
        forall|i: int| 0 <= i < old(tasks)@.len() ==> final(tasks)@[i] == old(tasks)@[i],
        forall|i: int| old(tasks)@.len() <= i < final(tasks)@.len() ==> final(tasks)@[i] is None,
{
    let ghost before = tasks@;
    while tasks.len() <= id
        invariant
            before.len() <= tasks@.len() <= if id < before.len() {
                before.len() as int
            } else {
                id + 1
            },
            forall|i: int| 0 <= i < before.len() ==> tasks@[i] == before[i],
            forall|i: int| before.len() <= i < tasks@.len() ==> tasks@[i] is None,
        decreases id + 1 - tasks@.len(),
    {
        tasks.push(None);
    }
}

/// A simple async timer: a deadline, and whether a wake-up was registered
pub struct Timer {
    deadline: u64,
    registered: bool,
}

impl Timer {
    /// The time the timer fires, in nanoseconds.
    pub closed spec fn fires_at(&self) -> u64 {
        self.deadline
    }

    /// Whether a wake-up was registered.
    pub closed spec fn is_registered(&self) -> bool {
        self.registered
    }

    /// A timer firing `duration` nanoseconds after `now`
    pub fn new(duration: u64, now: u64) -> (t: Self)
        requires
            now + duration <= u64::MAX,
        ensures
            t.fires_at() == now + duration,
            !t.is_registered(),
    {
        Timer { deadline: now + duration, registered: false }
    }

    /// Poll the timer at `now`: ready once the deadline has passed, else
    /// ask once for a wake-up at the deadline (given back), after that
    /// pending (none)
    pub fn poll_at(&mut self, now: u64) -> (r: Option<Option<u64>>)
        ensures
            final(self).fires_at() == old(self).fires_at(),
            now >= old(self).fires_at() ==> r == None::<Option<u64>> && final(self).is_registered() == old(self).is_registered(),
            now < old(self).fires_at() && !old(self).is_registered() ==> r == Some(Some(old(self).fires_at()))
                && final(self).is_registered(),
            now < old(self).fires_at() && old(self).is_registered() ==> r == Some(None::<u64>) && final(self).is_registered(),
    {
        if now >= self.deadline {
            None
        } else if !self.registered {
            self.registered = true;
            Some(Some(self.deadline))
        } else {
            Some(None)
        }
    }
}

/// Join of several futures: a result slot for each, filled as they finish
pub struct JoinAll<F, T> {
    futures: Vec<F>,
    results: Vec<Option<T>>,
}

impl<F, T> JoinAll<F, T> {
    /// The futures joined.
    pub closed spec fn joined(&self) -> Seq<F> {
        self.futures@
    }

    /// The result of each future, once it finished.
    pub closed spec fn slots(&self) -> Seq<Option<T>> {
        self.results@
    }

    /// Join the given futures
    pub fn new(futures: Vec<F>) -> (j: Self)
        ensures
            j.joined() == futures@,
            j.slots() == Seq::new(futures@.len(), |i: int| None::<T>),
    {
        let len = futures.len();
        let mut results: Vec<Option<T>> = Vec::new();
        let mut i: usize = 0;
        while i < len
            invariant
                i <= len,
                results@ == Seq::new(i as nat, |k: int| None::<T>),
            decreases len - i,
        {
            results.push(None);
            i = i + 1;
            assert(results@ =~= Seq::new(i as nat, |k: int| None::<T>));
        }
        JoinAll { futures, results }
    }

    /// The future at position `i`, to poll it
    pub fn future_mut(&mut self, i: usize) -> (f: &mut F)
        requires
            i < old(self).joined().len(),
        ensures
            *f == old(self).joined()[i as int],
            final(self).joined() == old(self).joined().update(i as int, *final(f)),
            final(self).slots() == old(self).slots(),
    {
        &mut self.futures[i]
    }

    /// Record the result of the future at position `i`
    pub fn record(&mut self, i: usize, value: T)
        requires
            i < old(self).slots().len(),
        ensures
            final(self).slots() == old(self).slots().update(i as int, Some(value)),
            final(self).joined() == old(self).joined(),
    {
        self.results.set(i, Some(value));
    }

    /// Whether the future at position `i` has no result yet
    pub fn is_pending(&self, i: usize) -> (b: bool)
        requires
            i < self.slots().len(),
        ensures
            b == self.slots()[i as int] is None,
    {
        self.results[i].is_none()
    }

    /// Take the results in the order of the futures when every future has
    /// one; the slots are emptied either way
    pub fn take_results(&mut self) -> (r: Option<Vec<T>>)
        ensures
            final(self).slots() == Seq::<Option<T>>::empty(),
            final(self).joined() == old(self).joined(),
            (forall|i: int| 0 <= i < old(self).slots().len() ==> #[trigger] old(self).slots()[i] is Some) ==> (r matches Some(
                v,
            ) && v@.len() == old(self).slots().len() && forall|i: int| 0 <= i < v@.len() ==> old(self).slots()[i] == Some(
                #[trigger] v@[i],
            )),
            !(forall|i: int| 0 <= i < old(self).slots().len() ==> #[trigger] old(self).slots()[i] is Some) ==> r is None,
    {
        let mut slots: Vec<Option<T>> = Vec::new();
        std::mem::swap(&mut slots, &mut self.results);
        collect_all(slots)
    }
}

/// Every value of `slots` in order, when none is missing.
fn collect_all<T>(input: Vec<Option<T>>) -> (r: Option<Vec<T>>)
    ensures
        (forall|i: int| 0 <= i < input@.len() ==> #[trigger] input@[i] is Some) ==> (r matches Some(v) && v@.len()
            == input@.len() && forall|i: int| 0 <= i < v@.len() ==> input@[i] == Some(#[trigger] v@[i])),
        !(forall|i: int| 0 <= i < input@.len() ==> #[trigger] input@[i] is Some) ==> r is None,
{
    let total = input.len();
    let mut j: usize = 0;
    while j < total
        invariant
            total == input@.len(),
            j <= total,
            forall|k: int| 0 <= k < j ==> #[trigger] input@[k] is Some,
        decreases total - j,
    {
        if input[j].is_none() {
            return None;
        }
        j = j + 1;
    }
    let ghost all = input@;
    let mut slots = input;
    assert(all.subrange(0, all.len() as int) =~= all);
    let mut out: Vec<T> = Vec::new();
    let mut i: usize = 0;
    while slots.len() > 0
        invariant
            total == all.len(),
            forall|k: int| 0 <= k < all.len() ==> #[trigger] all[k] is Some,
            i + slots@.len() == all.len(),
            slots@ == all.subrange(i as int, all.len() as int),
            out@.len() == i,
            forall|k: int| 0 <= k < i ==> all[k] == Some(#[trigger] out@[k]),
        decreases slots@.len(),
    {
        let v = slots.remove(0);
        assert(v == all[i as int]);
        assert(all[i as int] is Some);
        match v {
            Some(x) => out.push(x),
            None => {},
        }
        i = i + 1;
        assert(slots@ =~= all.subrange(i as int, all.len() as int));
    }
    Some(out)
}

/// Result storage for a blocking operation
pub struct SharedResult<T> {
    result: Option<T>,
    completed: bool,
}

impl<T> SharedResult<T> {
    /// The stored result, if any.
    pub closed spec fn stored(&self) -> Option<T> {
        self.result
    }

    /// Whether a result was set.
    pub closed spec fn done(&self) -> bool {
        self.completed
    }

    /// Create a new shared result storage
    pub fn new() -> (s: Self)
        ensures
            s.stored() is None,
            !s.done(),
    {
        SharedResult { result: None, completed: false }
    }

    /// Store the result and mark completion
    pub fn set_result(&mut self, value: T) -> (r: Result<(), Error>)
        ensures
            r is Ok,
            final(self).stored() == Some(value),
            final(self).done(),
    {
        self.result = Some(value);
        self.completed = true;
        Ok(())
    }

    /// Take the result once the wait is over; none is an internal error
    pub fn take_result(&mut self) -> (r: Result<T, Error>)
        ensures
            match old(self).stored() {
                Some(v) => r == Ok::<T, Error>(v),
                None => r matches Err(e) && e.kind == ErrorKind::InternalError && e.message@
                    == "Shared result was empty after wait completed"@,
            },
            final(self).stored() is None,
            final(self).done() == old(self).done(),
    {
        match self.result.take() {
            Some(v) => Ok(v),
            None => Err(Error::internal("Shared result was empty after wait completed")),
        }
    }

    /// Take the result if there is one
    pub fn try_take(&mut self) -> (r: Option<T>)
        ensures
            r == old(self).stored(),
            final(self).stored() is None,
            final(self).done() == old(self).done(),
    {
        self.result.take()
    }

    /// Check if the operation has completed
    pub fn is_completed(&self) -> (b: bool)
        ensures
            b == self.done(),
    {
        self.completed
    }
}

/// The longest `block_on_timeout` waits: five minutes, in nanoseconds.
pub const MAX_BLOCK_TIMEOUT_NS: u64 = 300000000000;

/// The timeout of `block_on`: 30 seconds, in nanoseconds.
pub const BLOCK_ON_TIMEOUT_NS: u64 = 30000000000;

/// How long `block_on_timeout` sleeps at most between looks (100 ms).
pub const BLOCK_ON_POLL_NS: u64 = 100000000;

/// A specialized executor for blocking operations
pub struct BlockingExecutor {
    /// The task table, ready queue and monitor
    pub executor: Executor,
}

impl BlockingExecutor {
    /// Create a new blocking executor with the default configuration at
    /// time `now`
    pub fn new(now: u64) -> (b: Self)
        ensures
            b.executor.table() == Seq::<Option<Task>>::empty(),
            b.executor.next() == 0,
            !b.executor.is_shut(),
            b.executor.watch().started() == now,
    {
        BlockingExecutor { executor: Executor::new(now) }
    }

    /// The time `block_on_timeout` waits for a timeout (in nanoseconds):
    /// zero is refused, and more than five minutes is capped
    pub fn block_on_timeout_limit(timeout: u64) -> (r: Result<u64, Error>)
        ensures
            timeout == 0 ==> (r matches Err(e) && e.kind == ErrorKind::SecurityError && e.message@
                == "Timeout cannot be zero"@),
            timeout > 0 ==> r == Ok::<u64, Error>(if timeout > MAX_BLOCK_TIMEOUT_NS { MAX_BLOCK_TIMEOUT_NS } else { timeout }),
    {
        if timeout == 0 {
            return Err(Error::security_error(String::from_str("Timeout cannot be zero")));
        }
        if timeout > MAX_BLOCK_TIMEOUT_NS {
            Ok(MAX_BLOCK_TIMEOUT_NS)
        } else {
            Ok(timeout)
        }
    }

    /// The deadline of a wait of `limit` nanoseconds that starts at `now`
    /// (the latest time there is, where the sum does not fit).
    pub fn block_on_deadline(now: u64, limit: u64) -> (d: u64)
        ensures
            d == if now + limit > u64::MAX { u64::MAX as int } else { now + limit },
    {
        match now.checked_add(limit) {
            Some(d) => d,
            None => u64::MAX,
        }
    }

    /// What `block_on_timeout` does when no task is ready at `now`: `None`
    /// when the deadline has passed (the operation timed out), or else how
    /// long to sleep before looking again, at most the poll interval.
    pub fn block_on_wait(now: u64, deadline: u64) -> (r: Option<u64>)
        ensures
            now >= deadline ==> r is None,
            now < deadline ==> r == Some(
                if deadline - now > BLOCK_ON_POLL_NS { BLOCK_ON_POLL_NS as int } else { deadline - now } as u64,
            ),
    {
        if now >= deadline {
            None
        } else if deadline - now > BLOCK_ON_POLL_NS {
            Some(BLOCK_ON_POLL_NS)
        } else {
            Some(deadline - now)
        }
    }

    /// The error of `block_on` when the operation timed out
    pub fn timed_out_error() -> (e: Error)
        ensures
            e.kind == ErrorKind::SecurityError,
            e.message@ == "Operation timed out"@,
    {
        Error::security_error(String::from_str("Operation timed out"))
    }
}

} // verus!
