//! The decisions of the async runtime with hard resource limits: task
//! identifiers, the task table and ready queue of an executor, timers and
//! their queue, joins and shared results.
//!
//! Time is passed in as nanoseconds on a monotonic clock; polling futures,
//! waking, waiting and threads are left to the caller, which drives the
//! executor step by step.
use vstd::prelude::*;
use crate::text::{concat, concat3, copy_text, decimal, usize_to_text};

verus! {

/// Maximum number of tasks to prevent resource exhaustion
pub const MAX_TASKS: usize = 100000;

/// Maximum timer duration to prevent infinite blocking: one hour, in
/// nanoseconds
pub const MAX_TIMER_DURATION_NS: u64 = 3600000000000;

/// The task limit of a blocking executor
pub const BLOCKING_MAX_TASKS: usize = 1000;

/// The default timeout of `block_on`: five minutes, in nanoseconds
pub const BLOCK_ON_TIMEOUT_NS: u64 = 300000000000;

/// The deadline of a blocking run started at `now` that may last
/// `timeout`: their sum, or the largest time when that does not fit.
pub fn blocking_deadline(now: u64, timeout: u64) -> (d: u64)
    ensures
        d == if now + timeout > u64::MAX { u64::MAX as int } else { now + timeout },
{
    match now.checked_add(timeout) {
        Some(d) => d,
        None => u64::MAX,
    }
}

/// What a blocking run does at `now` when no task is ready: `None` once
/// the deadline has passed (the run timed out), or else how long to wait
/// for a wake-up, the time left.
pub fn blocking_wait(now: u64, deadline: u64) -> (r: Option<u64>)
    ensures
        now >= deadline ==> r is None,
        now < deadline ==> r == Some((deadline - now) as u64),
{
    if now >= deadline {
        None
    } else {
        Some(deadline - now)
    }
}

/// The timeout of the timer queue when it holds no timer: one minute, in
/// nanoseconds
pub const IDLE_TIMER_TIMEOUT_NS: u64 = 60000000000;

/// Unique identifier for tasks with validation
#[derive(Debug, Clone, Copy, PartialEq, Eq, Hash, Structural)]
pub struct TaskId(pub usize);

/// Comprehensive error types for async runtime operations
#[derive(Debug, Clone)]
pub enum AsyncRuntimeError {
    /// A mutex was poisoned and could not be locked
    PoisonedMutex(String),
    /// Task limit exceeded
    TaskLimitExceeded { limit: usize, attempted: usize },
    /// Timer duration invalid (in nanoseconds)
    InvalidTimerDuration(u64),
    /// Executor shutdown during operation
    ExecutorShutdown,
    /// Thread join failed
    ThreadJoinFailed,
    /// Task not found
    TaskNotFound(TaskId),
    /// Operation timeout
    OperationTimeout,
    /// Resource exhaustion
    ResourceExhaustion(String),
    /// Invalid task state
    InvalidTaskState(String),
}

/// Secure result type for async operations
pub type AsyncResult<T> = Result<T, AsyncRuntimeError>;

/// The debug rendering of a duration given in nanoseconds.
pub uninterp spec fn duration_debug(nanos: u64) -> Seq<char>;

/// Renders a duration of `nanos` nanoseconds with the `Debug` format of
/// `std::time::Duration`.
#[verifier::external_body]
pub(crate) fn duration_debug_text(nanos: u64) -> (s: String)
    ensures
        s@ == duration_debug(nanos),
{
    format!("{:?}", std::time::Duration::from_nanos(nanos))
}

/// The message of an error.
pub open spec fn error_message(e: AsyncRuntimeError) -> Seq<char> {
    match e {
        AsyncRuntimeError::PoisonedMutex(m) => "Mutex poisoned: "@ + m@,
        AsyncRuntimeError::TaskLimitExceeded { limit, attempted } => "Task limit exceeded: attempted "@ + decimal(
            attempted as nat,
        ) + ", limit "@ + decimal(limit as nat),
        AsyncRuntimeError::InvalidTimerDuration(d) => "Invalid timer duration: "@ + duration_debug(d),
        AsyncRuntimeError::ExecutorShutdown => "Executor has been shut down"@,
        AsyncRuntimeError::ThreadJoinFailed => "Failed to join thread"@,
        AsyncRuntimeError::TaskNotFound(id) => "Task not found: TaskId("@ + decimal(id.0 as nat) + ")"@,
        AsyncRuntimeError::OperationTimeout => "Operation timed out"@,
        AsyncRuntimeError::ResourceExhaustion(m) => "Resource exhaustion: "@ + m@,
        AsyncRuntimeError::InvalidTaskState(m) => "Invalid task state: "@ + m@,
    }
}

impl AsyncRuntimeError {
    /// The message of this error
    pub fn to_string(&self) -> (s: String)
        ensures
            s@ == error_message(*self),
    {
        proof {
            reveal_strlit("Mutex poisoned: ");
            reveal_strlit("Task limit exceeded: attempted ");
            reveal_strlit(", limit ");
            reveal_strlit("Invalid timer duration: ");
            reveal_strlit("Executor has been shut down");
            reveal_strlit("Failed to join thread");
            reveal_strlit("Task not found: TaskId(");
            reveal_strlit(")");
            reveal_strlit("Operation timed out");
            reveal_strlit("Resource exhaustion: ");
            reveal_strlit("Invalid task state: ");
        }
        match self {
            AsyncRuntimeError::PoisonedMutex(m) => concat("Mutex poisoned: ", m.as_str()),
            AsyncRuntimeError::TaskLimitExceeded { limit, attempted } => {
                let a = usize_to_text(*attempted);
                let l = usize_to_text(*limit);
                let s = concat3("Task limit exceeded: attempted ", a.as_str(), ", limit ");
                concat(s.as_str(), l.as_str())
            },
            AsyncRuntimeError::InvalidTimerDuration(d) => {
                let t = duration_debug_text(*d);
                concat("Invalid timer duration: ", t.as_str())
            },
            AsyncRuntimeError::ExecutorShutdown => String::from_str("Executor has been shut down"),
            AsyncRuntimeError::ThreadJoinFailed => String::from_str("Failed to join thread"),
            AsyncRuntimeError::TaskNotFound(id) => {
                let n = usize_to_text(id.0);
                concat3("Task not found: TaskId(", n.as_str(), ")")
            },
            AsyncRuntimeError::OperationTimeout => String::from_str("Operation timed out"),
            AsyncRuntimeError::ResourceExhaustion(m) => concat("Resource exhaustion: ", m.as_str()),
            AsyncRuntimeError::InvalidTaskState(m) => concat("Invalid task state: ", m.as_str()),
        }
    }
}

impl TaskId {
    /// Checks the identifier against the task limit
    pub fn validate(&self) -> (r: AsyncResult<()>)
        ensures
            self.0 >= MAX_TASKS ==> (r matches Err(AsyncRuntimeError::TaskLimitExceeded { limit, attempted })
                && limit == MAX_TASKS && attempted == self.0),
            self.0 < MAX_TASKS ==> r is Ok,
    {
        if self.0 >= MAX_TASKS {
            Err(AsyncRuntimeError::TaskLimitExceeded { limit: MAX_TASKS, attempted: self.0 })
        } else {
            Ok(())
        }
    }
}

/// Task state tracking for debugging and monitoring
#[derive(Debug, Clone, Copy, PartialEq, Eq, Structural)]
pub enum TaskState {
    Created,
    Running,
    Completed,
    Failed,
}

/// The code a task state is stored as.
pub open spec fn state_code(s: TaskState) -> u8 {
    match s {
        TaskState::Created => 0,
        TaskState::Running => 1,
        TaskState::Completed => 2,
        TaskState::Failed => 3,
    }
}

impl TaskState {
    /// The code this state is stored as
    pub fn code(&self) -> (c: u8)
        ensures
            c == state_code(*self),
    {
        match self {
            TaskState::Created => 0,
            TaskState::Running => 1,
            TaskState::Completed => 2,
            TaskState::Failed => 3,
        }
    }

    /// The state a stored code stands for; an unknown code reads as failed
    pub fn from_code(c: u8) -> (s: TaskState)
        ensures
            c <= 3 ==> state_code(s) == c,
            c > 3 ==> s == TaskState::Failed,
    {
        if c == 0 {
            TaskState::Created
        } else if c == 1 {
            TaskState::Running
        } else if c == 2 {
            TaskState::Completed
        } else {
            TaskState::Failed
        }
    }
}

/// Task represents an async computation that can be scheduled; its future
/// is held by the caller
#[derive(Debug, Clone, Copy, PartialEq, Eq, Structural)]
pub struct Task {
    /// The task's identifier
    pub id: TaskId,
    /// Creation time, in nanoseconds
    pub created_at: u64,
    /// The current state
    pub state: TaskState,
}

impl Task {
    /// Create a new task with validation
    pub fn new(id: TaskId, now: u64) -> (r: AsyncResult<Task>)
        ensures
            id.0 >= MAX_TASKS ==> (r matches Err(AsyncRuntimeError::TaskLimitExceeded { limit, attempted })
                && limit == MAX_TASKS && attempted == id.0),
            id.0 < MAX_TASKS ==> r == Ok::<Task, AsyncRuntimeError>(
                Task { id, created_at: now, state: TaskState::Created },
            ),
    {
        id.validate()?;
        Ok(Task { id, created_at: now, state: TaskState::Created })
    }

    /// How long the task has existed at `now` (zero for an earlier `now`)
    pub fn age(&self, now: u64) -> (a: u64)
        ensures
            a == if now >= self.created_at {
                now - self.created_at
            } else {
                0
            },
    {
        now.saturating_sub(self.created_at)
    }

    /// Get the current state
    pub fn state(&self) -> (s: TaskState)
        ensures
            s == self.state,
    {
        self.state
    }
}

/// A counter after one more, wrapping around to zero.
pub open spec fn wrap_inc(n: usize) -> usize {
    if n == usize::MAX {
        0
    } else {
        (n + 1) as usize
    }
}

/// The task table after growing it to hold position `id` (new positions
/// empty).
pub open spec fn grown(tasks: Seq<Option<Task>>, id: int) -> Seq<Option<Task>> {
    if id < tasks.len() {
        tasks
    } else {
        tasks + Seq::new((id + 1 - tasks.len()) as nat, |i: int| None::<Task>)
    }
}

/// Whether some position of the table holds a task.
pub open spec fn has_live(tasks: Seq<Option<Task>>) -> bool {
    exists|i: int| 0 <= i < tasks.len() && #[trigger] tasks[i] is Some
}

/// The number of positions of the table that hold a task.
pub open spec fn live_count(tasks: Seq<Option<Task>>) -> nat
    decreases tasks.len(),
{
    if tasks.len() == 0 {
        0
    } else {
        live_count(tasks.drop_last()) + if tasks.last() is Some {
            1nat
        } else {
            0nat
        }
    }
}

/// Grows a task table to hold position `id`.
fn grow_table(tasks: &mut Vec<Option<Task>>, id: usize)
    ensures
        final(tasks)@ == grown(old(tasks)@, id as int),
{
    let ghost before = tasks@;
    while tasks.len() <= id
        invariant
            before.len() <= tasks@.len() <= if id < before.len() {
                before.len() as int
            } else {
                id + 1
            },
            tasks@ == before + Seq::new((tasks@.len() - before.len()) as nat, |i: int| None::<Task>),
        decreases id + 1 - tasks@.len(),
    {
        tasks.push(None);
        assert(tasks@ =~= before + Seq::new((tasks@.len() - before.len()) as nat, |i: int| None::<Task>));
    }
    assert(tasks@ =~= grown(before, id as int));
}

/// One step of running an executor.
#[derive(Debug, Clone, Copy, PartialEq, Eq, Structural)]
pub enum RunStep {
    /// The executor was shut down: stop running
    Stop,
    /// Every task completed: stop running
    Finished,
    /// No task is ready but some are alive: wait for a wake-up
    Wait,
    /// Poll the task with this identifier
    Poll(TaskId),
    /// The task taken from the queue is gone: take the next
    Skip,
}

/// What polling a task gave.
#[derive(Debug, Clone, Copy, PartialEq, Eq, Structural)]
pub enum PollOutcome {
    /// The task completed
    Ready,
    /// The task is not done; it is queued again when woken
    Pending,
    /// Polling the task failed
    Failed,
}

/// The secure async executor's task table and ready queue
pub struct Executor {
    tasks: Vec<Option<Task>>,
    next_id: usize,
    max_tasks: usize,
    ready_queue: Vec<TaskId>,
    shutdown: bool,
    task_count: usize,
    error_count: usize,
}

impl Executor {
    /// The task table: the task with each identifier, while it lives.
    pub closed spec fn table(&self) -> Seq<Option<Task>> {
        self.tasks@
    }

    /// The identifiers of the tasks ready to be polled, in order.
    pub closed spec fn ready(&self) -> Seq<TaskId> {
        self.ready_queue@
    }

    /// The identifier the next task will get.
    pub closed spec fn next(&self) -> usize {
        self.next_id
    }

    /// The number of tasks this executor accepts over its life.
    pub closed spec fn limit(&self) -> usize {
        self.max_tasks
    }

    /// Whether the executor was shut down.
    pub closed spec fn is_shut(&self) -> bool {
        self.shutdown
    }

    /// The number of tasks spawned (wrapping).
    pub closed spec fn spawned(&self) -> usize {
        self.task_count
    }

    /// The number of tasks that failed (wrapping).
    pub closed spec fn failures(&self) -> usize {
        self.error_count
    }

    /// Create a new executor with the default task limit
    pub fn new() -> (e: Self)
        ensures
            e.limit() == MAX_TASKS,
            e.table() == Seq::<Option<Task>>::empty(),
            e.ready() == Seq::<TaskId>::empty(),
            e.next() == 0,
            !e.is_shut(),
            e.spawned() == 0,
            e.failures() == 0,
    {
        Self::with_max_tasks(MAX_TASKS)
    }

    /// Create a new executor with custom task limit
    pub fn with_max_tasks(max_tasks: usize) -> (e: Self)
        ensures
            e.limit() == max_tasks,
            e.table() == Seq::<Option<Task>>::empty(),
            e.ready() == Seq::<TaskId>::empty(),
            e.next() == 0,
            !e.is_shut(),
            e.spawned() == 0,
            e.failures() == 0,
    {
        Executor {
            tasks: Vec::new(),
            next_id: 0,
            max_tasks,
            ready_queue: Vec::new(),
            shutdown: false,
            task_count: 0,
            error_count: 0,
        }
    }

    /// Queue a task to be polled
    pub fn wake_task(&mut self, task_id: TaskId) -> (r: AsyncResult<()>)
        ensures
            old(self).is_shut() ==> (r matches Err(AsyncRuntimeError::ExecutorShutdown)) && final(self).ready()
                == old(self).ready(),
            !old(self).is_shut() && old(self).ready().len() >= MAX_TASKS ==> (r matches Err(
                AsyncRuntimeError::ResourceExhaustion(m),
            ) && m@ == "Ready queue is full"@) && final(self).ready() == old(self).ready(),
            !old(self).is_shut() && old(self).ready().len() < MAX_TASKS ==> r is Ok && final(self).ready() == old(self).ready().push(task_id),
            final(self).table() == old(self).table(),
            final(self).next() == old(self).next(),
            final(self).limit() == old(self).limit(),
            final(self).is_shut() == old(self).is_shut(),
            final(self).spawned() == old(self).spawned(),
            final(self).failures() == old(self).failures(),
    {
        if self.shutdown {
            return Err(AsyncRuntimeError::ExecutorShutdown);
        }
        if self.ready_queue.len() >= MAX_TASKS {
            return Err(AsyncRuntimeError::ResourceExhaustion(String::from_str("Ready queue is full")));
        }
        self.ready_queue.push(task_id);
        Ok(())
    }

    /// Spawn a new task at time `now`: it gets the next identifier and is
    /// queued to be polled
    pub fn spawn(&mut self, now: u64) -> (r: AsyncResult<TaskId>)
        ensures
            final(self).limit() == old(self).limit(),
            final(self).is_shut() == old(self).is_shut(),
            final(self).failures() == old(self).failures(),
            old(self).next() >= old(self).limit() ==> (r matches Err(
                AsyncRuntimeError::TaskLimitExceeded { limit, attempted },
            ) && limit == old(self).limit() && attempted == old(self).next()) && final(self).table() == old(self).table() && final(self).ready() == old(self).ready() && final(self).next() == old(self).next()
                && final(self).spawned() == old(self).spawned(),
            old(self).next() < old(self).limit() ==> final(self).next() == old(self).next() + 1,
            old(self).next() < old(self).limit() && old(self).next() >= MAX_TASKS ==> (r matches Err(
                AsyncRuntimeError::TaskLimitExceeded { limit, attempted },
            ) && limit == MAX_TASKS && attempted == old(self).next()) && final(self).table() == old(self).table()
                && final(self).ready() == old(self).ready() && final(self).spawned() == old(self).spawned(),
            old(self).next() < old(self).limit() && old(self).next() < MAX_TASKS ==> spawned_into(
                *old(self),
                *final(self),
                now,
                r,
            ),
    {
        if self.next_id >= self.max_tasks {
            return Err(AsyncRuntimeError::TaskLimitExceeded { limit: self.max_tasks, attempted: self.next_id });
        }
        let task_id = TaskId(self.next_id);
        self.next_id = self.next_id + 1;
        let task = Task::new(task_id, now)?;
        grow_table(&mut self.tasks, task_id.0);
        self.tasks.set(task_id.0, Some(task));
        self.task_count = self.task_count.wrapping_add(1);
        self.wake_task(task_id)?;
        Ok(task_id)
    }

    /// Whether some task is alive
    fn has_tasks(&self) -> (b: bool)
        ensures
            b == has_live(self.table()),
    {
        let mut i: usize = 0;
        while i < self.tasks.len()
            invariant
                i <= self.tasks@.len(),
                forall|j: int| 0 <= j < i ==> self.tasks@[j] is None,
            decreases self.tasks@.len() - i,
        {
            if self.tasks[i].is_some() {
                return true;
            }
            i = i + 1;
        }
        false
    }

    /// Decide the next step of running the executor: stop when shut down,
    /// finish when no task is alive, wait when none is ready, else take the
    /// first ready task
    pub fn run_step(&mut self) -> (s: RunStep)
        ensures
            final(self).table() == old(self).table(),
            final(self).next() == old(self).next(),
            final(self).limit() == old(self).limit(),
            final(self).is_shut() == old(self).is_shut(),
            final(self).spawned() == old(self).spawned(),
            final(self).failures() == old(self).failures(),
            old(self).is_shut() ==> s == RunStep::Stop && final(self).ready() == old(self).ready(),
            !old(self).is_shut() && old(self).ready().len() == 0 ==> final(self).ready() == old(self).ready() && s == (
            if has_live(old(self).table()) {
                RunStep::Wait
            } else {
                RunStep::Finished
            }),
            !old(self).is_shut() && old(self).ready().len() > 0 ==> final(self).ready() == old(self).ready().drop_first()
                && s == ({
                let id = old(self).ready()[0];
                if id.0 < old(self).table().len() && old(self).table()[id.0 as int] is Some {
                    RunStep::Poll(id)
                } else {
                    RunStep::Skip
                }
            }),
    {
        if self.shutdown {
            return RunStep::Stop;
        }
        if self.ready_queue.len() == 0 {
            if self.has_tasks() {
                return RunStep::Wait;
            } else {
                return RunStep::Finished;
            }
        }
        let id = self.ready_queue.remove(0);
        if id.0 < self.tasks.len() && self.tasks[id.0].is_some() {
            RunStep::Poll(id)
        } else {
            RunStep::Skip
        }
    }

    /// Record what polling a task gave: a completed or failed task leaves
    /// the table (a failure is counted), a pending one is marked running
    pub fn finish_poll(&mut self, task_id: TaskId, outcome: PollOutcome)
        requires
            task_id.0 < old(self).table().len(),
        ensures
            final(self).ready() == old(self).ready(),
            final(self).next() == old(self).next(),
            final(self).limit() == old(self).limit(),
            final(self).is_shut() == old(self).is_shut(),
            final(self).spawned() == old(self).spawned(),
            outcome == PollOutcome::Ready ==> final(self).table() == old(self).table().update(task_id.0 as int, None)
                && final(self).failures() == old(self).failures(),
            outcome == PollOutcome::Failed ==> final(self).table() == old(self).table().update(task_id.0 as int, None)
                && final(self).failures() == wrap_inc(old(self).failures()),
            outcome == PollOutcome::Pending ==> final(self).failures() == old(self).failures() && final(self).table()
                == match old(self).table()[task_id.0 as int] {
                Some(t) => old(self).table().update(
                    task_id.0 as int,
                    Some(Task { id: t.id, created_at: t.created_at, state: TaskState::Running }),
                ),
                None => old(self).table(),
            },
    {
        match outcome {
            PollOutcome::Ready => {
                self.tasks.set(task_id.0, None);
            },
            PollOutcome::Pending => {
                if let Some(t) = self.tasks[task_id.0] {
                    self.tasks.set(
                        task_id.0,
                        Some(Task { id: t.id, created_at: t.created_at, state: TaskState::Running }),
                    );
                }
            },
            PollOutcome::Failed => {
                self.tasks.set(task_id.0, None);
                self.error_count = self.error_count.wrapping_add(1);
            },
        }
    }

    /// Shutdown the executor
    pub fn shutdown(&mut self)
        ensures
            final(self).is_shut(),
            final(self).table() == old(self).table(),
            final(self).ready() == old(self).ready(),
            final(self).next() == old(self).next(),
            final(self).limit() == old(self).limit(),
            final(self).spawned() == old(self).spawned(),
            final(self).failures() == old(self).failures(),
    {
        self.shutdown = true;
    }

    /// Whether the executor was shut down
    pub fn is_shutdown(&self) -> (b: bool)
        ensures
            b == self.is_shut(),
    {
        self.shutdown
    }

    /// Get executor statistics: tasks spawned, tasks failed, tasks alive
    pub fn get_stats(&self) -> (r: (usize, usize, usize))
        ensures
            r.0 == self.spawned(),
            r.1 == self.failures(),
            r.2 == live_count(self.table()),
    {
        let mut live: usize = 0;
        let mut i: usize = 0;
        while i < self.tasks.len()
            invariant
                i <= self.tasks@.len(),
                live == live_count(self.tasks@.subrange(0, i as int)),
                live <= i,
            decreases self.tasks@.len() - i,
        {
            assert(self.tasks@.subrange(0, i + 1).drop_last() =~= self.tasks@.subrange(0, i as int));
            if self.tasks[i].is_some() {
                live = live + 1;
            }
            i = i + 1;
        }
        assert(self.tasks@.subrange(0, self.tasks@.len() as int) =~= self.tasks@);
        (self.task_count, self.error_count, live)
    }
}

/// The state after a spawn that passed both limits: the task is in the
/// table under the next identifier, counted, and queued unless waking it
/// failed.
pub open spec fn spawned_into(before: Executor, after: Executor, now: u64, r: AsyncResult<TaskId>) -> bool {
    let id = TaskId(before.next());
    &&& after.table() == grown(before.table(), id.0 as int).update(
        id.0 as int,
        Some(Task { id, created_at: now, state: TaskState::Created }),
    )
    &&& after.spawned() == wrap_inc(before.spawned())
    &&& before.is_shut() ==> (r matches Err(AsyncRuntimeError::ExecutorShutdown)) && after.ready() == before.ready()
    &&& !before.is_shut() && before.ready().len() >= MAX_TASKS ==> (r matches Err(
        AsyncRuntimeError::ResourceExhaustion(m),
    ) && m@ == "Ready queue is full"@) && after.ready() == before.ready()
    &&& !before.is_shut() && before.ready().len() < MAX_TASKS ==> r == Ok::<TaskId, AsyncRuntimeError>(id)
        && after.ready() == before.ready().push(id)
}

/// What spawning a task at `now` does to an executor and gives back: a
/// refusal at the executor's own limit or at `MAX_TASKS`, else the task
/// spawned into the table (see `spawned_into`).
pub open spec fn spawn_outcome(before: Executor, after: Executor, now: u64, r: AsyncResult<TaskId>) -> bool {
    &&& after.limit() == before.limit()
    &&& after.is_shut() == before.is_shut()
    &&& after.failures() == before.failures()
    &&& before.next() >= before.limit() ==> (r matches Err(AsyncRuntimeError::TaskLimitExceeded { limit, attempted })
        && limit == before.limit() && attempted == before.next()) && after.table() == before.table() && after.ready()
        == before.ready() && after.next() == before.next() && after.spawned() == before.spawned()
    &&& before.next() < before.limit() ==> after.next() == before.next() + 1
    &&& before.next() < before.limit() && before.next() >= MAX_TASKS ==> (r matches Err(
        AsyncRuntimeError::TaskLimitExceeded { limit, attempted },
    ) && limit == MAX_TASKS && attempted == before.next()) && after.table() == before.table() && after.ready()
        == before.ready() && after.spawned() == before.spawned()
    &&& before.next() < before.limit() && before.next() < MAX_TASKS ==> spawned_into(before, after, now, r)
}

/// A timer's answer to a poll at some time.
#[derive(Debug, Clone, Copy, PartialEq, Eq, Structural)]
pub enum TimerPoll {
    /// The deadline has passed
    Ready,
    /// Not yet: register a wake-up at this deadline (asked once)
    Register(u64),
    /// Not yet, and a wake-up is registered
    Pending,
}

/// A secure async timer: a deadline, and whether a wake-up was registered
pub struct Timer {
    deadline: u64,
    registered: bool,
}

impl Timer {
    /// The time the timer fires, in nanoseconds.
    pub closed spec fn fires_at(&self) -> u64 {
        self.deadline
    }

    /// Whether a wake-up was registered.
    pub closed spec fn is_registered(&self) -> bool {
        self.registered
    }

    /// A timer firing `duration` nanoseconds after `now`; durations over an
    /// hour are refused
    pub fn new(duration: u64, now: u64) -> (r: AsyncResult<Timer>)
        requires
            now + MAX_TIMER_DURATION_NS <= u64::MAX,
        ensures
            duration > MAX_TIMER_DURATION_NS ==> (r matches Err(AsyncRuntimeError::InvalidTimerDuration(d))
                && d == duration),
            duration <= MAX_TIMER_DURATION_NS ==> (r matches Ok(t) && t.fires_at() == now + duration
                && !t.is_registered()),
    {
        if duration > MAX_TIMER_DURATION_NS {
            return Err(AsyncRuntimeError::InvalidTimerDuration(duration));
        }
        Ok(Timer { deadline: now + duration, registered: false })
    }

    /// The time the timer fires
    pub fn deadline(&self) -> (d: u64)
        ensures
            d == self.fires_at(),
    {
        self.deadline
    }

    /// Poll the timer at time `now`: ready once the deadline has passed,
    /// else ask once for a wake-up at the deadline
    pub fn poll_at(&mut self, now: u64) -> (p: TimerPoll)
        ensures
            final(self).fires_at() == old(self).fires_at(),
            now >= old(self).fires_at() ==> p == TimerPoll::Ready && final(self).is_registered() == old(self).is_registered(),
            now < old(self).fires_at() && !old(self).is_registered() ==> p == TimerPoll::Register(old(self).fires_at())
                && final(self).is_registered(),
            now < old(self).fires_at() && old(self).is_registered() ==> p == TimerPoll::Pending && final(self).is_registered(),
    {
        if now >= self.deadline {
            TimerPoll::Ready
        } else if !self.registered {
            self.registered = true;
            TimerPoll::Register(self.deadline)
        } else {
            TimerPoll::Pending
        }
    }
}

/// Checks a wake-up deadline at time `now`: one more than an hour away is
/// refused with the time left
pub fn check_timer_deadline(deadline: u64, now: u64) -> (r: AsyncResult<()>)
    ensures
        ({
            let left = if deadline >= now {
                deadline - now
            } else {
                0
            };
            &&& left > MAX_TIMER_DURATION_NS ==> (r matches Err(AsyncRuntimeError::InvalidTimerDuration(d)) && d
                == left)
            &&& left <= MAX_TIMER_DURATION_NS ==> r is Ok
        }),
{
    let left = deadline.saturating_sub(now);
    if left > MAX_TIMER_DURATION_NS {
        return Err(AsyncRuntimeError::InvalidTimerDuration(left));
    }
    Ok(())
}

/// Whether the deadlines of a list of timers never decrease.
pub open spec fn deadlines_sorted<W>(s: Seq<(u64, W)>) -> bool {
    forall|i: int, j: int| 0 <= i < j < s.len() ==> #[trigger] s[i].0 <= #[trigger] s[j].0
}

/// The number of timers whose deadline is at most `d`.
pub open spec fn count_at_most<W>(s: Seq<(u64, W)>, d: u64) -> nat
    decreases s.len(),
{
    if s.len() == 0 {
        0
    } else if s[0].0 <= d {
        1 + count_at_most(s.drop_first(), d)
    } else {
        0
    }
}

/// The first `n` entries (all of them when there are fewer).
pub open spec fn keep_first<A>(s: Seq<A>, n: nat) -> Seq<A> {
    if s.len() > n {
        s.subrange(0, n as int)
    } else {
        s
    }
}

/// Inserting at the first position whose deadline is later keeps the
/// deadlines sorted.
proof fn lemma_insert_sorted<W>(s: Seq<(u64, W)>, p: int, e: (u64, W))
    requires
        deadlines_sorted(s),
        0 <= p <= s.len(),
        forall|i: int| 0 <= i < p ==> (#[trigger] s[i]).0 <= e.0,
        p < s.len() ==> s[p].0 > e.0,
    ensures
        deadlines_sorted(s.insert(p, e)),
{
    let inserted = s.insert(p, e);
    assert forall|i: int, j: int| 0 <= i < j < inserted.len() implies #[trigger] inserted[i].0 <= #[trigger] inserted[j].0 by {
        if i < p && j < p {
            assert(inserted[i] == s[i] && inserted[j] == s[j]);
        } else if i < p && j == p {
            assert(inserted[i] == s[i]);
        } else if i < p {
            assert(inserted[i] == s[i] && inserted[j] == s[j - 1]);
        } else if i == p {
            assert(inserted[j] == s[j - 1]);
        } else {
            assert(inserted[i] == s[i - 1] && inserted[j] == s[j - 1]);
        }
    }
}

/// Pending wake-ups ordered by deadline, as the timer thread keeps them
pub struct TimerQueue<W> {
    timers: Vec<(u64, W)>,
}

impl<W> TimerQueue<W> {
    /// The pending timers, earliest first.
    pub closed spec fn pending(&self) -> Seq<(u64, W)> {
        self.timers@
    }

    /// An empty queue
    pub fn new() -> (q: Self)
        ensures
            q.pending() == Seq::<(u64, W)>::empty(),
    {
        TimerQueue { timers: Vec::new() }
    }

    /// The number of pending timers
    pub fn len(&self) -> (n: usize)
        ensures
            n == self.pending().len(),
    {
        self.timers.len()
    }

    /// Add a timer after those with an earlier or equal deadline, then keep
    /// at most `MAX_TASKS` timers (the latest ones go)
    #[verifier::spinoff_prover]
    pub fn insert(&mut self, deadline: u64, waker: W)
        requires
            deadlines_sorted(old(self).pending()),
        ensures
            deadlines_sorted(final(self).pending()),
            final(self).pending() == keep_first(
                old(self).pending().insert(count_at_most(old(self).pending(), deadline) as int, (deadline, waker)),
                MAX_TASKS as nat,
            ),
    {
        let ghost s = self.timers@;
        let mut p: usize = 0;
        assert(s.subrange(0, s.len() as int) =~= s);
        while p < self.timers.len() && self.timers[p].0 <= deadline
            invariant
                p <= s.len(),
                self.timers@ == s,
                deadlines_sorted(s),
                forall|i: int| 0 <= i < p ==> s[i].0 <= deadline,
                count_at_most(s, deadline) == p + count_at_most(s.subrange(p as int, s.len() as int), deadline),
            decreases s.len() - p,
        {
            assert(s.subrange(p as int, s.len() as int).drop_first() =~= s.subrange(p + 1, s.len() as int));
            p = p + 1;
        }
        proof {
            if p < s.len() {
                assert(s.subrange(p as int, s.len() as int)[0] == s[p as int]);
            }
            assert(count_at_most(s.subrange(p as int, s.len() as int), deadline) == 0);
        }
        proof {
            lemma_insert_sorted(s, p as int, (deadline, waker));
        }
        self.timers.insert(p, (deadline, waker));
        if self.timers.len() > MAX_TASKS {
            self.timers.truncate(MAX_TASKS);
        }
    }

    /// The time to wait at `now` before the earliest timer is due (the idle
    /// timeout when none is pending)
    pub fn next_timeout(&self, now: u64) -> (t: u64)
        requires
            deadlines_sorted(self.pending()),
        ensures
            self.pending().len() == 0 ==> t == IDLE_TIMER_TIMEOUT_NS,
            self.pending().len() > 0 ==> t == (if self.pending()[0].0 >= now {
                self.pending()[0].0 - now
            } else {
                0
            }),
            forall|i: int| 0 <= i < self.pending().len() ==> t <= (if #[trigger] self.pending()[i].0 >= now {
                self.pending()[i].0 - now
            } else {
                0
            }),
    {
        if self.timers.len() == 0 {
            IDLE_TIMER_TIMEOUT_NS
        } else {
            self.timers[0].0.saturating_sub(now)
        }
    }

    /// Take out the timers due at `now`, earliest first
    pub fn expire(&mut self, now: u64) -> (due: Vec<W>)
        requires
            deadlines_sorted(old(self).pending()),
        ensures
            deadlines_sorted(final(self).pending()),
            ({
                let k = count_at_most(old(self).pending(), now) as int;
                &&& final(self).pending() == old(self).pending().subrange(k, old(self).pending().len() as int)
                &&& due@ == old(self).pending().subrange(0, k).map_values(|e: (u64, W)| e.1)
            }),
    {
        let ghost s = self.timers@;
        let mut due: Vec<W> = Vec::new();
        let ghost mut k: int = 0;
        while self.timers.len() > 0 && self.timers[0].0 <= now
            invariant
                0 <= k <= s.len(),
                self.timers@ == s.subrange(k, s.len() as int),
                deadlines_sorted(s),
                count_at_most(s, now) == k + count_at_most(s.subrange(k, s.len() as int), now),
                due@ == s.subrange(0, k).map_values(|e: (u64, W)| e.1),
            decreases self.timers@.len(),
        {
            let (_, w) = self.timers.remove(0);
            proof {
                assert(s.subrange(k, s.len() as int).drop_first() =~= s.subrange(k + 1, s.len() as int));
                assert(s.subrange(0, k + 1).map_values(|e: (u64, W)| e.1) =~= s.subrange(0, k).map_values(
                    |e: (u64, W)| e.1,
                ).push(s[k].1));
                k = k + 1;
            }
            due.push(w);
        }
        proof {
            assert(count_at_most(s.subrange(k, s.len() as int), now) == 0);
        }
        due
    }
}

/// Join of several futures: a result slot for each, filled as they finish
pub struct JoinAll<F, T> {
    futures: Vec<F>,
    results: Vec<Option<T>>,
    max_futures: usize,
}

impl<F, T> JoinAll<F, T> {
    /// The futures joined.
    pub closed spec fn joined(&self) -> Seq<F> {
        self.futures@
    }

    /// The result of each future, once it finished.
    pub closed spec fn slots(&self) -> Seq<Option<T>> {
        self.results@
    }

    /// Join the given futures; more than `MAX_TASKS` are refused
    pub fn new(futures: Vec<F>) -> (r: AsyncResult<Self>)
        ensures
            futures@.len() > MAX_TASKS ==> (r matches Err(AsyncRuntimeError::TaskLimitExceeded { limit, attempted })
                && limit == MAX_TASKS && attempted == futures@.len()),
            futures@.len() <= MAX_TASKS ==> (r matches Ok(j) && j.joined() == futures@ && j.slots()
                == Seq::new(futures@.len(), |i: int| None::<T>)),
    {
        let len = futures.len();
        if len > MAX_TASKS {
            return Err(AsyncRuntimeError::TaskLimitExceeded { limit: MAX_TASKS, attempted: len });
        }
        let mut results: Vec<Option<T>> = Vec::new();
        let mut i: usize = 0;
        while i < len
            invariant
                i <= len,
                results@ == Seq::new(i as nat, |k: int| None::<T>),
            decreases len - i,
        {
            results.push(None);
            i = i + 1;
            assert(results@ =~= Seq::new(i as nat, |k: int| None::<T>));
        }
        Ok(JoinAll { futures, results, max_futures: len })
    }

    /// The number of futures joined
    pub fn len(&self) -> (n: usize)
        ensures
            n == self.joined().len(),
    {
        self.futures.len()
    }

    /// The future at position `i`, to poll it
    pub fn future_mut(&mut self, i: usize) -> (f: &mut F)
        requires
            i < old(self).joined().len(),
        ensures
            *f == old(self).joined()[i as int],
            final(self).joined() == old(self).joined().update(i as int, *final(f)),
            final(self).slots() == old(self).slots(),
    {
        &mut self.futures[i]
    }

    /// Whether the future at position `i` has no result yet
    pub fn is_pending(&self, i: usize) -> (b: bool)
        requires
            i < self.slots().len(),
        ensures
            b == self.slots()[i as int] is None,
    {
        self.results[i].is_none()
    }

    /// Record the result of the future at position `i`
    pub fn record(&mut self, i: usize, value: T)
        requires
            i < old(self).slots().len(),
        ensures
            final(self).slots() == old(self).slots().update(i as int, Some(value)),
            final(self).joined() == old(self).joined(),
    {
        self.results.set(i, Some(value));
    }

    /// Whether every future has a result
    pub fn all_ready(&self) -> (b: bool)
        ensures
            b == forall|i: int| 0 <= i < self.slots().len() ==> #[trigger] self.slots()[i] is Some,
    {
        let mut i: usize = 0;
        while i < self.results.len()
            invariant
                i <= self.results@.len(),
                forall|k: int| 0 <= k < i ==> #[trigger] self.results@[k] is Some,
            decreases self.results@.len() - i,
        {
            if self.results[i].is_none() {
                return false;
            }
            i = i + 1;
        }
        true
    }

    /// Take the results, in the order of the futures
    pub fn take_results(&mut self) -> (r: Vec<T>)
        requires
            forall|i: int| 0 <= i < old(self).slots().len() ==> #[trigger] old(self).slots()[i] is Some,
        ensures
            r@.len() == old(self).slots().len(),
            forall|i: int| 0 <= i < r@.len() ==> old(self).slots()[i] == Some(#[trigger] r@[i]),
            final(self).slots() == Seq::<Option<T>>::empty(),
            final(self).joined() == old(self).joined(),
    {
        let mut slots: Vec<Option<T>> = Vec::new();
        std::mem::swap(&mut slots, &mut self.results);
        let ghost all = slots@;
        assert(all == old(self).slots());
        let total = slots.len();
        assert(all.subrange(0, all.len() as int) =~= all);
        let mut out: Vec<T> = Vec::new();
        let mut i: usize = 0;
        while slots.len() > 0
            invariant
                total == all.len(),
                i + slots@.len() == all.len(),
                slots@ == all.subrange(i as int, all.len() as int),
                out@.len() == i,
                forall|k: int| 0 <= k < all.len() ==> #[trigger] all[k] is Some,
                forall|k: int| 0 <= k < i ==> all[k] == Some(#[trigger] out@[k]),
            decreases slots@.len(),
        {
            let v = slots.remove(0);
            assert(v == all[i as int]);
            match v {
                Some(x) => out.push(x),
                None => {},
            }
            i = i + 1;
            assert(slots@ =~= all.subrange(i as int, all.len() as int));
        }
        assert(self.results@ =~= Seq::<Option<T>>::empty());
        out
    }
}

/// Checks a `block_on` timeout (in nanoseconds): more than an hour is
/// refused
pub fn check_block_timeout(timeout: u64) -> (r: AsyncResult<()>)
    ensures
        timeout > MAX_TIMER_DURATION_NS ==> (r matches Err(AsyncRuntimeError::InvalidTimerDuration(d)) && d == timeout),
        timeout <= MAX_TIMER_DURATION_NS ==> r is Ok,
{
    if timeout > MAX_TIMER_DURATION_NS {
        return Err(AsyncRuntimeError::InvalidTimerDuration(timeout));
    }
    Ok(())
}

/// A secure specialized executor for blocking operations
pub struct BlockingExecutor {
    /// The task table and ready queue
    pub executor: Executor,
}

impl BlockingExecutor {
    /// Create a new blocking executor (a smaller task limit, 1000)
    pub fn new() -> (b: Self)
        ensures
            b.executor.limit() == BLOCKING_MAX_TASKS,
            b.executor.table() == Seq::<Option<Task>>::empty(),
            b.executor.ready() == Seq::<TaskId>::empty(),
            b.executor.next() == 0,
            !b.executor.is_shut(),
    {
        Self::with_max_tasks(BLOCKING_MAX_TASKS)
    }

    /// Create a new blocking executor with custom limits
    pub fn with_max_tasks(max_tasks: usize) -> (b: Self)
        ensures
            b.executor.limit() == max_tasks,
            b.executor.table() == Seq::<Option<Task>>::empty(),
            b.executor.ready() == Seq::<TaskId>::empty(),
            b.executor.next() == 0,
            !b.executor.is_shut(),
    {
        BlockingExecutor { executor: Executor::with_max_tasks(max_tasks) }
    }
}

impl Default for BlockingExecutor {
    fn default() -> (b: Self)
        ensures
            b.executor.limit() == BLOCKING_MAX_TASKS,
            b.executor.table() == Seq::<Option<Task>>::empty(),
            b.executor.ready() == Seq::<TaskId>::empty(),
            b.executor.next() == 0,
            !b.executor.is_shut(),
    {
        Self::new()
    }
}

/// Result storage for a blocking operation: the result once set, and when
/// the storage was made
pub struct SharedResult<T> {
    result: Option<T>,
    completed: bool,
    created_at: u64,
}

impl<T> SharedResult<T> {
    /// The stored result, if any.
    pub closed spec fn stored(&self) -> Option<T> {
        self.result
    }

    /// Whether a result was set.
    pub closed spec fn done(&self) -> bool {
        self.completed
    }

    /// When the storage was made, in nanoseconds.
    pub closed spec fn made_at(&self) -> u64 {
        self.created_at
    }

    /// Create a new shared result storage at time `now`
    pub fn new(now: u64) -> (s: Self)
        ensures
            s.stored() is None,
            !s.done(),
            s.made_at() == now,
    {
        SharedResult { result: None, completed: false, created_at: now }
    }

    /// Store the result and mark completion
    pub fn set_result(&mut self, value: T) -> (r: AsyncResult<()>)
        ensures
            r is Ok,
            final(self).stored() == Some(value),
            final(self).done(),
            final(self).made_at() == old(self).made_at(),
    {
        self.result = Some(value);
        self.completed = true;
        Ok(())
    }

    /// Take the result once the wait is over; none is an invalid state
    pub fn take_result(&mut self) -> (r: AsyncResult<T>)
        ensures
            match old(self).stored() {
                Some(v) => r == Ok::<T, AsyncRuntimeError>(v),
                None => r matches Err(AsyncRuntimeError::InvalidTaskState(m)) && m@
                    == "Result was None after completion"@,
            },
            final(self).stored() is None,
            final(self).done() == old(self).done(),
            final(self).made_at() == old(self).made_at(),
    {
        match self.result.take() {
            Some(v) => Ok(v),
            None => Err(AsyncRuntimeError::InvalidTaskState(String::from_str("Result was None after completion"))),
        }
    }

    /// Take the result if there is one
    pub fn try_take(&mut self) -> (r: Option<T>)
        ensures
            r == old(self).stored(),
            final(self).stored() is None,
            final(self).done() == old(self).done(),
            final(self).made_at() == old(self).made_at(),
    {
        self.result.take()
    }

    /// Check if the operation has completed
    pub fn is_completed(&self) -> (b: bool)
        ensures
            b == self.done(),
    {
        self.completed
    }

    /// Get the age of this shared result at time `now` (zero if `now` is
    /// earlier)
    pub fn age(&self, now: u64) -> (a: u64)
        ensures
            a == if now >= self.made_at() {
                now - self.made_at()
            } else {
                0
            },
    {
        now.saturating_sub(self.created_at)
    }
}

} // verus!
