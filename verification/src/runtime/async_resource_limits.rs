//! Async resource limits: how many tasks may run at once, and how much
//! memory each task and all tasks together may hold.
use vstd::prelude::*;
use crate::runtime::async_runtime::{wrap_add, wrap_sub};

verus! {

/// Async-specific resource limits.
#[derive(Debug, Clone)]
pub struct AsyncResourceLimits {
    /// Maximum number of concurrent async tasks
    pub max_concurrent_tasks: usize,
    /// Maximum memory of one task, in bytes
    pub max_task_memory_bytes: usize,
    /// Maximum memory of all tasks together, in bytes
    pub max_total_async_memory_bytes: usize,
    /// Maximum time a task may run, in nanoseconds
    pub max_task_execution_time_ns: u64,
    /// How often resources are cleaned up, in nanoseconds
    pub task_cleanup_interval_ns: u64,
    /// Whether async-specific throttling is on
    pub enable_async_throttling: bool,
}

impl Default for AsyncResourceLimits {
    fn default() -> (l: Self)
        ensures
            l.max_concurrent_tasks == 10_000,
            l.max_task_memory_bytes == 10 * 1024 * 1024,
            l.max_total_async_memory_bytes == 100 * 1024 * 1024,
            l.max_task_execution_time_ns == 300_000_000_000,
            l.task_cleanup_interval_ns == 60_000_000_000,
            l.enable_async_throttling,
    {
        AsyncResourceLimits {
            max_concurrent_tasks: 10_000,
            max_task_memory_bytes: 10 * 1024 * 1024,
            max_total_async_memory_bytes: 100 * 1024 * 1024,
            max_task_execution_time_ns: 300_000_000_000,
            task_cleanup_interval_ns: 60_000_000_000,
            enable_async_throttling: true,
        }
    }
}

/// A limit that an async operation ran into.
#[derive(Debug, Clone, PartialEq, Eq, Structural)]
pub enum AsyncResourceViolation {
    /// Too many concurrent tasks
    TooManyConcurrentTasks { current: usize, limit: usize },
    /// Task memory limit exceeded
    TaskMemoryExceeded { task_memory: usize, limit: usize },
    /// Total async memory limit exceeded
    TotalAsyncMemoryExceeded { total_memory: usize, limit: usize },
    /// Task execution time exceeded, in nanoseconds
    TaskExecutionTimeExceeded { execution_time_ns: u64, limit_ns: u64 },
}

/// The memory held by all tasks of a per-task record.
pub open spec fn memory_total(s: Seq<(usize, usize)>) -> int
    decreases s.len(),
{
    if s.len() == 0 {
        0
    } else {
        memory_total(s.drop_last()) + s.last().1
    }
}

/// The memory a per-task record holds for a task (0 when it has none).
pub open spec fn memory_of(s: Seq<(usize, usize)>, task: usize) -> int
    decreases s.len(),
{
    if s.len() == 0 {
        0
    } else if s.last().0 == task {
        s.last().1 as int
    } else {
        memory_of(s.drop_last(), task)
    }
}

/// Whether each task occurs at most once in a per-task record.
pub open spec fn tasks_distinct(s: Seq<(usize, usize)>) -> bool {
    forall|i: int, j: int| 0 <= i < j < s.len() ==> #[trigger] s[i].0 != #[trigger] s[j].0
}

proof fn lemma_total_update(s: Seq<(usize, usize)>, i: int, e: (usize, usize))
    requires
        0 <= i < s.len(),
    ensures
        memory_total(s.update(i, e)) == memory_total(s) - s[i].1 + e.1,
    decreases s.len(),
{
    if i < s.len() - 1 {
        lemma_total_update(s.drop_last(), i, e);
        assert(s.update(i, e).drop_last() =~= s.drop_last().update(i, e));
    } else {
        assert(s.update(i, e).drop_last() =~= s.drop_last());
    }
}

proof fn lemma_total_remove(s: Seq<(usize, usize)>, i: int)
    requires
        0 <= i < s.len(),
    ensures
        memory_total(s.remove(i)) == memory_total(s) - s[i].1,
    decreases s.len(),
{
    if i < s.len() - 1 {
        lemma_total_remove(s.drop_last(), i);
        assert(s.remove(i).drop_last() =~= s.drop_last().remove(i));
    } else {
        assert(s.remove(i) =~= s.drop_last());
    }
}

proof fn lemma_value_within_total(s: Seq<(usize, usize)>, i: int)
    requires
        0 <= i < s.len(),
    ensures
        s[i].1 <= memory_total(s),
        0 <= memory_total(s),
    decreases s.len(),
{
    lemma_total_nonneg(s.drop_last());
    if i < s.len() - 1 {
        lemma_value_within_total(s.drop_last(), i);
    }
}

proof fn lemma_total_nonneg(s: Seq<(usize, usize)>)
    ensures
        0 <= memory_total(s),
    decreases s.len(),
{
    if s.len() > 0 {
        lemma_total_nonneg(s.drop_last());
    }
}

proof fn lemma_memory_of_index(s: Seq<(usize, usize)>, i: int)
    requires
        tasks_distinct(s),
        0 <= i < s.len(),
    ensures
        memory_of(s, s[i].0) == s[i].1,
    decreases s.len(),
{
    if i < s.len() - 1 {
        assert(s[i].0 != s[s.len() - 1].0);
        lemma_memory_of_index(s.drop_last(), i);
    }
}

proof fn lemma_memory_of_absent(s: Seq<(usize, usize)>, task: usize)
    requires
        forall|i: int| 0 <= i < s.len() ==> #[trigger] s[i].0 != task,
    ensures
        memory_of(s, task) == 0,
    decreases s.len(),
{
    if s.len() > 0 {
        assert(s[s.len() - 1].0 != task);
        lemma_memory_of_absent(s.drop_last(), task);
    }
}

proof fn lemma_memory_of_update(s: Seq<(usize, usize)>, i: int, v: usize, t: usize)
    requires
        tasks_distinct(s),
        0 <= i < s.len(),
    ensures
        memory_of(s.update(i, (s[i].0, v)), t) == if t == s[i].0 {
            v as int
        } else {
            memory_of(s, t)
        },
    decreases s.len(),
{
    let u = s.update(i, (s[i].0, v));
    if i < s.len() - 1 {
        assert(u.drop_last() =~= s.drop_last().update(i, (s[i].0, v)));
        assert(s[i].0 != s[s.len() - 1].0);
        lemma_memory_of_update(s.drop_last(), i, v, t);
        if t == s[i].0 {
            assert(u.last() == s.last());
        }
    } else {
        assert(u.drop_last() =~= s.drop_last());
        if t == s[i].0 {
        } else {
        }
    }
}

proof fn lemma_memory_of_remove(s: Seq<(usize, usize)>, i: int, t: usize)
    requires
        tasks_distinct(s),
        0 <= i < s.len(),
    ensures
        memory_of(s.remove(i), t) == if t == s[i].0 {
            0
        } else {
            memory_of(s, t)
        },
    decreases s.len(),
{
    let r = s.remove(i);
    if i < s.len() - 1 {
        assert(r.drop_last() =~= s.drop_last().remove(i));
        assert(s[i].0 != s[s.len() - 1].0);
        assert(r.last() == s.last());
        lemma_memory_of_remove(s.drop_last(), i, t);
    } else {
        assert(r =~= s.drop_last());
        if t == s[i].0 {
            assert forall|j: int| 0 <= j < r.len() implies #[trigger] r[j].0 != t by {
                assert(r[j] == s[j]);
            }
            lemma_memory_of_absent(r, t);
        }
    }
}

/// Counters of an async resource monitor, as read at one moment.
#[derive(Debug, Clone, Copy, PartialEq, Eq, Structural)]
pub struct AsyncResourceStats {
    /// Current number of active tasks
    pub active_tasks: usize,
    /// Peak concurrent tasks
    pub peak_concurrent_tasks: usize,
    /// Total tasks spawned
    pub total_tasks_spawned: u64,
    /// Total tasks completed
    pub total_tasks_completed: u64,
    /// Total tasks failed
    pub total_tasks_failed: u64,
    /// Current async memory usage
    pub current_async_memory: usize,
    /// Peak async memory usage
    pub peak_async_memory: usize,
}

/// The number of task execution times kept for monitoring.
pub const EXECUTION_HISTORY: usize = 1000;

/// Tracks async tasks and their memory against the limits.
pub struct AsyncResourceMonitor {
    limits: AsyncResourceLimits,
    active_tasks: usize,
    peak_concurrent_tasks: usize,
    total_tasks_spawned: u64,
    total_tasks_completed: u64,
    total_tasks_failed: u64,
    current_async_memory: usize,
    peak_async_memory: usize,
    task_memory: Vec<(usize, usize)>,
    execution_times: Vec<u64>,
}

impl AsyncResourceMonitor {
    /// The memory held by all tasks is the sum over tasks; it stays within
    /// the total limit.
    pub closed spec fn wf(&self) -> bool {
        &&& tasks_distinct(self.task_memory@)
        &&& self.current_async_memory == memory_total(self.task_memory@)
        &&& self.current_async_memory <= self.limits.max_total_async_memory_bytes
        &&& self.execution_times@.len() <= EXECUTION_HISTORY
    }

    /// The limits the monitor checks against.
    pub closed spec fn limits(&self) -> AsyncResourceLimits {
        self.limits
    }

    /// The counters.
    pub closed spec fn stats(&self) -> AsyncResourceStats {
        AsyncResourceStats {
            active_tasks: self.active_tasks,
            peak_concurrent_tasks: self.peak_concurrent_tasks,
            total_tasks_spawned: self.total_tasks_spawned,
            total_tasks_completed: self.total_tasks_completed,
            total_tasks_failed: self.total_tasks_failed,
            current_async_memory: self.current_async_memory,
            peak_async_memory: self.peak_async_memory,
        }
    }

    /// The memory recorded for each task.
    pub closed spec fn task_memory(&self) -> Seq<(usize, usize)> {
        self.task_memory@
    }

    /// The memory recorded for one task.
    pub open spec fn memory_of_task(&self, task: usize) -> int {
        memory_of(self.task_memory(), task)
    }

    /// The most recent task execution times, oldest first.
    pub closed spec fn execution_times(&self) -> Seq<u64> {
        self.execution_times@
    }

    /// A monitor with the given limits and nothing recorded.
    pub fn new(limits: AsyncResourceLimits) -> (m: Self)
        ensures
            m.wf(),
            m.limits() == limits,
            m.stats() == (AsyncResourceStats {
                active_tasks: 0,
                peak_concurrent_tasks: 0,
                total_tasks_spawned: 0,
                total_tasks_completed: 0,
                total_tasks_failed: 0,
                current_async_memory: 0,
                peak_async_memory: 0,
            }),
            m.task_memory().len() == 0,
            m.execution_times().len() == 0,
    {
        AsyncResourceMonitor {
            limits,
            active_tasks: 0,
            peak_concurrent_tasks: 0,
            total_tasks_spawned: 0,
            total_tasks_completed: 0,
            total_tasks_failed: 0,
            current_async_memory: 0,
            peak_async_memory: 0,
            task_memory: Vec::new(),
            execution_times: Vec::new(),
        }
    }

    /// Counts a spawned task. Fails when one more task would exceed the
    /// concurrency limit, and then changes nothing.
    pub fn record_task_spawn(&mut self) -> (r: Result<(), AsyncResourceViolation>)
        requires
            old(self).wf(),
        ensures
            final(self).wf(),
            final(self).limits() == old(self).limits(),
            final(self).task_memory() == old(self).task_memory(),
            final(self).execution_times() == old(self).execution_times(),
            ({
                let s = old(self).stats();
                let current = if s.active_tasks == usize::MAX {
                    0usize
                } else {
                    (s.active_tasks + 1) as usize
                };
                if current > old(self).limits().max_concurrent_tasks {
                    &&& r == Err::<(), AsyncResourceViolation>(
                        AsyncResourceViolation::TooManyConcurrentTasks {
                            current,
                            limit: old(self).limits().max_concurrent_tasks,
                        },
                    )
                    &&& final(self).stats() == s
                } else {
                    &&& r is Ok
                    &&& final(self).stats() == (AsyncResourceStats {
                        active_tasks: current,
                        peak_concurrent_tasks: if current > s.peak_concurrent_tasks {
                            current
                        } else {
                            s.peak_concurrent_tasks
                        },
                        total_tasks_spawned: if s.total_tasks_spawned == u64::MAX {
                            0u64
                        } else {
                            (s.total_tasks_spawned + 1) as u64
                        },
                        ..s
                    })
                }
            }),
    {
        let current = self.active_tasks.wrapping_add(1);
        if current > self.limits.max_concurrent_tasks {
            return Err(
                AsyncResourceViolation::TooManyConcurrentTasks { current, limit: self.limits.max_concurrent_tasks },
            );
        }
        self.active_tasks = current;
        if current > self.peak_concurrent_tasks {
            self.peak_concurrent_tasks = current;
        }
        self.total_tasks_spawned = self.total_tasks_spawned.wrapping_add(1);
        Ok(())
    }

    /// Forgets the memory recorded for a task, and returns it.
    fn release_task_memory(&mut self, task_id: usize) -> (freed: usize)
        requires
            old(self).wf(),
        ensures
            final(self).wf(),
            final(self).limits() == old(self).limits(),
            final(self).execution_times() == old(self).execution_times(),
            freed == old(self).memory_of_task(task_id),
            forall|t: usize| #[trigger] final(self).memory_of_task(t) == if t == task_id {
                0
            } else {
                old(self).memory_of_task(t)
            },
            final(self).stats() == (AsyncResourceStats {
                current_async_memory: (old(self).stats().current_async_memory - freed) as usize,
                ..old(self).stats()
            }),
    {
        let mut i: usize = 0;
        while i < self.task_memory.len()
            invariant
                self.wf(),
                *self == *old(self),
                0 <= i <= self.task_memory@.len(),
                forall|j: int| 0 <= j < i ==> #[trigger] self.task_memory@[j].0 != task_id,
            decreases self.task_memory.len() - i,
        {
            if self.task_memory[i].0 == task_id {
                let freed = self.task_memory[i].1;
                proof {
                    lemma_total_remove(self.task_memory@, i as int);
                    lemma_value_within_total(self.task_memory@, i as int);
                    lemma_memory_of_index(self.task_memory@, i as int);
                    assert forall|t: usize| #[trigger]
                        memory_of(self.task_memory@.remove(i as int), t) == if t == task_id {
                            0
                        } else {
                            memory_of(self.task_memory@, t)
                        } by {
                        lemma_memory_of_remove(self.task_memory@, i as int, t);
                    }
                }
                let mut rest = Vec::new();
                std::mem::swap(&mut rest, &mut self.task_memory);
                rest.remove(i);
                self.current_async_memory = self.current_async_memory - freed;
                std::mem::swap(&mut rest, &mut self.task_memory);
                return freed;
            }
            i = i + 1;
        }
        proof {
            lemma_memory_of_absent(self.task_memory@, task_id);
        }
        0
    }

    /// Records that a task finished after `execution_time_ns`. A task that
    /// ran past the limit is refused and nothing changes; otherwise the
    /// task is counted done, its memory given back, and its time kept.
    pub fn record_task_completion(&mut self, task_id: usize, execution_time_ns: u64) -> (r: Result<
        (),
        AsyncResourceViolation,
    >)
        requires
            old(self).wf(),
        ensures
            final(self).wf(),
            final(self).limits() == old(self).limits(),
            execution_time_ns > old(self).limits().max_task_execution_time_ns ==> r == Err::<
                (),
                AsyncResourceViolation,
            >(
                AsyncResourceViolation::TaskExecutionTimeExceeded {
                    execution_time_ns,
                    limit_ns: old(self).limits().max_task_execution_time_ns,
                },
            ) && final(self).stats() == old(self).stats() && final(self).task_memory() == old(
                self,
            ).task_memory() && final(self).execution_times() == old(self).execution_times(),
            execution_time_ns <= old(self).limits().max_task_execution_time_ns ==> {
                let s = old(self).stats();
                &&& r is Ok
                &&& final(self).stats() == (AsyncResourceStats {
                    active_tasks: wrap_sub(s.active_tasks, 1),
                    total_tasks_completed: if s.total_tasks_completed == u64::MAX {
                        0u64
                    } else {
                        (s.total_tasks_completed + 1) as u64
                    },
                    current_async_memory: (s.current_async_memory - old(self).memory_of_task(task_id)) as usize,
                    ..s
                })
                &&& forall|t: usize| #[trigger] final(self).memory_of_task(t) == if t == task_id {
                    0
                } else {
                    old(self).memory_of_task(t)
                }
                &&& final(self).execution_times() == keep_last_times(
                    old(self).execution_times().push(execution_time_ns),
                )
            },
    {
        if execution_time_ns > self.limits.max_task_execution_time_ns {
            return Err(
                AsyncResourceViolation::TaskExecutionTimeExceeded {
                    execution_time_ns,
                    limit_ns: self.limits.max_task_execution_time_ns,
                },
            );
        }
        self.active_tasks = self.active_tasks.wrapping_sub(1);
        self.total_tasks_completed = self.total_tasks_completed.wrapping_add(1);
        self.release_task_memory(task_id);
        let ghost released = *self;
        self.keep_time(execution_time_ns);
        proof {
            assert forall|t: usize| #[trigger] self.memory_of_task(t) == released.memory_of_task(t) by {}
        }
        Ok(())
    }

    fn keep_time(&mut self, t: u64)
        requires
            old(self).wf(),
        ensures
            final(self).wf(),
            final(self).limits() == old(self).limits(),
            final(self).stats() == old(self).stats(),
            final(self).task_memory() == old(self).task_memory(),
            final(self).execution_times() == keep_last_times(old(self).execution_times().push(t)),
    {
        let mut times = Vec::new();
        std::mem::swap(&mut times, &mut self.execution_times);
        times.push(t);
        if times.len() > EXECUTION_HISTORY {
            times.remove(0);
        }
        proof {
            if old(self).execution_times().push(t).len() > EXECUTION_HISTORY {
                assert(times@ =~= old(self).execution_times().push(t).drop_first());
            }
        }
        std::mem::swap(&mut times, &mut self.execution_times);
    }

    /// Records that a task failed: it is counted failed and its memory given
    /// back.
    pub fn record_task_failure(&mut self, task_id: usize)
        requires
            old(self).wf(),
        ensures
            final(self).wf(),
            final(self).limits() == old(self).limits(),
            final(self).execution_times() == old(self).execution_times(),
            final(self).stats() == (AsyncResourceStats {
                active_tasks: wrap_sub(old(self).stats().active_tasks, 1),
                total_tasks_failed: if old(self).stats().total_tasks_failed == u64::MAX {
                    0u64
                } else {
                    (old(self).stats().total_tasks_failed + 1) as u64
                },
                current_async_memory: (old(self).stats().current_async_memory - old(self).memory_of_task(
                    task_id,
                )) as usize,
                ..old(self).stats()
            }),
            forall|t: usize| #[trigger] final(self).memory_of_task(t) == if t == task_id {
                0
            } else {
                old(self).memory_of_task(t)
            },
    {
        self.active_tasks = self.active_tasks.wrapping_sub(1);
        self.total_tasks_failed = self.total_tasks_failed.wrapping_add(1);
        self.release_task_memory(task_id);
    }

    /// Records `size` more bytes held by a task. An allocation larger than
    /// the per-task limit, or one that would take all tasks past the total
    /// limit, is refused and changes nothing. Otherwise the bytes are
    /// counted to the task and the total; if the task then holds more than
    /// the per-task limit, that is reported, with the bytes still counted.
    pub fn record_task_memory_allocation(&mut self, task_id: usize, size: usize) -> (r: Result<
        (),
        AsyncResourceViolation,
    >)
        requires
            old(self).wf(),
        ensures
            final(self).wf(),
            final(self).limits() == old(self).limits(),
            final(self).execution_times() == old(self).execution_times(),
            ({
                let l = old(self).limits();
                let s = old(self).stats();
                let new_total = s.current_async_memory + size;
                let task_total = old(self).memory_of_task(task_id) + size;
                if size > l.max_task_memory_bytes {
                    &&& r == Err::<(), AsyncResourceViolation>(
                        AsyncResourceViolation::TaskMemoryExceeded { task_memory: size, limit: l.max_task_memory_bytes },
                    )
                    &&& final(self).stats() == s
                    &&& final(self).task_memory() == old(self).task_memory()
                } else if new_total > l.max_total_async_memory_bytes {
                    &&& r == Err::<(), AsyncResourceViolation>(
                        AsyncResourceViolation::TotalAsyncMemoryExceeded {
                            total_memory: if new_total > usize::MAX {
                                usize::MAX
                            } else {
                                new_total as usize
                            },
                            limit: l.max_total_async_memory_bytes,
                        },
                    )
                    &&& final(self).stats() == s
                    &&& final(self).task_memory() == old(self).task_memory()
                } else {
                    &&& final(self).stats() == (AsyncResourceStats {
                        current_async_memory: new_total as usize,
                        peak_async_memory: if new_total > s.peak_async_memory {
                            new_total as usize
                        } else {
                            s.peak_async_memory
                        },
                        ..s
                    })
                    &&& forall|t: usize| #[trigger] final(self).memory_of_task(t) == if t == task_id {
                        task_total
                    } else {
                        old(self).memory_of_task(t)
                    }
                    &&& if task_total > l.max_task_memory_bytes {
                        r == Err::<(), AsyncResourceViolation>(
                            AsyncResourceViolation::TaskMemoryExceeded {
                                task_memory: task_total as usize,
                                limit: l.max_task_memory_bytes,
                            },
                        )
                    } else {
                        r is Ok
                    }
                }
            }),
    {
        if size > self.limits.max_task_memory_bytes {
            return Err(
                AsyncResourceViolation::TaskMemoryExceeded { task_memory: size, limit: self.limits.max_task_memory_bytes },
            );
        }
        let new_total = match self.current_async_memory.checked_add(size) {
            Some(t) => t,
            None => {
                return Err(
                    AsyncResourceViolation::TotalAsyncMemoryExceeded {
                        total_memory: usize::MAX,
                        limit: self.limits.max_total_async_memory_bytes,
                    },
                );
            },
        };
        if new_total > self.limits.max_total_async_memory_bytes {
            return Err(
                AsyncResourceViolation::TotalAsyncMemoryExceeded {
                    total_memory: new_total,
                    limit: self.limits.max_total_async_memory_bytes,
                },
            );
        }
        let ghost before = self.task_memory@;
        let mut record = Vec::new();
        std::mem::swap(&mut record, &mut self.task_memory);
        let mut i: usize = 0;
        let mut task_total: usize = size;
        let mut found = false;
        loop
            invariant_except_break
                !found,
            invariant
                record@ == before,
                0 <= i <= record@.len(),
                forall|j: int| 0 <= j < i ==> #[trigger] record@[j].0 != task_id,
            ensures
                record@ == before,
                found ==> i < record@.len() && record@[i as int].0 == task_id,
                !found ==> forall|j: int| 0 <= j < record@.len() ==> #[trigger] record@[j].0 != task_id,
            decreases record.len() - i,
        {
            if i >= record.len() {
                break;
            }
            if record[i].0 == task_id {
                found = true;
                break;
            }
            i = i + 1;
        }
        proof {
            lemma_total_nonneg(before);
        }
        if found {
            proof {
                lemma_value_within_total(before, i as int);
                lemma_memory_of_index(before, i as int);
                lemma_total_update(before, i as int, (task_id, (before[i as int].1 + size) as usize));
                assert forall|t: usize| #[trigger]
                    memory_of(before.update(i as int, (task_id, (before[i as int].1 + size) as usize)), t) == if t
                        == task_id {
                        before[i as int].1 + size
                    } else {
                        memory_of(before, t)
                    } by {
                    lemma_memory_of_update(before, i as int, (before[i as int].1 + size) as usize, t);
                }
                assert forall|a: int, b: int|
                    0 <= a < b < before.len() implies #[trigger] before.update(
                    i as int,
                    (task_id, (before[i as int].1 + size) as usize),
                )[a].0 != #[trigger] before.update(i as int, (task_id, (before[i as int].1 + size) as usize))[b].0 by {
                    assert(before[a].0 != before[b].0);
                }
            }
            task_total = record[i].1 + size;
            record.set(i, (task_id, task_total));
        } else {
            proof {
                lemma_memory_of_absent(before, task_id);
                assert(record@.push((task_id, size)).drop_last() =~= before);
                assert forall|t: usize| #[trigger] memory_of(before.push((task_id, size)), t) == if t == task_id {
                    size as int
                } else {
                    memory_of(before, t)
                } by {
                    assert(before.push((task_id, size)).drop_last() =~= before);
                }
            }
            record.push((task_id, size));
        }
        std::mem::swap(&mut record, &mut self.task_memory);
        self.current_async_memory = new_total;
        if new_total > self.peak_async_memory {
            self.peak_async_memory = new_total;
        }
        if task_total > self.limits.max_task_memory_bytes {
            return Err(
                AsyncResourceViolation::TaskMemoryExceeded {
                    task_memory: task_total,
                    limit: self.limits.max_task_memory_bytes,
                },
            );
        }
        Ok(())
    }

    /// The counters. The memory held by all tasks is the sum of what each
    /// task holds, and it is within the total limit.
    pub fn get_async_stats(&self) -> (s: AsyncResourceStats)
        requires
            self.wf(),
        ensures
            s == self.stats(),
            s.current_async_memory == memory_total(self.task_memory()),
            s.current_async_memory <= self.limits().max_total_async_memory_bytes,
            tasks_distinct(self.task_memory()),
    {
        AsyncResourceStats {
            active_tasks: self.active_tasks,
            peak_concurrent_tasks: self.peak_concurrent_tasks,
            total_tasks_spawned: self.total_tasks_spawned,
            total_tasks_completed: self.total_tasks_completed,
            total_tasks_failed: self.total_tasks_failed,
            current_async_memory: self.current_async_memory,
            peak_async_memory: self.peak_async_memory,
        }
    }
}

/// The last execution times kept: all of them, or the most recent ones when
/// there are more than the history holds.
pub open spec fn keep_last_times(s: Seq<u64>) -> Seq<u64> {
    if s.len() > EXECUTION_HISTORY {
        s.drop_first()
    } else {
        s
    }
}

} // verus!
