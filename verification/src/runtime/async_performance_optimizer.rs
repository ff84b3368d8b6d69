//! Performance helpers of the async runtime: an object pool, a scheduler
//! that adapts its strategy to the workload, a batch processor and a cache
//! with expiry and eviction.
//!
//! Time is passed in as nanoseconds on a monotonic clock.
use vstd::prelude::*;
use crate::namemap::{
    NameMap, has_key, insert_model, keys_distinct, lemma_insert_keeps_distinct, lemma_key_index, lookup, remove_model,
};
use crate::runtime::async_runtime_secure::{
    AsyncResult, AsyncRuntimeError, Executor, TaskId, live_count, spawn_outcome, wrap_inc,
};

verus! {

/// Configuration for performance optimization
#[derive(Debug, Clone, Copy)]
pub struct PerformanceConfig {
    /// Enable object pooling for reduced allocations
    pub enable_object_pooling: bool,
    /// Enable adaptive scheduling based on workload
    pub enable_adaptive_scheduling: bool,
    /// Enable work stealing between threads
    pub enable_work_stealing: bool,
    /// Enable batch processing of operations
    pub enable_batch_processing: bool,
    /// Maximum number of tasks to process in a batch
    pub max_batch_size: usize,
    /// Target latency for operations (microseconds)
    pub target_latency_us: u64,
    /// Enable performance monitoring
    pub enable_monitoring: bool,
}

impl Default for PerformanceConfig {
    /// Pooling, adaptive scheduling, batching (32 items) and monitoring on;
    /// work stealing off; a 1 ms latency target.
    fn default() -> (c: Self)
        ensures
            c.enable_object_pooling,
            c.enable_adaptive_scheduling,
            !c.enable_work_stealing,
            c.enable_batch_processing,
            c.max_batch_size == 32,
            c.target_latency_us == 1000,
            c.enable_monitoring,
    {
        PerformanceConfig {
            enable_object_pooling: true,
            enable_adaptive_scheduling: true,
            enable_work_stealing: false,
            enable_batch_processing: true,
            max_batch_size: 32,
            target_latency_us: 1000,
            enable_monitoring: true,
        }
    }
}

/// Performance metrics for monitoring
#[derive(Debug, Clone)]
pub struct PerformanceMetrics {
    /// Number of tasks processed
    pub tasks_processed: usize,
    /// Number of allocations avoided through pooling
    pub allocations_avoided: usize,
    /// Total execution time (nanoseconds)
    pub total_execution_time_ns: usize,
    /// Number of scheduler adaptations
    pub scheduler_adaptations: usize,
    /// Number of batch operations
    pub batch_operations: usize,
    /// Peak memory usage (bytes)
    pub peak_memory_usage: usize,
    /// Number of cache hits
    pub cache_hits: usize,
    /// Number of cache misses
    pub cache_misses: usize,
}

/// `a + b`, wrapping around past `usize::MAX`.
pub open spec fn wrap_add(a: usize, b: usize) -> usize {
    if a + b > usize::MAX {
        (a + b - usize::MAX - 1) as usize
    } else {
        (a + b) as usize
    }
}

/// Every metric is zero.
pub open spec fn metrics_zero(m: PerformanceMetrics) -> bool {
    &&& m.tasks_processed == 0
    &&& m.allocations_avoided == 0
    &&& m.total_execution_time_ns == 0
    &&& m.scheduler_adaptations == 0
    &&& m.batch_operations == 0
    &&& m.peak_memory_usage == 0
    &&& m.cache_hits == 0
    &&& m.cache_misses == 0
}

/// The average execution time per task (zero when no task ran).
pub open spec fn average_time(m: PerformanceMetrics) -> u64 {
    if m.tasks_processed > 0 {
        (m.total_execution_time_ns / m.tasks_processed) as u64
    } else {
        0
    }
}

impl Default for PerformanceMetrics {
    fn default() -> (m: Self)
        ensures
            metrics_zero(m),
    {
        PerformanceMetrics {
            tasks_processed: 0,
            allocations_avoided: 0,
            total_execution_time_ns: 0,
            scheduler_adaptations: 0,
            batch_operations: 0,
            peak_memory_usage: 0,
            cache_hits: 0,
            cache_misses: 0,
        }
    }
}

impl PerformanceMetrics {
    /// Calculate average execution time per task
    pub fn avg_execution_time_ns(&self) -> (t: u64)
        ensures
            t == average_time(*self),
    {
        if self.tasks_processed > 0 {
            (self.total_execution_time_ns / self.tasks_processed) as u64
        } else {
            0
        }
    }

    /// Reset all metrics
    pub fn reset(&mut self)
        ensures
            metrics_zero(*final(self)),
    {
        self.tasks_processed = 0;
        self.allocations_avoided = 0;
        self.total_execution_time_ns = 0;
        self.scheduler_adaptations = 0;
        self.batch_operations = 0;
        self.peak_memory_usage = 0;
        self.cache_hits = 0;
        self.cache_misses = 0;
    }
}

/// Object pool for reducing allocations
pub struct ObjectPool<T, F> {
    objects: Vec<T>,
    factory: F,
    max_size: usize,
    created_count: usize,
}

impl<T, F: Fn() -> T> ObjectPool<T, F> {
    /// The objects ready to be handed out, last returned last.
    pub closed spec fn available(&self) -> Seq<T> {
        self.objects@
    }

    /// The number of objects the factory made (wrapping).
    pub closed spec fn created(&self) -> usize {
        self.created_count
    }

    /// The most objects kept for reuse.
    pub closed spec fn capacity(&self) -> usize {
        self.max_size
    }

    /// The factory that makes new objects.
    pub closed spec fn maker(&self) -> F {
        self.factory
    }

    /// Create a new object pool
    pub fn new(factory: F, max_size: usize) -> (p: Self)
        ensures
            p.available() == Seq::<T>::empty(),
            p.created() == 0,
            p.capacity() == max_size,
            p.maker() == factory,
    {
        ObjectPool { objects: Vec::new(), factory, max_size, created_count: 0 }
    }

    /// Get an object from the pool (the last returned one) or make a new one
    pub fn get(&mut self) -> (obj: T)
        requires
            old(self).maker().requires(()),
        ensures
            final(self).capacity() == old(self).capacity(),
            final(self).maker() == old(self).maker(),
            old(self).available().len() > 0 ==> obj == old(self).available().last() && final(self).available()
                == old(self).available().drop_last() && final(self).created() == old(self).created(),
            old(self).available().len() == 0 ==> old(self).maker().ensures((), obj) && final(self).available()
                == old(self).available() && final(self).created() == wrap_inc(old(self).created()),
    {
        match self.objects.pop() {
            Some(obj) => obj,
            None => {
                self.created_count = self.created_count.wrapping_add(1);
                (self.factory)()
            },
        }
    }

    /// Return an object handed out: it is kept while the pool has room
    pub fn return_object(&mut self, object: T)
        ensures
            final(self).capacity() == old(self).capacity(),
            final(self).maker() == old(self).maker(),
            final(self).created() == old(self).created(),
            old(self).available().len() < old(self).capacity() ==> final(self).available() == old(
                self,
            ).available().push(object),
            old(self).available().len() >= old(self).capacity() ==> final(self).available() == old(
                self,
            ).available(),
    {
        if self.objects.len() < self.max_size {
            self.objects.push(object);
        }
    }

    /// Get pool statistics: objects available, in use and made
    pub fn stats(&self) -> (r: (usize, usize, usize))
        requires
            self.available().len() <= self.created(),
        ensures
            r == (self.available().len() as usize, (self.created() - self.available().len()) as usize, self.created()),
    {
        let available = self.objects.len();
        let created = self.created_count;
        (available, created - available, created)
    }
}

/// Scheduling strategies
#[derive(Debug, Clone, Copy, PartialEq, Eq, Structural)]
pub enum SchedulingStrategy {
    RoundRobin,
    Priority,
    ShortestJobFirst,
    AdaptiveBatch,
}

/// Sample of workload for adaptive scheduling
#[derive(Debug, Clone, Copy, PartialEq, Eq, Structural)]
pub struct WorkloadSample {
    /// When the sample was taken, in nanoseconds
    pub timestamp: u64,
    /// Tasks at that time
    pub task_count: usize,
    /// The average execution time per task then
    pub avg_execution_time_ns: u64,
    /// The depth of the queue then
    pub queue_depth: usize,
}

/// The most samples kept.
pub const WORKLOAD_HISTORY_SIZE: usize = 100;

/// The samples averaged to decide a strategy.
pub const WORKLOAD_WINDOW: usize = 10;

/// The least time between two strategy changes: 100 ms, in nanoseconds.
pub const ADAPTATION_INTERVAL_NS: u64 = 100000000;

/// The sum of the queue depths of some samples.
pub open spec fn depth_sum(s: Seq<WorkloadSample>) -> int
    decreases s.len(),
{
    if s.len() == 0 {
        0
    } else {
        depth_sum(s.drop_last()) + s.last().queue_depth
    }
}

/// The sum of the average execution times of some samples.
pub open spec fn time_sum(s: Seq<WorkloadSample>) -> int
    decreases s.len(),
{
    if s.len() == 0 {
        0
    } else {
        time_sum(s.drop_last()) + s.last().avg_execution_time_ns
    }
}

/// The strategy for the averages of the last ten samples, given as sums:
/// batching for deep queues of slow tasks, shortest job first for fast
/// tasks, priority for deep queues, else round robin.
pub open spec fn strategy_for(depths: int, times: int) -> SchedulingStrategy {
    if depths > 500 && times > 100000 {
        SchedulingStrategy::AdaptiveBatch
    } else if times < 10000 {
        SchedulingStrategy::ShortestJobFirst
    } else if depths > 200 {
        SchedulingStrategy::Priority
    } else {
        SchedulingStrategy::RoundRobin
    }
}

/// Adaptive scheduler that adjusts behavior based on workload
pub struct AdaptiveScheduler {
    config: PerformanceConfig,
    metrics: PerformanceMetrics,
    current_strategy: SchedulingStrategy,
    last_adaptation: u64,
    workload_history: Vec<WorkloadSample>,
}

impl AdaptiveScheduler {
    /// The recorded samples, oldest first.
    pub closed spec fn history(&self) -> Seq<WorkloadSample> {
        self.workload_history@
    }

    /// The strategy in use.
    pub closed spec fn strategy(&self) -> SchedulingStrategy {
        self.current_strategy
    }

    /// When the strategy last changed (or the scheduler was made).
    pub closed spec fn adapted_at(&self) -> u64 {
        self.last_adaptation
    }

    /// The scheduler's metrics.
    pub closed spec fn stats(&self) -> PerformanceMetrics {
        self.metrics
    }

    /// The scheduler's configuration.
    pub closed spec fn settings(&self) -> PerformanceConfig {
        self.config
    }

    /// A scheduler made at time `now`, starting with round robin
    pub fn new(config: PerformanceConfig, now: u64) -> (s: Self)
        ensures
            s.history() == Seq::<WorkloadSample>::empty(),
            s.strategy() == SchedulingStrategy::RoundRobin,
            s.adapted_at() == now,
            metrics_zero(s.stats()),
            s.settings() == config,
    {
        AdaptiveScheduler {
            config,
            metrics: PerformanceMetrics::default(),
            current_strategy: SchedulingStrategy::RoundRobin,
            last_adaptation: now,
            workload_history: Vec::new(),
        }
    }

    /// Record a workload sample at time `now` (the last hundred are kept),
    /// then adapt the strategy: at most every 100 ms, and once ten samples
    /// are there, to the strategy their averages call for
    pub fn record_workload(&mut self, task_count: usize, queue_depth: usize, now: u64) -> (r: AsyncResult<()>)
        ensures
            r is Ok,
            final(self).settings() == old(self).settings(),
            !old(self).settings().enable_adaptive_scheduling ==> final(self).history() == old(self).history()
                && final(self).strategy() == old(self).strategy() && final(self).adapted_at() == old(self).adapted_at()
                && final(self).stats() == old(self).stats(),
            old(self).settings().enable_adaptive_scheduling ==> adapted(*old(self), *final(self), task_count, queue_depth, now),
    {
        if !self.config.enable_adaptive_scheduling {
            return Ok(());
        }
        let sample = WorkloadSample {
            timestamp: now,
            task_count,
            avg_execution_time_ns: self.metrics.avg_execution_time_ns(),
            queue_depth,
        };
        self.workload_history.push(sample);
        if self.workload_history.len() > WORKLOAD_HISTORY_SIZE {
            self.workload_history.remove(0);
        }
        self.maybe_adapt_strategy(now);
        Ok(())
    }

    /// Adapt the strategy at time `now` if it is time to
    fn maybe_adapt_strategy(&mut self, now: u64)
        ensures
            final(self).history() == old(self).history(),
            final(self).settings() == old(self).settings(),
            adaptation(old(self).history(), old(self).strategy(), old(self).adapted_at(), old(self).stats(), *final(self), now),
    {
        if now.saturating_sub(self.last_adaptation) < ADAPTATION_INTERVAL_NS {
            return;
        }
        let n = self.workload_history.len();
        if n < WORKLOAD_WINDOW {
            return;
        }
        let ghost h = self.workload_history@;
        let ghost window = h.subrange(n - 10, n as int);
        let mut depths: u128 = 0;
        let mut times: u128 = 0;
        let mut i: usize = n - WORKLOAD_WINDOW;
        while i < n
            invariant
                n >= 10,
                n - 10 <= i <= n,
                n == h.len(),
                h == self.workload_history@,
                window == h.subrange(n - 10, n as int),
                depths == depth_sum(h.subrange(n - 10, i as int)),
                times == time_sum(h.subrange(n - 10, i as int)),
                depths <= (i - (n - 10)) * 0x1_0000_0000_0000_0000,
                times <= (i - (n - 10)) * 0x1_0000_0000_0000_0000,
            decreases n - i,
        {
            assert(h.subrange(n - 10, i + 1).drop_last() =~= h.subrange(n - 10, i as int));
            depths = depths + self.workload_history[i].queue_depth as u128;
            times = times + self.workload_history[i].avg_execution_time_ns as u128;
            i = i + 1;
        }
        let new_strategy = if depths > 500 && times > 100000 {
            SchedulingStrategy::AdaptiveBatch
        } else if times < 10000 {
            SchedulingStrategy::ShortestJobFirst
        } else if depths > 200 {
            SchedulingStrategy::Priority
        } else {
            SchedulingStrategy::RoundRobin
        };
        if new_strategy != self.current_strategy {
            self.current_strategy = new_strategy;
            self.metrics.scheduler_adaptations = self.metrics.scheduler_adaptations.wrapping_add(1);
            self.last_adaptation = now;
        }
    }

    /// Get current scheduling strategy
    pub fn current_strategy(&self) -> (s: SchedulingStrategy)
        ensures
            s == self.strategy(),
    {
        self.current_strategy
    }
    /// Record a task spawned in `elapsed_ns` nanoseconds: the count of
    /// tasks processed and the total time go up, wrapping around as the
    /// atomic counters they stand for do
    pub fn record_task(&mut self, elapsed_ns: usize)
        ensures
            final(self).stats() == (PerformanceMetrics {
                tasks_processed: wrap_inc(old(self).stats().tasks_processed),
                total_execution_time_ns: wrap_add(old(self).stats().total_execution_time_ns, elapsed_ns),
                ..old(self).stats()
            }),
            final(self).history() == old(self).history(),
            final(self).strategy() == old(self).strategy(),
            final(self).adapted_at() == old(self).adapted_at(),
            final(self).settings() == old(self).settings(),
    {
        self.metrics.total_execution_time_ns = self.metrics.total_execution_time_ns.wrapping_add(elapsed_ns);
        self.metrics.tasks_processed = self.metrics.tasks_processed.wrapping_add(1);
    }


    /// Get performance metrics
    pub fn metrics(&self) -> (m: &PerformanceMetrics)
        ensures
            *m == self.stats(),
    {
        &self.metrics
    }
}

/// The samples after recording one: appended, and the oldest dropped
/// beyond a hundred.
pub open spec fn recorded(h: Seq<WorkloadSample>, sample: WorkloadSample) -> Seq<WorkloadSample> {
    if h.len() + 1 > WORKLOAD_HISTORY_SIZE {
        h.push(sample).drop_first()
    } else {
        h.push(sample)
    }
}

/// The strategy change at time `now`: none within 100 ms of the last one
/// or with fewer than ten samples; otherwise the strategy the last ten
/// samples call for, counted and timed when it differs.
pub open spec fn adaptation(
    h: Seq<WorkloadSample>,
    strategy: SchedulingStrategy,
    adapted_at: u64,
    stats: PerformanceMetrics,
    after: AdaptiveScheduler,
    now: u64,
) -> bool {
    let elapsed = if now >= adapted_at {
        now - adapted_at
    } else {
        0
    };
    let unchanged = after.strategy() == strategy && after.adapted_at() == adapted_at && after.stats() == stats;
    if elapsed < ADAPTATION_INTERVAL_NS || h.len() < WORKLOAD_WINDOW {
        unchanged
    } else {
        let window = h.subrange(h.len() - 10, h.len() as int);
        let s = strategy_for(depth_sum(window), time_sum(window));
        if s != strategy {
            &&& after.strategy() == s
            &&& after.adapted_at() == now
            &&& after.stats() == PerformanceMetrics {
                scheduler_adaptations: wrap_inc(stats.scheduler_adaptations),
                ..stats
            }
        } else {
            unchanged
        }
    }
}

/// Recording a sample when adaptive scheduling is on.
pub open spec fn adapted(
    before: AdaptiveScheduler,
    after: AdaptiveScheduler,
    task_count: usize,
    queue_depth: usize,
    now: u64,
) -> bool {
    let sample = WorkloadSample {
        timestamp: now,
        task_count,
        avg_execution_time_ns: average_time(before.stats()),
        queue_depth,
    };
    let h = recorded(before.history(), sample);
    &&& after.history() == h
    &&& adaptation(h, before.strategy(), before.adapted_at(), before.stats(), after, now)
}

/// Whether the mean of `count` values summing to `sum` is above `bound`
/// (compared exactly, without rounding the mean).
pub open spec fn mean_above(sum: int, count: int, bound: int) -> bool {
    sum > bound * count
}

/// Whether the mean of `count` values summing to `sum` is below `bound`
/// (compared exactly, without rounding the mean).
pub open spec fn mean_below(sum: int, count: int, bound: int) -> bool {
    sum < bound * count
}

/// Once ten samples are recorded and 100 ms have passed since the last
/// change, recording a sample leaves the scheduler on the strategy that the
/// means of the last ten samples call for: adaptive batching when the mean
/// queue depth is above 50 and the mean execution time above 10 µs;
/// otherwise shortest job first when the mean time is below 1 µs; otherwise
/// priority when the mean depth is above 20; and round robin only when the
/// mean depth is at most 20 and the mean time at least 1 µs.
pub proof fn lemma_strategy_follows_averages(
    before: AdaptiveScheduler,
    after: AdaptiveScheduler,
    task_count: usize,
    queue_depth: usize,
    now: u64,
)
    requires
        adapted(before, after, task_count, queue_depth, now),
        now >= before.adapted_at() + ADAPTATION_INTERVAL_NS,
        after.history().len() >= WORKLOAD_WINDOW,
    ensures
        ({
            let h = after.history();
            let w = h.subrange(h.len() - 10, h.len() as int);
            let n = WORKLOAD_WINDOW as int;
            let deep = mean_above(depth_sum(w), n, 50);
            let slow = mean_above(time_sum(w), n, 10000);
            let fast = mean_below(time_sum(w), n, 1000);
            let busy = mean_above(depth_sum(w), n, 20);
            &&& deep && slow ==> after.strategy() == SchedulingStrategy::AdaptiveBatch
            &&& !(deep && slow) && fast ==> after.strategy() == SchedulingStrategy::ShortestJobFirst
            &&& !(deep && slow) && !fast && busy ==> after.strategy() == SchedulingStrategy::Priority
            &&& !busy && !fast ==> after.strategy() == SchedulingStrategy::RoundRobin
        }),
{
    let h = after.history();
    let w = h.subrange(h.len() - 10, h.len() as int);
    assert(after.strategy() == strategy_for(depth_sum(w), time_sum(w)));
}

/// The time after which pending items are flushed on the next addition:
/// 10 ms, in nanoseconds.
pub const BATCH_FLUSH_INTERVAL_NS: u64 = 10000000;

/// Batch processor for grouping operations
pub struct BatchProcessor<T, P> {
    config: PerformanceConfig,
    pending_items: Vec<T>,
    last_flush: u64,
    processor: P,
}

impl<T, P: Fn(Vec<T>) -> AsyncResult<()>> BatchProcessor<T, P> {
    /// The items waiting for the next batch, in order.
    pub closed spec fn pending(&self) -> Seq<T> {
        self.pending_items@
    }

    /// When the last batch was handed over (or the processor made).
    pub closed spec fn flushed_at(&self) -> u64 {
        self.last_flush
    }

    /// The processor's configuration.
    pub closed spec fn settings(&self) -> PerformanceConfig {
        self.config
    }

    /// The function batches are handed to.
    pub closed spec fn handler(&self) -> P {
        self.processor
    }

    /// Create a new batch processor at time `now`
    pub fn new(config: PerformanceConfig, processor: P, now: u64) -> (b: Self)
        ensures
            b.pending() == Seq::<T>::empty(),
            b.flushed_at() == now,
            b.settings() == config,
            b.handler() == processor,
    {
        BatchProcessor { config, pending_items: Vec::new(), last_flush: now, processor }
    }

    /// The number of items waiting
    pub fn pending_len(&self) -> (n: usize)
        ensures
            n == self.pending().len(),
    {
        self.pending_items.len()
    }

    /// Hands the pending items to the processor at time `now`.
    fn hand_over(&mut self, now: u64) -> (r: AsyncResult<()>)
        requires
            forall|v: Vec<T>| #[trigger] old(self).handler().requires((v,)),
        ensures
            final(self).pending() == Seq::<T>::empty(),
            final(self).flushed_at() == now,
            final(self).settings() == old(self).settings(),
            final(self).handler() == old(self).handler(),
            exists|v: Vec<T>| v@ == old(self).pending() && #[trigger] old(self).handler().ensures((v,), r),
    {
        let mut items: Vec<T> = Vec::new();
        std::mem::swap(&mut items, &mut self.pending_items);
        self.last_flush = now;
        let ghost given = items;
        assert(old(self).handler().requires((items,)));
        assert(old(self).processor == self.processor);
        assert(self.processor.requires((items,)));
        let r = (self.processor)(items);
        assert(self.processor.ensures((given,), r));
        r
    }

    /// Add an item at time `now`: handed over alone when batching is off;
    /// otherwise the batch is handed over once it is full or the last one
    /// is more than 10 ms old
    pub fn add(&mut self, item: T, now: u64) -> (r: AsyncResult<()>)
        requires
            forall|v: Vec<T>| #[trigger] old(self).handler().requires((v,)),
        ensures
            final(self).settings() == old(self).settings(),
            final(self).handler() == old(self).handler(),
            !old(self).settings().enable_batch_processing ==> final(self).pending() == old(self).pending()
                && final(self).flushed_at() == old(self).flushed_at() && exists|v: Vec<T>|
                v@ == seq![item] && #[trigger] old(self).handler().ensures((v,), r),
            old(self).settings().enable_batch_processing ==> batch_added(*old(self), *final(self), item, now, r),
    {
        if !self.config.enable_batch_processing {
            let v = vec![item];
            assert(v@ =~= seq![item]);
            let ghost given = v;
            assert(old(self).handler().requires((v,)));
            assert(old(self).processor == self.processor);
            assert(self.processor.requires((v,)));
            let r = (self.processor)(v);
            assert(self.processor.ensures((given,), r));
            return r;
        }
        self.pending_items.push(item);
        assert(old(self).processor == self.processor);
        assert(forall|v: Vec<T>| #[trigger] self.handler().requires((v,))) by {
            assert forall|v: Vec<T>| #[trigger] self.handler().requires((v,)) by {
                assert(old(self).handler().requires((v,)));
            }
        }
        if self.pending_items.len() >= self.config.max_batch_size {
            return self.hand_over(now);
        }
        if now.saturating_sub(self.last_flush) > BATCH_FLUSH_INTERVAL_NS {
            assert(self.pending() == old(self).pending().push(item));
            assert(self.flushed_at() == old(self).flushed_at());
            let ghost mid = *self;
            assert(mid.handler() == old(self).handler());
            let r = self.hand_over(now);
            proof {
                let w = choose|v: Vec<T>| v@ == mid.pending() && #[trigger] mid.handler().ensures((v,), r);
                assert(old(self).handler().ensures((w,), r));
            }
            return r;
        }
        Ok(())
    }

    /// Force flush all pending items at time `now` (the processor is not
    /// called when none is pending)
    pub fn flush(&mut self, now: u64) -> (r: AsyncResult<()>)
        requires
            forall|v: Vec<T>| #[trigger] old(self).handler().requires((v,)),
        ensures
            final(self).pending() == Seq::<T>::empty(),
            final(self).flushed_at() == now,
            final(self).settings() == old(self).settings(),
            final(self).handler() == old(self).handler(),
            old(self).pending().len() == 0 ==> r is Ok,
            old(self).pending().len() > 0 ==> exists|v: Vec<T>| v@ == old(self).pending() && #[trigger] old(
                self,
            ).handler().ensures((v,), r),
    {
        if self.pending_items.len() == 0 {
            self.last_flush = now;
            return Ok(());
        }
        self.hand_over(now)
    }
}

/// Adding an item when batching is on: the batch with the item is handed
/// over when full or when the last hand-over is more than 10 ms old, else
/// the item waits.
pub open spec fn batch_added<T, P: Fn(Vec<T>) -> AsyncResult<()>>(
    before: BatchProcessor<T, P>,
    after: BatchProcessor<T, P>,
    item: T,
    now: u64,
    r: AsyncResult<()>,
) -> bool {
    let batch = before.pending().push(item);
    let elapsed = if now >= before.flushed_at() {
        now - before.flushed_at()
    } else {
        0
    };
    if batch.len() >= before.settings().max_batch_size || elapsed > BATCH_FLUSH_INTERVAL_NS {
        &&& after.pending() == Seq::<T>::empty()
        &&& after.flushed_at() == now
        &&& exists|v: Vec<T>| v@ == batch && #[trigger] before.handler().ensures((v,), r)
    } else {
        after.pending() == batch && after.flushed_at() == before.flushed_at() && r is Ok
    }
}

/// Nanoseconds in a second.
pub const NANOS_PER_SECOND: u64 = 1000000000;

/// A cached value with its creation time (in nanoseconds) and the number of
/// times it was read (starting at one)
#[derive(Debug, Clone)]
pub struct CacheEntry<V> {
    pub value: V,
    pub created_at: u64,
    pub access_count: usize,
}

/// The age at `now` of something made at `created` (zero if `now` is
/// earlier).
pub open spec fn age_at(created: u64, now: u64) -> int {
    if now >= created {
        now - created
    } else {
        0
    }
}

/// Whether an entry of age `a` (ns) read `ca` times scores below one of age
/// `b` read `cb` times, the score being the age in seconds plus
/// 1/(reads + 1): the two scores compared exactly, by cross-multiplying.
pub open spec fn scores_below(a: int, ca: int, b: int, cb: int) -> bool {
    (a * (ca + 1) + NANOS_PER_SECOND) * (cb + 1) < (b * (cb + 1) + NANOS_PER_SECOND) * (ca + 1)
}

proof fn lemma_scores_reduced(a: int, ca: int, b: int, cb: int)
    ensures
        scores_below(a, ca, b, cb) <==> (a - b) * ((ca + 1) * (cb + 1)) < NANOS_PER_SECOND * (ca - cb),
{
    let k = (ca + 1) * (cb + 1);
    let l = (a * (ca + 1) + NANOS_PER_SECOND) * (cb + 1);
    let r = (b * (cb + 1) + NANOS_PER_SECOND) * (ca + 1);
    assert(r - l == (b - a) * k + NANOS_PER_SECOND * (ca - cb)) by (nonlinear_arith)
        requires
            k == (ca + 1) * (cb + 1),
            l == (a * (ca + 1) + NANOS_PER_SECOND) * (cb + 1),
            r == (b * (cb + 1) + NANOS_PER_SECOND) * (ca + 1),
    ;
    assert((b - a) * k == -((a - b) * k)) by (nonlinear_arith);
}

proof fn lemma_scores_above(a: int, ca: int, b: int, cb: int, c: int, cc: int)
    requires
        ca >= 0,
        cb >= 0,
        cc >= 0,
        !scores_below(b, cb, a, ca),
        scores_below(b, cb, c, cc),
    ensures
        scores_below(a, ca, c, cc),
        !scores_below(c, cc, a, ca),
{
    let na = a * (ca + 1) + NANOS_PER_SECOND;
    let nb = b * (cb + 1) + NANOS_PER_SECOND;
    let nc = c * (cc + 1) + NANOS_PER_SECOND;
    let da = ca + 1;
    let db = cb + 1;
    let dc = cc + 1;
    assert(na * db <= nb * da);
    assert(nb * dc < nc * db);
    assert(na * dc < nc * da) by (nonlinear_arith)
        requires
            na * db <= nb * da,
            nb * dc < nc * db,
            da > 0,
            db > 0,
            dc > 0,
    ;
}

proof fn lemma_scores_asymmetric(a: int, ca: int, b: int, cb: int)
    ensures
        !(scores_below(a, ca, b, cb) && scores_below(b, cb, a, ca)),
{
}

/// Whether an entry of age `a` read `ca` times scores below one of age `b`
/// read `cb` times.
fn score_below(a: u64, ca: usize, b: u64, cb: usize) -> (r: bool)
    ensures
        r == scores_below(a as int, ca as int, b as int, cb as int),
{
    proof {
        lemma_scores_reduced(a as int, ca as int, b as int, cb as int);
    }
    let ghost k: int = (ca + 1) * (cb + 1);
    assert(k >= 1) by (nonlinear_arith)
        requires
            k == (ca + 1) * (cb + 1),
            ca >= 0,
            cb >= 0,
    ;
    if a >= b && ca <= cb {
        assert((a - b) * k >= 0) by (nonlinear_arith)
            requires
                a >= b,
                k >= 1,
        ;
        return false;
    }
    if a <= b && ca >= cb {
        assert((a - b) * k <= 0) by (nonlinear_arith)
            requires
                a <= b,
                k >= 1,
        ;
        assert(a < b ==> (a - b) * k < 0) by (nonlinear_arith)
            requires
                k >= 1,
        ;
        return !(a == b && ca == cb);
    }
    let ka: u128 = ca as u128 + 1;
    let kb: u128 = cb as u128 + 1;
    if a > b {
        // here ca > cb: compare (a - b) * k with NANOS * (ca - cb)
        let x: u128 = (a - b) as u128;
        let y: u128 = 1000000000u128 * ((ca - cb) as u128);
        match ka.checked_mul(kb) {
            None => {
                assert(x * k >= k) by (nonlinear_arith)
                    requires
                        x >= 1,
                        k >= 1,
                ;
                false
            },
            Some(kk) => {
                let q = (y - 1) / x;
                proof {
                    assert(kk == k);
                    vstd::arithmetic::div_mod::lemma_fundamental_div_mod((y - 1) as int, x as int);
                    let r = ((y - 1) as int) % (x as int);
                    assert(0 <= r < x) by {
                        vstd::arithmetic::div_mod::lemma_mod_bound((y - 1) as int, x as int);
                    }
                    assert(x * kk < y <==> kk <= q) by (nonlinear_arith)
                        requires
                            x >= 1,
                            y >= 1,
                            y - 1 == x * q + r,
                            0 <= r < x,
                            kk >= 0,
                            q >= 0,
                    ;
                }
                kk <= q
            },
        }
    } else {
        // here a < b and ca < cb: compare (b - a) * k with NANOS * (cb - ca)
        let x: u128 = (b - a) as u128;
        let y: u128 = 1000000000u128 * ((cb - ca) as u128);
        match ka.checked_mul(kb) {
            None => {
                assert(x * k >= k) by (nonlinear_arith)
                    requires
                        x >= 1,
                        k >= 1,
                ;
                assert((a - b) * k == -(x * k)) by (nonlinear_arith)
                    requires
                        x == b - a,
                ;
                true
            },
            Some(kk) => {
                let q = y / x;
                proof {
                    assert(kk == k);
                    assert((a - b) * k == -(x * k)) by (nonlinear_arith)
                        requires
                            x == b - a,
                    ;
                    vstd::arithmetic::div_mod::lemma_fundamental_div_mod(y as int, x as int);
                    let r = (y as int) % (x as int);
                    assert(0 <= r < x) by {
                        vstd::arithmetic::div_mod::lemma_mod_bound(y as int, x as int);
                    }
                    assert(x * kk > y <==> kk > q) by (nonlinear_arith)
                        requires
                            x >= 1,
                            y == x * q + r,
                            0 <= r < x,
                            kk >= 0,
                            q >= 0,
                    ;
                }
                kk > q
            },
        }
    }
}

/// Whether entry `x` scores below entry `y` at `now`.
pub open spec fn below<V>(x: (Seq<char>, CacheEntry<V>), y: (Seq<char>, CacheEntry<V>), now: u64) -> bool {
    scores_below(
        age_at(x.1.created_at, now),
        x.1.access_count as int,
        age_at(y.1.created_at, now),
        y.1.access_count as int,
    )
}

/// Whether position `v` holds the entry to evict at `now`: the least
/// recently used one, the first with the highest score (the score grows
/// with the age and falls with the number of reads).
pub open spec fn is_victim<V>(s: Seq<(Seq<char>, CacheEntry<V>)>, now: u64, v: int) -> bool {
    &&& 0 <= v < s.len()
    &&& forall|j: int| 0 <= j < s.len() ==> !below(s[v], #[trigger] s[j], now)
    &&& forall|j: int| 0 <= j < v ==> below(#[trigger] s[j], s[v], now)
}

/// The entries left after evicting at `now`: the victim goes (nothing goes
/// from an empty cache).
pub open spec fn evicted<V>(s: Seq<(Seq<char>, CacheEntry<V>)>, now: u64, rest: Seq<(Seq<char>, CacheEntry<V>)>) -> bool {
    if s.len() == 0 {
        rest == s
    } else {
        exists|v: int| is_victim(s, now, v) && rest == s.remove(v)
    }
}

/// What putting `value` under `key` at `now` leaves in the cache: the new
/// entry stored over the entries, or over those left after evicting one
/// when the cache was full.
pub open spec fn put_into<V>(
    before: Seq<(Seq<char>, CacheEntry<V>)>,
    capacity: usize,
    key: Seq<char>,
    value: V,
    now: u64,
    after: Seq<(Seq<char>, CacheEntry<V>)>,
) -> bool {
    let entry = CacheEntry { value, created_at: now, access_count: 1 };
    &&& before.len() < capacity ==> after == insert_model(before, key, entry)
    &&& before.len() >= capacity ==> exists|rest: Seq<(Seq<char>, CacheEntry<V>)>|
        #[trigger] evicted(before, now, rest) && after == insert_model(rest, key, entry)
}

/// A value put in the cache is found under its key afterwards, however
/// full the cache was, as an entry made at that time: read within its
/// lifetime it is a hit.
pub proof fn lemma_put_then_get<V>(
    before: Seq<(Seq<char>, CacheEntry<V>)>,
    capacity: usize,
    key: Seq<char>,
    value: V,
    now: u64,
    after: Seq<(Seq<char>, CacheEntry<V>)>,
    later: u64,
    ttl: u64,
)
    requires
        keys_distinct(before),
        put_into(before, capacity, key, value, now, after),
        age_at(now, later) <= ttl,
    ensures
        lookup(after, key) matches Some(e) && e.value == value && e.created_at == now && age_at(e.created_at, later) <= ttl,
{
    let entry = CacheEntry { value, created_at: now, access_count: 1 };
    if before.len() < capacity {
        lemma_insert_keeps_distinct(before, key, entry);
    } else {
        let rest = choose|rest: Seq<(Seq<char>, CacheEntry<V>)>| #[trigger] evicted(before, now, rest) && after == insert_model(rest, key, entry);
        assert(keys_distinct(rest)) by {
            if before.len() > 0 {
                let v = choose|v: int| is_victim(before, now, v) && rest == before.remove(v);
                assert forall|a: int, b: int| 0 <= a < rest.len() && 0 <= b < rest.len() && a != b implies #[trigger] rest[a].0
                    != #[trigger] rest[b].0 by {
                    let a2 = if a < v { a } else { a + 1 };
                    let b2 = if b < v { b } else { b + 1 };
                    assert(rest[a] == before[a2] && rest[b] == before[b2]);
                }
            }
        }
        lemma_insert_keeps_distinct(rest, key, entry);
    }
}

/// A put never takes the cache past its capacity, and costs at most one
/// other entry: below capacity every other entry stays as it was; at
/// capacity, of any two other entries at least one stays.
pub proof fn lemma_put_keeps_bound<V>(
    before: Seq<(Seq<char>, CacheEntry<V>)>,
    capacity: usize,
    key: Seq<char>,
    value: V,
    now: u64,
    after: Seq<(Seq<char>, CacheEntry<V>)>,
)
    requires
        keys_distinct(before),
        1 <= capacity,
        before.len() <= capacity,
        put_into(before, capacity, key, value, now, after),
    ensures
        keys_distinct(after),
        after.len() <= capacity,
        before.len() < capacity ==> forall|k: Seq<char>| k != key ==> lookup(after, k) == lookup(before, k),
        forall|i: int, j: int|
            0 <= i < before.len() && 0 <= j < before.len() && i != j && before[i].0 != key && before[j].0 != key
                ==> lookup(after, #[trigger] before[i].0) == Some(before[i].1) || lookup(after, #[trigger] before[j].0)
                == Some(before[j].1),
{
    let entry = CacheEntry { value, created_at: now, access_count: 1 };
    if before.len() < capacity {
        lemma_insert_keeps_distinct(before, key, entry);
        assert forall|i: int, j: int|
            0 <= i < before.len() && 0 <= j < before.len() && i != j && before[i].0 != key && before[j].0 != key
                implies lookup(after, #[trigger] before[i].0) == Some(before[i].1) || lookup(after, #[trigger] before[j].0)
                == Some(before[j].1) by {
            lemma_key_index(before, before[i].0, i);
        }
    } else {
        let rest = choose|rest: Seq<(Seq<char>, CacheEntry<V>)>| #[trigger] evicted(before, now, rest) && after == insert_model(rest, key, entry);
        let v = choose|v: int| is_victim(before, now, v) && rest == before.remove(v);
        assert(keys_distinct(rest)) by {
            assert forall|a: int, b: int| 0 <= a < rest.len() && 0 <= b < rest.len() && a != b implies #[trigger] rest[a].0
                != #[trigger] rest[b].0 by {
                let a2 = if a < v { a } else { a + 1 };
                let b2 = if b < v { b } else { b + 1 };
                assert(rest[a] == before[a2] && rest[b] == before[b2]);
            }
        }
        lemma_insert_keeps_distinct(rest, key, entry);
        assert forall|i: int, j: int|
            0 <= i < before.len() && 0 <= j < before.len() && i != j && before[i].0 != key && before[j].0 != key
                implies lookup(after, #[trigger] before[i].0) == Some(before[i].1) || lookup(after, #[trigger] before[j].0)
                == Some(before[j].1) by {
            let kept = if i != v { i } else { j };
            let at = if kept < v { kept } else { kept - 1 };
            assert(rest[at] == before[kept]);
            lemma_key_index(rest, before[kept].0, at);
        }
    }
}

/// The entries still fresh at `now`, in order.
pub open spec fn fresh_entries<V>(s: Seq<(Seq<char>, CacheEntry<V>)>, now: u64, ttl: u64) -> Seq<(Seq<char>, CacheEntry<V>)>
    decreases s.len(),
{
    if s.len() == 0 {
        s
    } else {
        let rest = fresh_entries(s.drop_last(), now, ttl);
        if age_at(s.last().1.created_at, now) <= ttl {
            rest.push(s.last())
        } else {
            rest
        }
    }
}

/// Memory-efficient cache for frequently accessed data, keyed by name
pub struct AsyncCache<V> {
    data: NameMap<CacheEntry<V>>,
    max_size: usize,
    ttl: u64,
    metrics: PerformanceMetrics,
}

impl<V: Clone> AsyncCache<V> {
    /// The cached entries, in insertion order.
    pub closed spec fn entries(&self) -> Seq<(Seq<char>, CacheEntry<V>)> {
        self.data@
    }

    /// The number of entries past which one is evicted.
    pub closed spec fn capacity(&self) -> usize {
        self.max_size
    }

    /// How long an entry stays fresh, in nanoseconds.
    pub closed spec fn lifetime(&self) -> u64 {
        self.ttl
    }

    /// The cache's hit and miss counts.
    pub closed spec fn counters(&self) -> PerformanceMetrics {
        self.metrics
    }

    /// Create a new cache
    pub fn new(max_size: usize, ttl: u64, metrics: PerformanceMetrics) -> (c: Self)
        ensures
            c.entries() == Seq::<(Seq<char>, CacheEntry<V>)>::empty(),
            c.capacity() == max_size,
            c.lifetime() == ttl,
            c.counters() == metrics,
    {
        AsyncCache { data: NameMap::new(), max_size, ttl, metrics }
    }

    /// The number of entries (no key occurs twice)
    pub fn len(&self) -> (n: usize)
        ensures
            n == self.entries().len(),
            keys_distinct(self.entries()),
    {
        proof {
            use_type_invariant(&self.data);
        }
        self.data.len()
    }

    /// Get a value from the cache at time `now`: a fresh entry is a hit (and
    /// counted as read); an expired one is dropped; both a missing and an
    /// expired entry are a miss
    pub fn get(&mut self, key: &str, now: u64) -> (r: AsyncResult<Option<V>>)
        ensures
            final(self).capacity() == old(self).capacity(),
            final(self).lifetime() == old(self).lifetime(),
            match lookup(old(self).entries(), key@) {
                Some(e) => if age_at(e.created_at, now) <= old(self).lifetime() {
                    &&& r matches Ok(Some(v)) && cloned::<V>(e.value, v)
                    &&& final(self).entries() == insert_model(
                        old(self).entries(),
                        key@,
                        CacheEntry { value: e.value, created_at: e.created_at, access_count: wrap_inc(e.access_count) },
                    )
                    &&& final(self).counters() == PerformanceMetrics {
                        cache_hits: wrap_inc(old(self).counters().cache_hits),
                        ..old(self).counters()
                    }
                } else {
                    &&& r == Ok::<Option<V>, AsyncRuntimeError>(None)
                    &&& final(self).entries() == remove_model(old(self).entries(), key@)
                    &&& final(self).counters() == PerformanceMetrics {
                        cache_misses: wrap_inc(old(self).counters().cache_misses),
                        ..old(self).counters()
                    }
                },
                None => {
                    &&& r == Ok::<Option<V>, AsyncRuntimeError>(None)
                    &&& final(self).entries() == old(self).entries()
                    &&& final(self).counters() == PerformanceMetrics {
                        cache_misses: wrap_inc(old(self).counters().cache_misses),
                        ..old(self).counters()
                    }
                },
            },
    {
        if let Some(i) = self.data.position(key) {
            let created = self.data.value_at(i).created_at;
            let count = self.data.value_at(i).access_count;
            if now.saturating_sub(created) <= self.ttl {
                let v = self.data.value_at(i).value.clone();
                let ghost before = self.data@;
                let (name, entry) = self.data.remove_at(i);
                proof {
                    assert forall|j: int| 0 <= j < self.data@.len() implies #[trigger] self.data@[j].0 != name@ by {
                        let jj = if j < i { j } else { j + 1 };
                        assert(self.data@[j] == before[jj]);
                    }
                }
                let updated = CacheEntry { value: entry.value, created_at: entry.created_at, access_count: entry.access_count.wrapping_add(1) };
                self.data.insert_at(i, name, updated);
                proof {
                    assert(self.data@ =~= before.update(i as int, (key@, updated)));
                }
                self.metrics.cache_hits = self.metrics.cache_hits.wrapping_add(1);
                return Ok(Some(v));
            } else {
                self.data.remove(key);
            }
        }
        self.metrics.cache_misses = self.metrics.cache_misses.wrapping_add(1);
        Ok(None)
    }

    /// The position of the entry to evict at `now`.
    fn victim(&self, now: u64) -> (v: usize)
        requires
            self.entries().len() > 0,
        ensures
            is_victim(self.entries(), now, v as int),
    {
        let ghost s = self.entries();
        let n = self.data.len();
        let mut best: usize = 0;
        let mut i: usize = 1;
        while i < n
            invariant
                1 <= i <= n,
                n == self.entries().len(),
                best < i,
                forall|j: int| 0 <= j < i ==> !below(self.entries()[best as int], #[trigger] self.entries()[j], now),
                forall|j: int| 0 <= j < best ==> below(#[trigger] self.entries()[j], self.entries()[best as int], now),
            decreases n - i,
        {
            let ei = self.data.value_at(i);
            let eb = self.data.value_at(best);
            if score_below(
                now.saturating_sub(eb.created_at),
                eb.access_count,
                now.saturating_sub(ei.created_at),
                ei.access_count,
            ) {
                proof {
                    let ghost e = self.entries();
                    assert forall|j: int| 0 <= j < i implies below(#[trigger] e[j], e[i as int], now) && !below(
                        e[i as int],
                        e[j],
                        now,
                    ) by {
                        lemma_scores_above(
                            age_at(e[j].1.created_at, now),
                            e[j].1.access_count as int,
                            age_at(e[best as int].1.created_at, now),
                            e[best as int].1.access_count as int,
                            age_at(e[i as int].1.created_at, now),
                            e[i as int].1.access_count as int,
                        );
                    }
                    lemma_scores_asymmetric(
                        age_at(e[i as int].1.created_at, now),
                        e[i as int].1.access_count as int,
                        age_at(e[i as int].1.created_at, now),
                        e[i as int].1.access_count as int,
                    );
                }
                best = i;
            }
            i = i + 1;
        }
        best
    }

    /// Evict the least recently used entry at `now`: the oldest and least
    /// read, the first with the highest score.
    fn evict_lru(&mut self, now: u64)
        ensures
            evicted(old(self).entries(), now, final(self).entries()),
            final(self).capacity() == old(self).capacity(),
            final(self).lifetime() == old(self).lifetime(),
            final(self).counters() == old(self).counters(),
    {
        if self.data.len() == 0 {
            return;
        }
        let v = self.victim(now);
        self.data.remove_at(v);
    }

    /// Put a value in the cache at time `now`, first evicting the least
    /// recently used entry when the cache is full
    pub fn put(&mut self, key: String, value: V, now: u64) -> (r: AsyncResult<()>)
        ensures
            r is Ok,
            final(self).capacity() == old(self).capacity(),
            final(self).lifetime() == old(self).lifetime(),
            final(self).counters() == old(self).counters(),
            put_into(old(self).entries(), old(self).capacity(), key@, value, now, final(self).entries()),
    {
        if self.data.len() >= self.max_size {
            self.evict_lru(now);
        }
        self.data.insert(key, CacheEntry { value, created_at: now, access_count: 1 });
        Ok(())
    }

    /// Clear expired entries at `now`; how many went
    pub fn cleanup(&mut self, now: u64) -> (r: AsyncResult<usize>)
        ensures
            final(self).entries() == fresh_entries(old(self).entries(), now, old(self).lifetime()),
            r == Ok::<usize, AsyncRuntimeError>((old(self).entries().len() - final(self).entries().len()) as usize),
            final(self).capacity() == old(self).capacity(),
            final(self).lifetime() == old(self).lifetime(),
            final(self).counters() == old(self).counters(),
    {
        let ghost s = self.data@;
        let initial = self.data.len();
        let mut i: usize = 0;
        let mut k: usize = 0;
        proof {
            assert(s.subrange(0, 0) =~= Seq::<(Seq<char>, CacheEntry<V>)>::empty());
            assert(s.subrange(0, s.len() as int) =~= s);
        }
        while k < initial
            invariant
                k <= initial,
                initial == s.len(),
                self.data@ == fresh_entries(s.subrange(0, k as int), now, self.ttl) + s.subrange(k as int, s.len() as int),
                i == fresh_entries(s.subrange(0, k as int), now, self.ttl).len(),
                i <= k,
                self.ttl == old(self).lifetime(),
                self.max_size == old(self).capacity(),
                self.metrics == old(self).counters(),
            decreases initial - k,
        {
            let ghost f = fresh_entries(s.subrange(0, k as int), now, self.ttl);
            assert(s.subrange(0, k + 1).drop_last() =~= s.subrange(0, k as int));
            assert(self.data@[i as int] == s[k as int]);
            let created = self.data.value_at(i).created_at;
            if now.saturating_sub(created) > self.ttl {
                self.data.remove_at(i);
                assert(self.data@ =~= fresh_entries(s.subrange(0, k + 1), now, self.ttl) + s.subrange(k + 1, s.len() as int));
            } else {
                assert(self.data@ =~= fresh_entries(s.subrange(0, k + 1), now, self.ttl) + s.subrange(k + 1, s.len() as int));
                i = i + 1;
            }
            k = k + 1;
        }
        assert(s.subrange(0, s.len() as int) =~= s);
        assert(self.data@ =~= fresh_entries(s, now, self.ttl));
        Ok(initial - self.data.len())
    }

    /// Get cache statistics: entries, and reads (hits and misses)
    pub fn stats(&self) -> (r: AsyncResult<(usize, usize)>)
        requires
            self.counters().cache_hits + self.counters().cache_misses <= usize::MAX,
        ensures
            r == Ok::<(usize, usize), AsyncRuntimeError>(
                (self.entries().len() as usize, (self.counters().cache_hits + self.counters().cache_misses) as usize),
            ),
    {
        Ok((self.data.len(), self.metrics.cache_hits + self.metrics.cache_misses))
    }

    /// The cache's metrics
    pub fn metrics(&self) -> (m: &PerformanceMetrics)
        ensures
            *m == self.counters(),
    {
        &self.metrics
    }
}

/// The counts behind the optimization statistics.
#[derive(Debug, Clone, Copy)]
pub struct OptimizationCounts {
    pub object_pool_available: usize,
    pub object_pool_in_use: usize,
    pub object_pool_created: usize,
    pub cache_size: usize,
    /// Cache lookups that hit
    pub cache_hits: usize,
    pub cache_total_accesses: usize,
    pub allocations_avoided: usize,
    pub batch_operations: usize,
    pub scheduler_adaptations: usize,
    pub current_strategy: SchedulingStrategy,
}

/// Waker cache capacity of an optimized executor.
pub const WAKER_CACHE_SIZE: usize = 1000;

/// Task pool capacity of an optimized executor.
pub const TASK_POOL_SIZE: usize = 1000;

/// How long a cached waker lives: one minute.
pub const WAKER_CACHE_TTL_NS: u64 = 60000000000;

/// The optimizations around an executor: the adaptive scheduler and its
/// metrics, the task pool, the waker cache and the batch processor. The
/// executor itself is passed in to the operations that use it.
pub struct OptimizedExecutor<F, W, P> {
    scheduler: AdaptiveScheduler,
    task_pool: ObjectPool<(), F>,
    waker_cache: AsyncCache<W>,
    batch_processor: BatchProcessor<TaskId, P>,
    config: PerformanceConfig,
    is_running: bool,
}

impl<F: Fn() -> (), W: Clone, P: Fn(Vec<TaskId>) -> AsyncResult<()>> OptimizedExecutor<F, W, P> {
    /// The pool makes at most one object, which is always back in the pool
    /// between operations; the handlers accept every call; the cache's
    /// counters stay at zero.
    pub closed spec fn wf(&self) -> bool {
        &&& self.task_pool.available().len() == self.task_pool.created()
        &&& self.task_pool.created() <= 1
        &&& self.task_pool.capacity() == TASK_POOL_SIZE
        &&& self.task_pool.maker().requires(())
        &&& forall|v: Vec<TaskId>| #[trigger] self.batch_processor.handler().requires((v,))
        &&& metrics_zero(self.waker_cache.counters())
        &&& self.waker_cache.lifetime() == WAKER_CACHE_TTL_NS
        &&& self.scheduler.settings() == self.config
    }

    /// The configuration.
    pub closed spec fn settings(&self) -> PerformanceConfig {
        self.config
    }

    /// The scheduler.
    pub closed spec fn sched(&self) -> AdaptiveScheduler {
        self.scheduler
    }

    /// The number of objects the task pool has made.
    pub closed spec fn pool_made(&self) -> usize {
        self.task_pool.created()
    }

    /// Whether the executor is running.
    pub closed spec fn running(&self) -> bool {
        self.is_running
    }

    /// The cached wakers.
    pub closed spec fn cached(&self) -> Seq<(Seq<char>, CacheEntry<W>)> {
        self.waker_cache.entries()
    }

    /// The task identifiers waiting for the batch processor.
    pub closed spec fn batched(&self) -> Seq<TaskId> {
        self.batch_processor.pending()
    }

    /// Create a new optimized executor: `factory` makes the pooled task
    /// objects and `batch_handler` processes batches of task identifiers.
    pub fn new(config: PerformanceConfig, factory: F, batch_handler: P, now: u64) -> (e: Self)
        requires
            factory.requires(()),
            forall|v: Vec<TaskId>| #[trigger] batch_handler.requires((v,)),
        ensures
            e.wf(),
            e.settings() == config,
            e.sched().history() == Seq::<WorkloadSample>::empty(),
            e.sched().strategy() == SchedulingStrategy::RoundRobin,
            e.sched().adapted_at() == now,
            metrics_zero(e.sched().stats()),
            e.pool_made() == 0,
            e.cached() == Seq::<(Seq<char>, CacheEntry<W>)>::empty(),
            e.batched() == Seq::<TaskId>::empty(),
            !e.running(),
    {
        let scheduler = AdaptiveScheduler::new(config, now);
        let metrics = PerformanceMetrics::default();
        let task_pool = ObjectPool::new(factory, TASK_POOL_SIZE);
        let waker_cache = AsyncCache::new(WAKER_CACHE_SIZE, WAKER_CACHE_TTL_NS, metrics);
        let batch_processor = BatchProcessor::new(config, batch_handler, now);
        OptimizedExecutor { scheduler, task_pool, waker_cache, batch_processor, config, is_running: false }
    }

    /// Spawn a task on `base` at `now`, taking a task object from the pool
    /// (and putting it back) when pooling is enabled.
    pub fn spawn_optimized(&mut self, base: &mut Executor, now: u64) -> (r: AsyncResult<TaskId>)
        requires
            old(self).wf(),
        ensures
            final(self).wf(),
            spawn_outcome(*old(base), *final(base), now, r),
            final(self).pool_made() == if old(self).settings().enable_object_pooling {
                1
            } else {
                old(self).pool_made()
            },
            final(self).settings() == old(self).settings(),
            final(self).sched() == old(self).sched(),
            final(self).cached() == old(self).cached(),
            final(self).batched() == old(self).batched(),
            final(self).running() == old(self).running(),
    {
        if self.config.enable_object_pooling {
            let object = self.task_pool.get();
            self.task_pool.return_object(object);
        }
        base.spawn(now)
    }

    /// Record a task spawned on `base` in `elapsed_ns` nanoseconds at `now`:
    /// the metrics count it, then the scheduler records the workload, with
    /// the live tasks of `base` as both task count and queue depth.
    pub fn record_spawn(&mut self, base: &Executor, elapsed_ns: usize, now: u64) -> (r: AsyncResult<()>)
        requires
            old(self).wf(),
        ensures
            final(self).wf(),
            r is Ok,
            ({
                let counted = (PerformanceMetrics {
                    tasks_processed: wrap_inc(old(self).sched().stats().tasks_processed),
                    total_execution_time_ns: wrap_add(old(self).sched().stats().total_execution_time_ns, elapsed_ns),
                    ..old(self).sched().stats()
                });
                let live = live_count(base.table());
                &&& !old(self).settings().enable_adaptive_scheduling ==> final(self).sched().stats() == counted
                    && final(self).sched().history() == old(self).sched().history()
                    && final(self).sched().strategy() == old(self).sched().strategy()
                &&& old(self).settings().enable_adaptive_scheduling ==> exists|mid: AdaptiveScheduler|
                    #[trigger] mid.stats() == counted && mid.history() == old(self).sched().history()
                        && mid.strategy() == old(self).sched().strategy() && mid.adapted_at() == old(
                        self,
                    ).sched().adapted_at() && mid.settings() == old(self).sched().settings() && adapted(
                        mid,
                        final(self).sched(),
                        live as usize,
                        live as usize,
                        now,
                    )
            }),
            final(self).settings() == old(self).settings(),
            final(self).pool_made() == old(self).pool_made(),
            final(self).cached() == old(self).cached(),
            final(self).batched() == old(self).batched(),
            final(self).running() == old(self).running(),
    {
        self.scheduler.record_task(elapsed_ns);
        let ghost mid = self.scheduler;
        let stats = base.get_stats();
        let r = self.scheduler.record_workload(stats.2, stats.2, now);
        proof {
            if self.config.enable_adaptive_scheduling {
                assert(mid.stats() == mid.stats());
            }
        }
        r
    }

    /// Periodic upkeep at `now`: expired wakers leave the cache and pending
    /// batches are handed over (their outcome is not reported).
    pub fn maintain(&mut self, now: u64)
        requires
            old(self).wf(),
        ensures
            final(self).wf(),
            final(self).cached() == fresh_entries(old(self).cached(), now, WAKER_CACHE_TTL_NS),
            final(self).batched() == Seq::<TaskId>::empty(),
            final(self).settings() == old(self).settings(),
            final(self).sched() == old(self).sched(),
            final(self).pool_made() == old(self).pool_made(),
            final(self).running() == old(self).running(),
    {
        let _ = self.waker_cache.cleanup(now);
        let _ = self.batch_processor.flush(now);
    }

    /// Mark the executor as running or stopped.
    pub fn set_running(&mut self, running: bool)
        requires
            old(self).wf(),
        ensures
            final(self).wf(),
            final(self).running() == running,
            final(self).settings() == old(self).settings(),
            final(self).sched() == old(self).sched(),
            final(self).pool_made() == old(self).pool_made(),
            final(self).cached() == old(self).cached(),
            final(self).batched() == old(self).batched(),
    {
        self.is_running = running;
    }

    /// Whether the executor is running.
    pub fn is_running(&self) -> (b: bool)
        ensures
            b == self.running(),
    {
        self.is_running
    }

    /// Get performance metrics
    pub fn get_performance_metrics(&self) -> (m: &PerformanceMetrics)
        ensures
            *m == self.sched().stats(),
    {
        self.scheduler.metrics()
    }

    /// The counts behind the optimization statistics: the task pool's
    /// objects, the waker cache's size and accesses, and the scheduler's
    /// metrics and strategy.
    pub fn optimization_counts(&self) -> (c: OptimizationCounts)
        requires
            self.wf(),
        ensures
            c.object_pool_available == self.pool_made(),
            c.object_pool_in_use == 0,
            c.object_pool_created == self.pool_made(),
            c.cache_size == self.cached().len(),
            c.cache_hits == 0,
            c.cache_total_accesses == 0,
            c.allocations_avoided == self.sched().stats().allocations_avoided,
            c.batch_operations == self.sched().stats().batch_operations,
            c.scheduler_adaptations == self.sched().stats().scheduler_adaptations,
            c.current_strategy == self.sched().strategy(),
    {
        let (available, in_use, created) = self.task_pool.stats();
        let accesses = match self.waker_cache.stats() {
            Ok(p) => p.1,
            Err(_) => 0,
        };
        let size = self.waker_cache.len();
        let metrics = self.scheduler.metrics();
        OptimizationCounts {
            object_pool_available: available,
            object_pool_in_use: in_use,
            object_pool_created: created,
            cache_size: size,
            cache_hits: self.waker_cache.metrics().cache_hits,
            cache_total_accesses: accesses,
            allocations_avoided: metrics.allocations_avoided,
            batch_operations: metrics.batch_operations,
            scheduler_adaptations: metrics.scheduler_adaptations,
            current_strategy: self.scheduler.current_strategy(),
        }
    }
}

} // verus!
