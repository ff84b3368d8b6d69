//! Debugging support for closure state visibility: what is recorded of
//! each closure, its calls, and the totals of a report.
use vstd::prelude::*;
use crate::idmap::id_lookup;
use crate::namemap::{NameMap, has_key, insert_model, key_index, keys_distinct, lookup};
use crate::runtime::closure::capture_storage::CaptureStorage;
use crate::runtime::closure::id_cache::{FunctionIdCache, unknown_function_text};
use crate::runtime::closure::optimized::OptimizedClosure;
use crate::runtime::closure::original::Closure;
use crate::runtime::closure::performance::{ClosurePerformanceStats, stats_zero};
use crate::runtime::value::Value;
use crate::text::{copy_strings, copy_text, decimal, strings_view, usize_to_text, concat};

verus! {

/// Debug representation of a value (without circular references); a
/// 32-bit float is held as its bit pattern
#[derive(Debug, Clone)]
pub enum DebugValue {
    /// Integer value
    I32(i32),
    /// Float value
    F32(u32),
    /// Boolean value
    Bool(bool),
    /// String value
    String(String),
    /// Reference to another closure (by ID to avoid cycles)
    ClosureRef(String),
    /// Unit value
    Unit,
    /// Complex value (truncated for display)
    Complex(String),
}

/// The name shown for an optimized closure's function: its interned name,
/// or `<unknown function #N>`.
pub open spec fn function_display(cache: FunctionIdCache, id: u32) -> Seq<char> {
    match id_lookup(cache.ids(), id) {
        Some(n) => n,
        None => unknown_function_text(id),
    }
}

/// `d` is the debug representation of `v`: a closure by its function's
/// name, null as unit, any other value as itself.
pub open spec fn debug_of(d: DebugValue, v: Value, cache: FunctionIdCache) -> bool {
    match v {
        Value::Null => d is Unit,
        Value::Bool(b) => d == DebugValue::Bool(b),
        Value::I32(i) => d == DebugValue::I32(i),
        Value::F32(f) => d == DebugValue::F32(f),
        Value::String(s) => d matches DebugValue::String(t) && t@ == s@,
        Value::Closure(c) => d matches DebugValue::ClosureRef(t) && t@ == c.function_id@,
        Value::OptimizedClosure(c) => d matches DebugValue::ClosureRef(t) && t@ == function_display(
            cache,
            c.function_id.spec_id(),
        ),
    }
}

/// Performance debugging information (the average time is the total over
/// the count of calls)
#[derive(Debug, Clone)]
pub struct DebugPerformanceInfo {
    /// Number of times this closure was called
    pub call_count: u64,
    /// Total execution time in microseconds
    pub total_execution_time_us: u64,
    /// Memory allocations count
    pub allocations: u64,
    /// Whether this closure is optimized
    pub is_optimized: bool,
    /// Optimization level applied
    pub optimization_level: String,
}

/// Debug representation of a closure's state
#[derive(Debug)]
pub struct ClosureDebugInfo {
    /// Function identifier
    pub function_id: String,
    /// Parameters
    pub parameters: Vec<String>,
    /// Captured variables and their values
    pub captured_vars: NameMap<DebugValue>,
    /// Whether captures are by reference
    pub captures_by_ref: bool,
    /// Memory usage in bytes (a rough estimate)
    pub memory_usage: usize,
    /// Performance metrics
    pub performance_info: DebugPerformanceInfo,
}

/// Configuration for closure debugging
#[derive(Debug, Clone)]
pub struct DebugConfig {
    /// Enable call tracing
    pub enable_call_tracing: bool,
    /// Enable memory tracking
    pub enable_memory_tracking: bool,
    /// Enable performance profiling
    pub enable_performance_profiling: bool,
    /// Maximum call stack depth to trace
    pub max_trace_depth: usize,
    /// Whether to capture variable values
    pub capture_variable_values: bool,
}

impl Default for DebugConfig {
    /// Everything on, tracing 100 calls deep.
    fn default() -> (c: Self)
        ensures
            c.enable_call_tracing,
            c.enable_memory_tracking,
            c.enable_performance_profiling,
            c.max_trace_depth == 100,
            c.capture_variable_values,
    {
        DebugConfig {
            enable_call_tracing: true,
            enable_memory_tracking: true,
            enable_performance_profiling: true,
            max_trace_depth: 100,
            capture_variable_values: true,
        }
    }
}

/// The in-memory size of a closure value, from `std::mem::size_of`.
#[verifier::external_body]
fn closure_size() -> usize {
    std::mem::size_of::<Closure>()
}

/// The in-memory size of an optimized closure value, from
/// `std::mem::size_of`.
#[verifier::external_body]
fn optimized_closure_size() -> usize {
    std::mem::size_of::<OptimizedClosure>()
}

/// The memory estimate: the closure's own size and 64 bytes a capture
/// (saturating at the largest `usize`).
pub open spec fn memory_estimate(base: usize, captures: nat) -> int {
    let total = base + captures * 64;
    if total > usize::MAX {
        usize::MAX as int
    } else {
        total
    }
}

/// The debug representation of a value.
fn debug_value(v: &Value, cache: &FunctionIdCache) -> (d: DebugValue)
    ensures
        debug_of(d, *v, *cache),
{
    match v {
        Value::I32(x) => DebugValue::I32(*x),
        Value::F32(x) => DebugValue::F32(*x),
        Value::Bool(x) => DebugValue::Bool(*x),
        Value::String(s) => DebugValue::String(copy_text(s.as_str())),
        Value::Null => DebugValue::Unit,
        Value::Closure(c) => DebugValue::ClosureRef(copy_text(c.function_id.as_str())),
        Value::OptimizedClosure(c) => DebugValue::ClosureRef(c.function_id.display_text(cache)),
    }
}

/// A fresh performance record.
fn performance_info(optimized: bool) -> (p: DebugPerformanceInfo)
    ensures
        p.call_count == 0 && p.total_execution_time_us == 0 && p.allocations == 0,
        p.is_optimized == optimized,
        p.optimization_level@ == (if optimized { "Optimized"@ } else { "None"@ }),
{
    DebugPerformanceInfo {
        call_count: 0,
        total_execution_time_us: 0,
        allocations: 0,
        is_optimized: optimized,
        optimization_level: if optimized {
            copy_text("Optimized")
        } else {
            copy_text("None")
        },
    }
}

/// The estimate of a closure's memory.
fn estimate(base: usize, captures: usize) -> (m: usize)
    ensures
        m == memory_estimate(base, captures as nat),
{
    if captures > (usize::MAX - base) / 64 {
        usize::MAX
    } else {
        assert(captures * 64 <= usize::MAX - base) by (nonlinear_arith)
            requires
                captures <= (usize::MAX - base) / 64,
        ;
        base + captures * 64
    }
}

/// The debug record of a closure, as registration makes it.
pub open spec fn closure_info(info: ClosureDebugInfo, c: Closure, cache: FunctionIdCache) -> bool {
    &&& info.function_id@ == c.function_id@
    &&& strings_view(info.parameters@) == strings_view(c.parameters@)
    &&& info.captures_by_ref == c.captures_by_ref
    &&& info.captured_vars@.len() == c.captured_vars@.len()
    &&& forall|i: int|
        0 <= i < c.captured_vars@.len() ==> #[trigger] info.captured_vars@[i].0 == c.captured_vars@[i].0 && debug_of(
            info.captured_vars@[i].1,
            c.captured_vars@[i].1,
            cache,
        )
    &&& info.performance_info.call_count == 0 && info.performance_info.total_execution_time_us == 0
    &&& !info.performance_info.is_optimized && info.performance_info.optimization_level@ == "None"@
}

/// The name of the captured variable at position `i` of an optimized
/// closure: its own name in map storage, `capture_i` in inline storage.
pub open spec fn capture_debug_name(storage: CaptureStorage, i: int) -> Seq<char> {
    match storage {
        CaptureStorage::Inline(_) => "capture_"@ + decimal(i as nat),
        CaptureStorage::HashMap(m) => m@[i].0,
    }
}

/// The debug record of an optimized closure, as registration makes it.
pub open spec fn optimized_info(info: ClosureDebugInfo, c: OptimizedClosure, cache: FunctionIdCache) -> bool {
    &&& info.function_id@ == function_display(cache, c.function_id.spec_id())
    &&& strings_view(info.parameters@) == strings_view(c.parameters@)
    &&& info.captures_by_ref == c.captures_by_ref
    &&& info.captured_vars@.len() == c.captured_vars@.len()
    &&& forall|i: int|
        0 <= i < c.captured_vars@.len() ==> #[trigger] info.captured_vars@[i].0 == capture_debug_name(
            c.captured_vars,
            i,
        ) && debug_of(info.captured_vars@[i].1, c.captured_vars@[i].1, cache)
    &&& info.performance_info.call_count == 0 && info.performance_info.total_execution_time_us == 0
    &&& info.performance_info.is_optimized && info.performance_info.optimization_level@ == "Optimized"@
}

/// The totals of a debug report
#[derive(Debug, Clone)]
pub struct DebugTotals {
    /// Total number of closures
    pub total_closures: usize,
    /// Number of closures that have been called
    pub active_closures: usize,
    /// Total number of calls across all closures
    pub total_calls: u64,
    /// Total memory usage in bytes
    pub total_memory_usage: usize,
    /// Total execution time across all calls, in microseconds
    pub total_execution_time_us: u64,
    /// Number of optimized closures
    pub optimized_closures: usize,
}

/// The sum of the calls of the records.
pub open spec fn calls_sum(s: Seq<(Seq<char>, ClosureDebugInfo)>) -> nat
    decreases s.len(),
{
    if s.len() == 0 {
        0
    } else {
        calls_sum(s.drop_last()) + (s.last().1.performance_info.call_count as nat)
    }
}

/// The sum of the execution times of the records.
pub open spec fn time_sum(s: Seq<(Seq<char>, ClosureDebugInfo)>) -> nat
    decreases s.len(),
{
    if s.len() == 0 {
        0
    } else {
        time_sum(s.drop_last()) + (s.last().1.performance_info.total_execution_time_us as nat)
    }
}

/// The sum of the memory estimates of the records.
pub open spec fn memory_sum(s: Seq<(Seq<char>, ClosureDebugInfo)>) -> nat
    decreases s.len(),
{
    if s.len() == 0 {
        0
    } else {
        memory_sum(s.drop_last()) + (s.last().1.memory_usage as nat)
    }
}

/// The number of records with at least one call.
pub open spec fn active_count(s: Seq<(Seq<char>, ClosureDebugInfo)>) -> nat
    decreases s.len(),
{
    if s.len() == 0 {
        0
    } else {
        active_count(s.drop_last()) + if s.last().1.performance_info.call_count > 0 {
            1nat
        } else {
            0nat
        }
    }
}

/// The number of records of optimized closures.
pub open spec fn optimized_count(s: Seq<(Seq<char>, ClosureDebugInfo)>) -> nat
    decreases s.len(),
{
    if s.len() == 0 {
        0
    } else {
        optimized_count(s.drop_last()) + if s.last().1.performance_info.is_optimized {
            1nat
        } else {
            0nat
        }
    }
}

proof fn lemma_counts_bounded(s: Seq<(Seq<char>, ClosureDebugInfo)>)
    ensures
        active_count(s) <= s.len(),
        optimized_count(s) <= s.len(),
    decreases s.len(),
{
    if s.len() > 0 {
        lemma_counts_bounded(s.drop_last());
    }
}

/// Global debugging state for closures: a record for each registered
/// closure, by function name
pub struct ClosureDebugger {
    /// All registered closures for debugging
    closures: NameMap<ClosureDebugInfo>,
    /// Global performance statistics
    global_stats: ClosurePerformanceStats,
    /// Debug configuration
    config: DebugConfig,
}

impl ClosureDebugger {
    /// The records, by function name, in order of first registration.
    pub closed spec fn records(&self) -> Seq<(Seq<char>, ClosureDebugInfo)> {
        self.closures@
    }

    /// The debugger's own performance counters.
    pub closed spec fn stats(&self) -> ClosurePerformanceStats {
        self.global_stats
    }

    /// The debugging configuration.
    pub closed spec fn settings(&self) -> DebugConfig {
        self.config
    }

    /// Create a new closure debugger: no records, counters at zero, and the
    /// default configuration (everything on, tracing 100 calls deep)
    pub fn new() -> (d: Self)
        ensures
            d.records() == Seq::<(Seq<char>, ClosureDebugInfo)>::empty(),
            stats_zero(d.stats()),
            d.settings().enable_call_tracing,
            d.settings().enable_memory_tracking,
            d.settings().enable_performance_profiling,
            d.settings().max_trace_depth == 100,
            d.settings().capture_variable_values,
    {
        ClosureDebugger {
            closures: NameMap::new(),
            global_stats: ClosurePerformanceStats::default(),
            config: DebugConfig::default(),
        }
    }

    /// Register a closure for debugging under its function name (a record
    /// of that name is replaced); `cache` names the functions of optimized
    /// closures among its captured values
    pub fn register_closure(&mut self, closure: &Closure, cache: &FunctionIdCache)
        ensures
            final(self).stats() == old(self).stats(),
            final(self).settings() == old(self).settings(),
            exists|info: ClosureDebugInfo|
                #![trigger insert_model(old(self).records(), closure.function_id@, info)]
                closure_info(info, *closure, *cache) && final(self).records() == insert_model(
                    old(self).records(),
                    closure.function_id@,
                    info,
                ) && exists|b: usize| info.memory_usage == #[trigger] memory_estimate(b, closure.captured_vars@.len()),
    {
        let n = closure.captured_vars.len();
        let mut captured: NameMap<DebugValue> = NameMap::new();
        let mut i: usize = 0;
        while i < n
            invariant
                i <= n,
                n == closure.captured_vars@.len(),
                captured@.len() == i,
                keys_distinct(closure.captured_vars@),
                forall|k: int|
                    0 <= k < i ==> #[trigger] captured@[k].0 == closure.captured_vars@[k].0 && debug_of(
                        captured@[k].1,
                        closure.captured_vars@[k].1,
                        *cache,
                    ),
            decreases n - i,
        {
            let name = copy_text(closure.captured_vars.key_at(i).as_str());
            let d = debug_value(closure.captured_vars.value_at(i), cache);
            let ghost before = captured@;
            proof {
                assert(!has_key(before, name@)) by {
                    if has_key(before, name@) {
                        let k = choose|k: int| 0 <= k < before.len() && #[trigger] before[k].0 == name@;
                        assert(closure.captured_vars@[k].0 == closure.captured_vars@[i as int].0);
                    }
                }
            }
            captured.insert(name, d);
            proof {
                assert(captured@ == before.push((name@, d)));
            }
            i = i + 1;
        }
        let base = closure_size();
        let info = ClosureDebugInfo {
            function_id: copy_text(closure.function_id.as_str()),
            parameters: copy_strings(closure.parameters.as_slice()),
            captured_vars: captured,
            captures_by_ref: closure.captures_by_ref,
            memory_usage: estimate(base, n),
            performance_info: performance_info(false),
        };
        let key = copy_text(closure.function_id.as_str());
        let ghost witness = info;
        assert(closure_info(witness, *closure, *cache));
        assert(witness.memory_usage == memory_estimate(base, closure.captured_vars@.len()));
        self.closures.insert(key, info);
        assert(self.records() == insert_model(old(self).records(), closure.function_id@, witness));
    }

    /// Register an optimized closure for debugging under its function's
    /// name in `cache` (a record of that name is replaced); inline captures
    /// are named `capture_0`, `capture_1`, ...
    pub fn register_optimized_closure(&mut self, closure: &OptimizedClosure, cache: &FunctionIdCache)
        ensures
            final(self).stats() == old(self).stats(),
            final(self).settings() == old(self).settings(),
            exists|info: ClosureDebugInfo|
                #![trigger insert_model(old(self).records(), function_display(*cache, closure.function_id.spec_id()), info)]
                optimized_info(info, *closure, *cache) && final(self).records() == insert_model(
                    old(self).records(),
                    function_display(*cache, closure.function_id.spec_id()),
                    info,
                ) && exists|b: usize| info.memory_usage == #[trigger] memory_estimate(b, closure.captured_vars@.len()),
    {
        let n = closure.captured_vars.len();
        let inline = match &closure.captured_vars {
            CaptureStorage::Inline(_) => true,
            CaptureStorage::HashMap(m) => {
                let _ = m.len();
                false
            },
        };
        let mut captured: NameMap<DebugValue> = NameMap::new();
        let mut i: usize = 0;
        proof {
            reveal_strlit("capture_");
        }
        while i < n
            invariant
                i <= n,
                n == closure.captured_vars@.len(),
                captured@.len() == i,
                inline == (closure.captured_vars is Inline),
                closure.captured_vars matches CaptureStorage::HashMap(m) ==> keys_distinct(m@),
                forall|k: int|
                    0 <= k < i ==> #[trigger] captured@[k].0 == capture_debug_name(closure.captured_vars, k)
                        && debug_of(captured@[k].1, closure.captured_vars@[k].1, *cache),
            decreases n - i,
        {
            let name = if inline {
                let t = usize_to_text(i);
                concat("capture_", t.as_str())
            } else {
                copy_text(closure.captured_vars.key_at(i).as_str())
            };
            assert(name@ == capture_debug_name(closure.captured_vars, i as int));
            let d = debug_value(closure.captured_vars.value_at(i), cache);
            let ghost before = captured@;
            proof {
                assert(!has_key(before, name@)) by {
                    if has_key(before, name@) {
                        let k = choose|k: int| 0 <= k < before.len() && #[trigger] before[k].0 == name@;
                        if inline {
                            let p = "capture_"@;
                            assert(name@.subrange(p.len() as int, name@.len() as int) =~= decimal(i as nat));
                            assert(before[k].0.subrange(p.len() as int, before[k].0.len() as int) =~= decimal(k as nat));
                            crate::text::lemma_decimal_injective(k as nat, i as nat);
                        } else {
                            if let CaptureStorage::HashMap(m) = closure.captured_vars {
                                assert(m@[k].0 == m@[i as int].0);
                            }
                        }
                    }
                }
            }
            captured.insert(name, d);
            proof {
                assert(captured@ == before.push((name@, d)));
            }
            i = i + 1;
        }
        let base = optimized_closure_size();
        let label = closure.function_id.display_text(cache);
        let info = ClosureDebugInfo {
            function_id: copy_text(label.as_str()),
            parameters: copy_strings(closure.parameters.as_slice()),
            captured_vars: captured,
            captures_by_ref: closure.captures_by_ref,
            memory_usage: estimate(base, n),
            performance_info: performance_info(true),
        };
        let ghost witness = info;
        assert(optimized_info(witness, *closure, *cache));
        assert(witness.memory_usage == memory_estimate(base, closure.captured_vars@.len()));
        self.closures.insert(label, info);
        assert(self.records() == insert_model(
            old(self).records(),
            function_display(*cache, closure.function_id.spec_id()),
            witness,
        ));
    }

    /// Get debug information for a specific closure
    pub fn get_closure_info(&self, function_id: &str) -> (r: Option<&ClosureDebugInfo>)
        ensures
            match r {
                Some(info) => lookup(self.records(), function_id@) == Some(*info),
                None => lookup(self.records(), function_id@) is None,
            },
    {
        self.closures.get(function_id)
    }

    /// Get all registered closures, in order of first registration
    pub fn list_closures(&self) -> (r: Vec<&ClosureDebugInfo>)
        ensures
            r@.len() == self.records().len(),
            forall|i: int| 0 <= i < r@.len() ==> *r@[i] == self.records()[i].1,
    {
        let mut out: Vec<&ClosureDebugInfo> = Vec::new();
        let mut i: usize = 0;
        let n = self.closures.len();
        while i < n
            invariant
                i <= n,
                n == self.records().len(),
                out@.len() == i,
                forall|k: int| 0 <= k < i ==> *out@[k] == self.records()[k].1,
            decreases n - i,
        {
            out.push(self.closures.value_at(i));
            i = i + 1;
        }
        out
    }

    /// Update performance metrics for a closure: one more call and its
    /// time; an unknown closure is ignored
    pub fn record_call(&mut self, function_id: &str, execution_time_us: u64)
        requires
            lookup(old(self).records(), function_id@) matches Some(info) ==> info.performance_info.call_count < u64::MAX
                && info.performance_info.total_execution_time_us + execution_time_us <= u64::MAX,
        ensures
            final(self).stats() == old(self).stats(),
            final(self).settings() == old(self).settings(),
            match lookup(old(self).records(), function_id@) {
                Some(info) => final(self).records() == old(self).records().update(
                    key_index(old(self).records(), function_id@),
                    (function_id@, with_call(info, execution_time_us)),
                ),
                None => final(self).records() == old(self).records(),
            },
    {
        match self.closures.position(function_id) {
            None => {},
            Some(i) => {
                let ghost before = self.closures@;
                let (name, mut info) = self.closures.remove_at(i);
                info.performance_info.call_count = info.performance_info.call_count + 1;
                info.performance_info.total_execution_time_us = info.performance_info.total_execution_time_us
                    + execution_time_us;
                proof {
                    assert(!has_key(self.closures@, name@)) by {
                        if has_key(self.closures@, name@) {
                            let k = choose|k: int| 0 <= k < self.closures@.len() && #[trigger] self.closures@[k].0 == name@;
                            let k2 = if k < i { k } else { k + 1 };
                            assert(self.closures@[k] == before[k2]);
                        }
                    }
                }
                self.closures.insert_at(i, name, info);
                assert(self.closures@ =~= before.update(i as int, (function_id@, with_call(before[i as int].1, execution_time_us))));
            },
        }
    }

    /// The totals of a debug report: closures, those called, calls,
    /// memory, execution time, and optimized closures
    pub fn report_totals(&self) -> (t: DebugTotals)
        requires
            calls_sum(self.records()) <= u64::MAX,
            time_sum(self.records()) <= u64::MAX,
            memory_sum(self.records()) <= usize::MAX,
        ensures
            t.total_closures == self.records().len(),
            t.active_closures == active_count(self.records()),
            t.total_calls == calls_sum(self.records()),
            t.total_memory_usage == memory_sum(self.records()),
            t.total_execution_time_us == time_sum(self.records()),
            t.optimized_closures == optimized_count(self.records()),
    {
        let n = self.closures.len();
        let ghost s = self.records();
        let mut active: usize = 0;
        let mut calls: u64 = 0;
        let mut memory: usize = 0;
        let mut time: u64 = 0;
        let mut optimized: usize = 0;
        let mut i: usize = 0;
        assert(s.subrange(0, 0) =~= Seq::<(Seq<char>, ClosureDebugInfo)>::empty());
        while i < n
            invariant
                i <= n,
                n == s.len(),
                s == self.records(),
                calls_sum(s) <= u64::MAX,
                time_sum(s) <= u64::MAX,
                memory_sum(s) <= usize::MAX,
                active == active_count(s.subrange(0, i as int)),
                calls == calls_sum(s.subrange(0, i as int)),
                memory == memory_sum(s.subrange(0, i as int)),
                time == time_sum(s.subrange(0, i as int)),
                optimized == optimized_count(s.subrange(0, i as int)),
            decreases n - i,
        {
            let info = self.closures.value_at(i);
            proof {
                let sub = s.subrange(0, i + 1);
                assert(sub.drop_last() =~= s.subrange(0, i as int));
                assert(sub.last() == s[i as int]);
                lemma_sums_prefix(s, i + 1);
                lemma_counts_bounded(s.subrange(0, i as int));
            }
            if info.performance_info.call_count > 0 {
                active = active + 1;
            }
            if info.performance_info.is_optimized {
                optimized = optimized + 1;
            }
            calls = calls + info.performance_info.call_count;
            memory = memory + info.memory_usage;
            time = time + info.performance_info.total_execution_time_us;
            i = i + 1;
        }
        assert(s.subrange(0, i as int) =~= s);
        DebugTotals {
            total_closures: n,
            active_closures: active,
            total_calls: calls,
            total_memory_usage: memory,
            total_execution_time_us: time,
            optimized_closures: optimized,
        }
    }
}

/// A record with one more call, of `t` microseconds.
pub open spec fn with_call(info: ClosureDebugInfo, t: u64) -> ClosureDebugInfo {
    ClosureDebugInfo {
        performance_info: DebugPerformanceInfo {
            call_count: (info.performance_info.call_count + 1) as u64,
            total_execution_time_us: (info.performance_info.total_execution_time_us + t) as u64,
            ..info.performance_info
        },
        ..info
    }
}

/// The sums over a prefix are at most the sums over the whole.
proof fn lemma_sums_prefix(s: Seq<(Seq<char>, ClosureDebugInfo)>, n: int)
    requires
        0 <= n <= s.len(),
    ensures
        calls_sum(s.subrange(0, n)) <= calls_sum(s),
        time_sum(s.subrange(0, n)) <= time_sum(s),
        memory_sum(s.subrange(0, n)) <= memory_sum(s),
    decreases s.len() - n,
{
    if n < s.len() {
        let a = s.subrange(0, n + 1);
        assert(a.drop_last() =~= s.subrange(0, n));
        lemma_sums_prefix(s, n + 1);
    } else {
        assert(s.subrange(0, n) =~= s);
    }
}

} // verus!
