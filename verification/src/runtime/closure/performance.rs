//! Performance settings and counters of the closure system, and the choice
//! between plain and optimized closures.
use vstd::prelude::*;
use crate::namemap::insert_all_model;
use crate::runtime::closure::capture_storage::CaptureStorageStats;
use crate::runtime::closure::id_cache::{FunctionIdCache, interned};
use crate::runtime::closure::optimized::create_optimized_closure_heap;
use crate::runtime::closure::original::create_closure_heap;
use crate::runtime::value::Value;
use crate::text::text_eq;

verus! {

/// Performance configuration for closure system
#[derive(Debug, Clone)]
pub struct ClosurePerformanceConfig {
    /// Enable function ID interning
    pub enable_id_interning: bool,
    /// Enable optimized capture storage
    pub enable_optimized_storage: bool,
    /// Enable parameter count caching
    pub enable_param_caching: bool,
    /// Enable cycle detection optimization
    pub enable_lazy_cycle_detection: bool,
}

impl Default for ClosurePerformanceConfig {
    /// Every optimization enabled.
    fn default() -> (c: Self)
        ensures
            c.enable_id_interning,
            c.enable_optimized_storage,
            c.enable_param_caching,
            c.enable_lazy_cycle_detection,
    {
        ClosurePerformanceConfig {
            enable_id_interning: true,
            enable_optimized_storage: true,
            enable_param_caching: true,
            enable_lazy_cycle_detection: true,
        }
    }
}

/// Performance statistics for the closure system
#[derive(Debug, Clone)]
pub struct ClosurePerformanceStats {
    /// Number of closures created
    pub closures_created: usize,
    /// Number of closures executed
    pub closures_executed: usize,
    /// Storage usage statistics
    pub storage_stats: CaptureStorageStats,
    /// Function ID cache hit rate
    pub id_cache_hits: usize,
    /// Function ID cache misses
    pub id_cache_misses: usize,
    /// Parameter validation cache hits
    pub param_cache_hits: usize,
    /// Parameter validation cache misses
    pub param_cache_misses: usize,
}

/// Every counter of the statistics is zero.
pub open spec fn stats_zero(s: ClosurePerformanceStats) -> bool {
    &&& s.closures_created == 0
    &&& s.closures_executed == 0
    &&& s.storage_stats.inline_count == 0
    &&& s.storage_stats.hashmap_count == 0
    &&& s.storage_stats.total_captures == 0
    &&& s.id_cache_hits == 0
    &&& s.id_cache_misses == 0
    &&& s.param_cache_hits == 0
    &&& s.param_cache_misses == 0
}

impl Default for ClosurePerformanceStats {
    /// All counters at zero.
    fn default() -> (s: Self)
        ensures
            stats_zero(s),
    {
        ClosurePerformanceStats {
            closures_created: 0,
            closures_executed: 0,
            storage_stats: CaptureStorageStats { inline_count: 0, hashmap_count: 0, total_captures: 0 },
            id_cache_hits: 0,
            id_cache_misses: 0,
            param_cache_hits: 0,
            param_cache_misses: 0,
        }
    }
}

impl ClosurePerformanceStats {
    /// Get the total number of cache operations
    pub fn total_cache_operations(&self) -> (n: usize)
        requires
            self.id_cache_hits + self.id_cache_misses + self.param_cache_hits + self.param_cache_misses <= usize::MAX,
        ensures
            n == self.id_cache_hits + self.id_cache_misses + self.param_cache_hits + self.param_cache_misses,
    {
        self.id_cache_hits + self.id_cache_misses + self.param_cache_hits + self.param_cache_misses
    }

    /// Record the creation of a closure with `capture_count` captures in the
    /// named storage ("inline" or "hashmap"; any other name counts only the
    /// closure).
    pub fn record_closure_creation(&mut self, capture_count: usize, storage_type: &str)
        requires
            old(self).closures_created < usize::MAX,
            old(self).storage_stats.inline_count < usize::MAX,
            old(self).storage_stats.hashmap_count < usize::MAX,
            old(self).storage_stats.total_captures + capture_count <= usize::MAX,
        ensures
            final(self).closures_created == old(self).closures_created + 1,
            storage_type@ == "inline"@ ==> final(self).storage_stats.inline_count == old(self).storage_stats.inline_count
                + 1 && final(self).storage_stats.hashmap_count == old(self).storage_stats.hashmap_count
                && final(self).storage_stats.total_captures == old(self).storage_stats.total_captures
                + capture_count,
            storage_type@ == "hashmap"@ ==> final(self).storage_stats.hashmap_count
                == old(self).storage_stats.hashmap_count + 1 && final(self).storage_stats.inline_count
                == old(self).storage_stats.inline_count && final(self).storage_stats.total_captures
                == old(self).storage_stats.total_captures + capture_count,
            storage_type@ != "inline"@ && storage_type@ != "hashmap"@ ==> final(self).storage_stats
                == old(self).storage_stats,
            final(self).closures_executed == old(self).closures_executed,
            final(self).id_cache_hits == old(self).id_cache_hits,
            final(self).id_cache_misses == old(self).id_cache_misses,
            final(self).param_cache_hits == old(self).param_cache_hits,
            final(self).param_cache_misses == old(self).param_cache_misses,
    {
        proof {
            reveal_strlit("inline");
            reveal_strlit("hashmap");
            assert("hashmap"@ != "inline"@) by {
                assert("hashmap"@.len() != "inline"@.len());
            }
        }
        self.closures_created += 1;
        if text_eq(storage_type, "inline") {
            self.storage_stats.record_inline(capture_count);
        } else if text_eq(storage_type, "hashmap") {
            self.storage_stats.record_hashmap(capture_count);
        }
    }

    /// Record the execution of a closure
    pub fn record_closure_execution(&mut self)
        requires
            old(self).closures_executed < usize::MAX,
        ensures
            final(self).closures_executed == old(self).closures_executed + 1,
            final(self).closures_created == old(self).closures_created,
            final(self).storage_stats == old(self).storage_stats,
            final(self).id_cache_hits == old(self).id_cache_hits,
            final(self).id_cache_misses == old(self).id_cache_misses,
            final(self).param_cache_hits == old(self).param_cache_hits,
            final(self).param_cache_misses == old(self).param_cache_misses,
    {
        self.closures_executed += 1;
    }

    /// Record a hit or a miss of the "id" or the "param" cache (any other
    /// name changes nothing).
    pub fn record_cache_stat(&mut self, cache_type: &str, hit: bool)
        requires
            old(self).id_cache_hits < usize::MAX,
            old(self).id_cache_misses < usize::MAX,
            old(self).param_cache_hits < usize::MAX,
            old(self).param_cache_misses < usize::MAX,
        ensures
            final(self).id_cache_hits == old(self).id_cache_hits + (if cache_type@ == "id"@ && hit { 1int } else { 0 }),
            final(self).id_cache_misses == old(self).id_cache_misses + (if cache_type@ == "id"@ && !hit { 1int } else { 0 }),
            final(self).param_cache_hits == old(self).param_cache_hits + (if cache_type@ == "param"@ && hit { 1int } else { 0 }),
            final(self).param_cache_misses == old(self).param_cache_misses + (if cache_type@ == "param"@ && !hit { 1int } else { 0 }),
            final(self).closures_created == old(self).closures_created,
            final(self).closures_executed == old(self).closures_executed,
            final(self).storage_stats == old(self).storage_stats,
    {
        proof {
            reveal_strlit("id");
            reveal_strlit("param");
            assert("param"@ != "id"@) by {
                assert("param"@.len() != "id"@.len());
            }
        }
        if text_eq(cache_type, "id") {
            if hit {
                self.id_cache_hits += 1;
            } else {
                self.id_cache_misses += 1;
            }
        } else if text_eq(cache_type, "param") {
            if hit {
                self.param_cache_hits += 1;
            } else {
                self.param_cache_misses += 1;
            }
        }
    }
}

/// Create a closure value: an optimized closure (its name interned in
/// `cache`) when `config` enables both interning and optimized storage,
/// else a plain closure
pub fn create_closure_optimal(
    function_id: String,
    parameters: Vec<String>,
    captured_vars: Vec<(String, Value)>,
    captures_by_ref: bool,
    config: &ClosurePerformanceConfig,
    cache: &mut FunctionIdCache,
) -> (v: Value)
    requires
        old(cache).wf(),
    ensures
        final(cache).wf(),
        config.enable_id_interning && config.enable_optimized_storage ==> (v matches Value::OptimizedClosure(c)
            && interned(*old(cache), *final(cache), function_id@, c.function_id.spec_id())
            && c.parameters == parameters && c.captures_by_ref == captures_by_ref && c.captured_vars@
            == insert_all_model(
            Seq::<(Seq<char>, Value)>::empty(),
            captured_vars@.map_values(|e: (String, Value)| (e.0@, e.1)),
        )),
        !(config.enable_id_interning && config.enable_optimized_storage) ==> (v matches Value::Closure(c)
            && c.function_id == function_id && c.parameters == parameters && c.captures_by_ref == captures_by_ref
            && c.captured_vars@ == insert_all_model(
            Seq::<(Seq<char>, Value)>::empty(),
            captured_vars@.map_values(|e: (String, Value)| (e.0@, e.1)),
        ) && *final(cache) == *old(cache)),
{
    if config.enable_id_interning && config.enable_optimized_storage {
        create_optimized_closure_heap(function_id, parameters, captured_vars, captures_by_ref, cache)
    } else {
        create_closure_heap(function_id, parameters, captured_vars, captures_by_ref)
    }
}

} // verus!
