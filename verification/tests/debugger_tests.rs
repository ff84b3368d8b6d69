use std::sync::Arc;

use script::namemap::NameMap;
use script::runtime::closure::debug::{ClosureDebugger, DebugConfig, DebugValue};
use script::runtime::closure::id_cache::FunctionIdCache;
use script::runtime::closure::optimized::OptimizedClosure;
use script::runtime::closure::original::Closure;
use script::runtime::value::Value;

#[test]
fn debug_config_defaults() {
    let c = DebugConfig::default();
    assert!(c.enable_call_tracing && c.enable_memory_tracking && c.enable_performance_profiling);
    assert_eq!(c.max_trace_depth, 100);
    assert!(c.capture_variable_values);
}

#[test]
fn debugger_records_closures_and_calls() {
    let mut cache = FunctionIdCache::new();
    let mut debugger = ClosureDebugger::new();
    let inner = Closure::new("inner".to_string(), vec![], NameMap::new());
    let mut caps = NameMap::new();
    caps.insert("n".to_string(), Value::I32(7));
    caps.insert("f".to_string(), Value::Closure(Arc::new(inner)));
    caps.insert("u".to_string(), Value::Null);
    let closure = Closure::new("outer".to_string(), vec!["x".to_string()], caps);
    debugger.register_closure(&closure, &cache);

    let info = debugger.get_closure_info("outer").unwrap();
    assert_eq!(info.parameters, vec!["x".to_string()]);
    assert!(matches!(info.captured_vars.get("n"), Some(DebugValue::I32(7))));
    assert!(matches!(info.captured_vars.get("f"), Some(DebugValue::ClosureRef(name)) if name == "inner"));
    assert!(matches!(info.captured_vars.get("u"), Some(DebugValue::Unit)));
    assert!(!info.performance_info.is_optimized);
    assert_eq!(info.performance_info.optimization_level, "None");
    assert!(info.memory_usage >= 3 * 64);

    let opt = OptimizedClosure::new(
        "fast".to_string(),
        vec![],
        vec![("a".to_string(), Value::Bool(true)), ("b".to_string(), Value::F32(1.0f32.to_bits()))],
        &mut cache,
    );
    debugger.register_optimized_closure(&opt, &cache);
    let info = debugger.get_closure_info("fast").unwrap();
    assert!(info.performance_info.is_optimized);
    assert!(matches!(info.captured_vars.get("capture_0"), Some(DebugValue::Bool(true))));
    assert!(matches!(info.captured_vars.get("capture_1"), Some(DebugValue::F32(bits)) if *bits == 1.0f32.to_bits()));

    debugger.record_call("outer", 10);
    debugger.record_call("outer", 30);
    debugger.record_call("missing", 5);
    let info = debugger.get_closure_info("outer").unwrap();
    assert_eq!((info.performance_info.call_count, info.performance_info.total_execution_time_us), (2, 40));

    assert_eq!(debugger.list_closures().len(), 2);
    let totals = debugger.report_totals();
    assert_eq!(totals.total_closures, 2);
    assert_eq!(totals.active_closures, 1);
    assert_eq!(totals.total_calls, 2);
    assert_eq!(totals.total_execution_time_us, 40);
    assert_eq!(totals.optimized_closures, 1);
}

#[test]
fn unknown_optimized_function_is_labelled() {
    let mut cache = FunctionIdCache::new();
    let opt = OptimizedClosure::new("gone".to_string(), vec![], vec![], &mut cache);
    let mut debugger = ClosureDebugger::new();
    debugger.register_optimized_closure(&opt, &FunctionIdCache::new());
    assert!(debugger.get_closure_info("<unknown function #1>").is_some());
}
