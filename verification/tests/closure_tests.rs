use script::error::{Error, ErrorKind};
use script::namemap::NameMap;
use script::runtime::closure::id_cache::{get_function_string, intern_function_id, FunctionIdCache, OptimizedFunctionId};
use script::runtime::closure::optimized::{create_optimized_closure_heap, OptimizedClosure, OptimizedClosureRuntime};
use script::runtime::closure::original::{create_closure_heap, create_simple_closure, Closure, ClosureRuntime};
use script::runtime::closure::performance::{create_closure_optimal, ClosurePerformanceConfig, ClosurePerformanceStats};
use script::runtime::value::Value;

fn captures(pairs: Vec<(&str, Value)>) -> NameMap<Value> {
    let mut m = NameMap::new();
    for (k, v) in pairs {
        m.insert(k.to_string(), v);
    }
    m
}

#[test]
fn test_closure_creation() {
    let captured = captures(vec![("x", Value::I32(42))]);
    let closure = Closure::new("test_closure".to_string(), vec!["y".to_string()], captured);

    assert_eq!(closure.param_count(), 1);
    assert_eq!(closure.get_function_id(), "test_closure");
    assert_eq!(closure.get_captured("x"), Some(&Value::I32(42)));
    assert!(!closure.captures_by_reference());
}

#[test]
fn test_closure_runtime() {
    let (closure, implementation) = create_simple_closure("add_one", vec!["x".to_string()], |args: &[Value]| {
        if let Value::I32(n) = &args[0] {
            Ok(Value::I32(n + 1))
        } else {
            Err(Error::new(ErrorKind::TypeError, "Expected i32"))
        }
    });
    let mut runtime = ClosureRuntime::new();
    runtime.register_closure("add_one".to_string(), move |args: &[Value]| implementation(args));

    let result = runtime.execute_closure(&closure, &[Value::I32(5)]).unwrap();
    assert_eq!(result, Value::I32(6));
}

#[test]
fn test_closure_with_captured_vars() {
    let captured = captures(vec![("multiplier", Value::I32(3))]);
    let closure = Closure::new("multiply_by_captured".to_string(), vec!["x".to_string()], captured);

    let mut runtime = ClosureRuntime::new();
    runtime.register_closure("multiply_by_captured".to_string(), |args: &[Value]| {
        if let Value::I32(n) = &args[0] {
            Ok(Value::I32(n * 3))
        } else {
            Err(Error::new(ErrorKind::TypeError, "Expected i32"))
        }
    });

    let result = runtime.execute_closure(&closure, &[Value::I32(4)]).unwrap();
    assert_eq!(result, Value::I32(12));
}

#[test]
fn closure_runtime_reports_wrong_argument_count() {
    let closure = Closure::new("f".to_string(), vec!["a".to_string(), "b".to_string()], NameMap::new());
    let mut runtime = ClosureRuntime::new();
    runtime.register_closure("f".to_string(), |_args: &[Value]| Ok(Value::Null));
    let err = runtime.execute_closure(&closure, &[Value::I32(1)]).unwrap_err();
    assert_eq!(err.kind(), ErrorKind::RuntimeError);
    assert_eq!(err.message(), "Closure expected 2 arguments, got 1");
}

#[test]
fn closure_runtime_reports_missing_implementation() {
    let closure = Closure::new("missing".to_string(), vec![], NameMap::new());
    let mut runtime: ClosureRuntime<fn(&[Value]) -> Result<Value, Error>> = ClosureRuntime::new();
    let err = runtime.execute_closure(&closure, &[]).unwrap_err();
    assert_eq!(err.message(), "Closure implementation not found: missing");
    assert_eq!(err.to_string(), "Runtime error: Closure implementation not found: missing");
}

#[test]
fn by_value_closure_refuses_capture_update() {
    let mut closure = Closure::new("f".to_string(), vec![], captures(vec![("x", Value::I32(1))]));
    let err = closure.set_captured("x".to_string(), Value::I32(2)).unwrap_err();
    assert_eq!(err.message(), "Cannot modify captured variables in closure that captures by value");
    assert_eq!(closure.get_captured("x"), Some(&Value::I32(1)));

    let mut by_ref = Closure::new_by_ref("g".to_string(), vec![], captures(vec![("x", Value::I32(1))]));
    by_ref.set_captured("x".to_string(), Value::I32(2)).unwrap();
    assert_eq!(by_ref.get_captured("x"), Some(&Value::I32(2)));
}

#[test]
fn closure_heap_keeps_last_of_repeated_captures() {
    let v = create_closure_heap(
        "h".to_string(),
        vec![],
        vec![("x".to_string(), Value::I32(1)), ("x".to_string(), Value::I32(2))],
        true,
    );
    match v {
        Value::Closure(c) => {
            assert_eq!(c.captured_vars.len(), 1);
            assert_eq!(c.get_captured("x"), Some(&Value::I32(2)));
            assert!(c.captures_by_reference());
        },
        _ => panic!("expected a closure"),
    }
}

#[test]
fn test_function_id_cache_basic() {
    let mut cache = FunctionIdCache::new();

    let id1 = cache.get_or_intern("test_function");
    let id2 = cache.get_or_intern("test_function");
    assert_eq!(id1, id2);

    let id3 = cache.get_or_intern("other_function");
    assert_ne!(id1, id3);

    assert_eq!(cache.get_string(id1).unwrap().as_str(), "test_function");
    assert_eq!(cache.get_string(id3).unwrap().as_str(), "other_function");
}

#[test]
fn test_optimized_function_id() {
    let mut cache = FunctionIdCache::new();
    let id1 = OptimizedFunctionId::from_string("test_func", &mut cache);
    let id2 = OptimizedFunctionId::from_string("test_func", &mut cache);
    let id3 = OptimizedFunctionId::from_string("other_func", &mut cache);

    assert_eq!(id1, id2);
    assert_ne!(id1, id3);

    assert_eq!(id1.display_text(&cache), "test_func");
    assert_eq!(id3.display_text(&cache), "other_func");
}

#[test]
fn unknown_function_id_is_shown_by_number() {
    let cache = FunctionIdCache::new();
    let id = OptimizedFunctionId::from_raw_id(7);
    assert_eq!(id.as_string(&cache), None);
    assert_eq!(id.display_text(&cache), "<unknown function #7>");
}

#[test]
fn test_global_cache() {
    let mut cache = FunctionIdCache::new();
    let id1 = intern_function_id(&mut cache, "global_test");
    let id2 = intern_function_id(&mut cache, "global_test");
    assert_eq!(id1, id2);

    let string = get_function_string(&cache, id1).unwrap();
    assert_eq!(string.as_str(), "global_test");
}

#[test]
fn test_cache_metrics() {
    let mut cache = FunctionIdCache::new();
    assert_eq!(cache.len(), 0);
    assert!(cache.is_empty());

    cache.get_or_intern("function1");
    cache.get_or_intern("function2");
    assert_eq!(cache.len(), 2);
    assert!(!cache.is_empty());

    cache.clear();
    assert_eq!(cache.len(), 0);
    assert!(cache.is_empty());
}

#[test]
fn interned_ids_count_up_from_one() {
    let mut cache = FunctionIdCache::new();
    assert_eq!(cache.get_or_intern("a"), 1);
    assert_eq!(cache.get_or_intern("b"), 2);
    assert_eq!(cache.get_or_intern("a"), 1);
    assert!(cache.contains_id(2));
    assert!(!cache.contains_id(3));
}

#[test]
fn test_optimized_closure_creation() {
    let mut cache = FunctionIdCache::new();
    let captured_vars = vec![
        ("x".to_string(), Value::I32(42)),
        ("y".to_string(), Value::String("hello".to_string())),
    ];

    let closure = OptimizedClosure::new(
        "test_closure".to_string(),
        vec!["param1".to_string(), "param2".to_string()],
        captured_vars,
        &mut cache,
    );

    assert_eq!(closure.param_count(), 2);
    assert_eq!(closure.capture_count(), 2);
    assert_eq!(closure.get_captured("x"), Some(&Value::I32(42)));
    assert_eq!(closure.get_captured("y"), Some(&Value::String("hello".to_string())));
    assert!(!closure.captures_by_reference());
}

#[test]
fn test_optimized_closure_function_id() {
    let mut cache = FunctionIdCache::new();
    let closure1 = OptimizedClosure::new("test_function".to_string(), vec![], vec![], &mut cache);
    let closure2 = OptimizedClosure::new("test_function".to_string(), vec![], vec![], &mut cache);

    assert_eq!(closure1.function_id(), closure2.function_id());
    assert_eq!(closure1.function_name(&cache).unwrap().as_str(), "test_function");
}

#[test]
fn test_optimized_closure_runtime() {
    let mut cache = FunctionIdCache::new();
    let mut runtime = OptimizedClosureRuntime::new();

    runtime.register_closure(
        "add_numbers".to_string(),
        |args: &[Value]| match (&args[0], &args[1]) {
            (Value::I32(a), Value::I32(b)) => Ok(Value::I32(a + b)),
            _ => Err(Error::new(ErrorKind::TypeError, "Expected i32")),
        },
        &mut cache,
    );

    let closure = OptimizedClosure::new(
        "add_numbers".to_string(),
        vec!["a".to_string(), "b".to_string()],
        vec![],
        &mut cache,
    );

    let result = runtime.execute_closure(&closure, &[Value::I32(10), Value::I32(20)], &cache);
    assert_eq!(result.unwrap(), Value::I32(30));
}

#[test]
fn test_parameter_count_caching() {
    let mut cache = FunctionIdCache::new();
    let mut runtime = OptimizedClosureRuntime::new();

    runtime.register_closure("test_func".to_string(), |_args: &[Value]| Ok(Value::I32(42)), &mut cache);

    let closure = OptimizedClosure::new(
        "test_func".to_string(),
        vec!["x".to_string(), "y".to_string()],
        vec![],
        &mut cache,
    );

    let _ = runtime.execute_closure(&closure, &[Value::I32(1), Value::I32(2)], &cache);
    let result = runtime.execute_closure(&closure, &[Value::I32(3), Value::I32(4)], &cache);
    assert_eq!(result.unwrap(), Value::I32(42));

    let (registry_size, cache_size) = runtime.cache_stats();
    assert_eq!(registry_size, 1);
    assert_eq!(cache_size, 1);
}

#[test]
fn test_storage_type_optimization() {
    let mut cache = FunctionIdCache::new();
    let small_closure = OptimizedClosure::new(
        "small".to_string(),
        vec![],
        vec![("x".to_string(), Value::I32(1)), ("y".to_string(), Value::I32(2))],
        &mut cache,
    );
    assert_eq!(small_closure.storage_type(), "inline");

    let large_captures: Vec<_> = (0..10).map(|i| (format!("var_{i}"), Value::I32(i))).collect();
    let large_closure = OptimizedClosure::new("large".to_string(), vec![], large_captures, &mut cache);
    assert_eq!(large_closure.storage_type(), "hashmap");
}

#[test]
fn inline_storage_moves_to_map_when_full() {
    let mut cache = FunctionIdCache::new();
    let mut closure = OptimizedClosure::new_by_ref(
        "grow".to_string(),
        vec![],
        vec![
            ("a".to_string(), Value::I32(1)),
            ("b".to_string(), Value::I32(2)),
            ("c".to_string(), Value::I32(3)),
            ("d".to_string(), Value::I32(4)),
        ],
        &mut cache,
    );
    assert_eq!(closure.storage_type(), "inline");
    closure.set_captured("e".to_string(), Value::I32(5)).unwrap();
    assert_eq!(closure.storage_type(), "hashmap");
    assert_eq!(closure.capture_count(), 5);
    assert_eq!(closure.get_captured("a"), Some(&Value::I32(1)));
    assert_eq!(closure.get_captured("e"), Some(&Value::I32(5)));
}

#[test]
fn test_performance_config() {
    let config = ClosurePerformanceConfig::default();
    assert!(config.enable_id_interning);
    assert!(config.enable_optimized_storage);
    assert!(config.enable_param_caching);
    assert!(config.enable_lazy_cycle_detection);
}

#[test]
fn test_performance_stats() {
    let mut stats = ClosurePerformanceStats::default();

    stats.record_closure_creation(2, "inline");
    stats.record_closure_creation(10, "hashmap");
    stats.record_closure_execution();
    stats.record_cache_stat("id", true);
    stats.record_cache_stat("param", false);

    assert_eq!(stats.closures_created, 2);
    assert_eq!(stats.closures_executed, 1);
    assert_eq!(stats.storage_stats.inline_count, 1);
    assert_eq!(stats.storage_stats.hashmap_count, 1);
    assert_eq!(stats.id_cache_hits, 1);
    assert_eq!(stats.param_cache_misses, 1);
    assert_eq!(stats.total_cache_operations(), 2);
}

#[test]
fn test_optimal_closure_creation() {
    let mut cache = FunctionIdCache::new();
    let config = ClosurePerformanceConfig::default();
    let closure_value = create_closure_optimal(
        "test_optimal".to_string(),
        vec!["x".to_string()],
        vec![("captured".to_string(), Value::I32(42))],
        false,
        &config,
        &mut cache,
    );

    match closure_value {
        Value::OptimizedClosure(_) => {},
        Value::Closure(_) => {},
        _ => panic!("Expected closure value"),
    }
}

#[test]
fn optimal_creation_follows_the_configuration() {
    let mut cache = FunctionIdCache::new();
    let mut config = ClosurePerformanceConfig::default();
    let v = create_closure_optimal("a".to_string(), vec![], vec![], false, &config, &mut cache);
    assert!(matches!(v, Value::OptimizedClosure(_)));
    config.enable_id_interning = false;
    let v = create_closure_optimal("b".to_string(), vec![], vec![], false, &config, &mut cache);
    assert!(matches!(v, Value::Closure(_)));
    let v = create_optimized_closure_heap("c".to_string(), vec![], vec![], true, &mut cache);
    assert!(matches!(v, Value::OptimizedClosure(_)));
}
