use script::namemap::NameMap;
use script::runtime::closure::id_cache::FunctionIdCache;
use script::runtime::closure::optimized::OptimizedClosure;
use script::runtime::closure::original::Closure;
use script::runtime::closure::serialize::{
    deserialize_closure, deserialize_optimized_closure, serialize_closure_binary, serialize_closure_compact,
    serialize_closure_json, serialize_optimized_closure_binary, ClosureSerializer, SerializationConfig,
    SerializationFormat,
};
use script::runtime::value::Value;

fn captures(pairs: Vec<(&str, Value)>) -> NameMap<Value> {
    let mut m = NameMap::new();
    for (k, v) in pairs {
        m.insert(k.to_string(), v);
    }
    m
}

#[test]
fn test_closure_binary_serialization() {
    let captured = captures(vec![("x", Value::I32(42)), ("y", Value::String("hello".to_string()))]);
    let closure = Closure::new(
        "test_function".to_string(),
        vec!["param1".to_string(), "param2".to_string()],
        captured,
    );

    let serializer = ClosureSerializer::new(SerializationFormat::Binary);
    let serialized = serializer.serialize_closure(&closure).unwrap();
    let deserialized = serializer.deserialize_closure(&serialized).unwrap();

    assert_eq!(closure.function_id, deserialized.function_id);
    assert_eq!(closure.parameters, deserialized.parameters);
    assert_eq!(closure.captures_by_ref, deserialized.captures_by_ref);
    assert_eq!(closure.captured_vars.len(), deserialized.captured_vars.len());
}

#[test]
fn test_closure_json_serialization() {
    let captured = captures(vec![("flag", Value::Bool(true))]);

    let closure = Closure::new_by_ref("json_test".to_string(), vec!["a".to_string()], captured);

    let serializer = ClosureSerializer::new(SerializationFormat::Json);
    let serialized = serializer.serialize_closure(&closure).unwrap();
    let deserialized = serializer.deserialize_closure(&serialized).unwrap();

    assert_eq!(closure.function_id, deserialized.function_id);
    assert_eq!(closure.captures_by_ref, deserialized.captures_by_ref);
}

#[test]
fn json_text_is_sorted_by_member_name() {
    let closure = Closure::new(
        "f".to_string(),
        vec!["a".to_string(), "b".to_string()],
        captures(vec![("z", Value::I32(-3)), ("a", Value::String("q\"x".to_string())), ("m", Value::Null)]),
    );
    let s = serialize_closure_json(&closure).unwrap();
    let text = String::from_utf8(s.data.clone()).unwrap();
    assert_eq!(
        text,
        r#"{"captured_vars":{"a":"q\"x","m":null,"z":-3},"captures_by_ref":false,"function_id":"f","parameters":["a","b"]}"#
    );
    let back = deserialize_closure(&s).unwrap();
    assert_eq!(back.function_id, "f");
    assert_eq!(back.parameters, vec!["a".to_string(), "b".to_string()]);
    // read back in the order of the names
    let names: Vec<String> = (0..back.captured_vars.len()).map(|i| back.captured_vars.key_at(i).clone()).collect();
    assert_eq!(names, vec!["a".to_string(), "m".to_string(), "z".to_string()]);
    assert_eq!(back.get_captured("z"), Some(&Value::I32(-3)));
    assert_eq!(back.get_captured("a"), Some(&Value::String("q\"x".to_string())));
}

#[test]
fn json_optimized_closure_round_trip() {
    let mut cache = FunctionIdCache::new();
    let closure = OptimizedClosure::new_by_ref(
        "opt".to_string(),
        vec!["p".to_string()],
        vec![("k".to_string(), Value::Bool(false))],
        &mut cache,
    );
    let serializer = ClosureSerializer::new(SerializationFormat::Json);
    let s = serializer.serialize_optimized_closure(&closure, &cache).unwrap();
    let text = String::from_utf8(s.data.clone()).unwrap();
    assert_eq!(
        text,
        r#"{"captured_vars":{"k":false},"captures_by_ref":true,"function_id":"opt","is_optimized":true,"parameters":["p"]}"#
    );
    let back = serializer.deserialize_optimized_closure(&s, &mut cache).unwrap();
    assert_eq!(back.function_id(), closure.function_id());
    assert_eq!(back.get_captured("k"), Some(&Value::Bool(false)));
    assert_eq!(cache.len(), 1);
}

#[test]
fn json_errors() {
    // a 32-bit float has no JSON form here
    let closure = Closure::new("f".to_string(), vec![], captures(vec![("x", Value::F32(1.5f32.to_bits()))]));
    assert_eq!(
        serialize_closure_json(&closure).unwrap_err().message(),
        "JSON encoding of 32-bit floating-point values is not supported"
    );
    // unless captured values are left out
    let config = SerializationConfig { include_captured_values: false, ..Default::default() };
    let serializer = ClosureSerializer::with_config(SerializationFormat::Json, config);
    let ok = serializer.serialize_closure(&closure).unwrap();
    assert_eq!(String::from_utf8(ok.data.clone()).unwrap(), r#"{"captures_by_ref":false,"function_id":"f","parameters":[]}"#);

    let serializer = ClosureSerializer::new(SerializationFormat::Json);
    let mut s = ok.clone();
    s.data = br#"{"parameters":[]}"#.to_vec();
    assert_eq!(serializer.deserialize_closure(&s).unwrap_err().message(), "Missing function_id");
    s.data = br#"{"function_id":"f","parameters":3}"#.to_vec();
    assert_eq!(serializer.deserialize_closure(&s).unwrap_err().message(), "Invalid parameters");
    s.data = br#"{"function_id":"f","parameters":[1,"b"],"captured_vars":{"n":2.5}}"#.to_vec();
    assert_eq!(serializer.deserialize_closure(&s).unwrap_err().message(), "Unsupported JSON number: 2.5");
    s.data = br#"{"function_id":"f","parameters":[1,"b"],"captures_by_ref":1,"captured_vars":{"n":4294967297,"l":[1]}}"#
        .to_vec();
    let c = serializer.deserialize_closure(&s).unwrap();
    assert_eq!(c.parameters, vec!["".to_string(), "b".to_string()]);
    assert!(!c.captures_by_ref);
    assert_eq!(c.get_captured("n"), Some(&Value::I32(1)));
    assert_eq!(c.get_captured("l"), Some(&Value::Null));
    s.data = b"{".to_vec();
    assert!(serializer.deserialize_closure(&s).unwrap_err().message().starts_with("JSON parse error: "));
    s.data = vec![0xff];
    assert!(serializer.deserialize_closure(&s).unwrap_err().message().starts_with("Invalid UTF-8: "));
}

#[test]
fn test_closure_compact_serialization() {
    let closure = Closure::new(
        "compact_test".to_string(),
        vec!["x".to_string(), "y".to_string()],
        NameMap::new(),
    );

    let serializer = ClosureSerializer::new(SerializationFormat::Compact);
    let serialized = serializer.serialize_closure(&closure).unwrap();
    let deserialized = serializer.deserialize_closure(&serialized).unwrap();

    assert_eq!(closure.function_id, deserialized.function_id);
    assert_eq!(closure.parameters, deserialized.parameters);
}

#[test]
fn test_optimized_closure_serialization() {
    let mut cache = FunctionIdCache::new();
    let captured_vars = vec![("x".to_string(), Value::I32(10)), ("y".to_string(), Value::F32(3.14f32.to_bits()))];

    let closure = OptimizedClosure::new("optimized_test".to_string(), vec!["param".to_string()], captured_vars, &mut cache);

    let serializer = ClosureSerializer::new(SerializationFormat::Binary);
    let serialized = serializer.serialize_optimized_closure(&closure, &cache).unwrap();
    let deserialized = serializer.deserialize_optimized_closure(&serialized, &mut cache).unwrap();

    assert_eq!(closure.function_id(), deserialized.function_id());
    assert_eq!(closure.param_count(), deserialized.param_count());
    assert_eq!(closure.capture_count(), deserialized.capture_count());
    assert_eq!(deserialized.get_captured("y"), Some(&Value::F32(3.14f32.to_bits())));
}

#[test]
fn test_serialization_metadata() {
    let closure = Closure::new("metadata_test".to_string(), vec!["a".to_string(), "b".to_string()], NameMap::new());

    let serializer = ClosureSerializer::new(SerializationFormat::Binary);
    let serialized = serializer.serialize_closure(&closure).unwrap();

    assert_eq!(serialized.metadata.function_id, "metadata_test");
    assert_eq!(serialized.metadata.param_count, 2);
    assert_eq!(serialized.metadata.capture_count, 0);
    assert!(!serialized.metadata.captures_by_ref);
    assert!(!serialized.metadata.is_optimized);
    assert_eq!(serialized.metadata.version, 1);
}

#[test]
fn test_serialization_size_limit() {
    let config = SerializationConfig { max_size_bytes: 10, ..Default::default() };

    let mut large_captured = NameMap::new();
    for i in 0..100 {
        large_captured.insert(format!("var_{i}"), Value::I32(i));
    }

    let closure = Closure::new("large_closure".to_string(), vec!["param".to_string()], large_captured);

    let serializer = ClosureSerializer::with_config(SerializationFormat::Binary, config);
    let result = serializer.serialize_closure(&closure);

    assert!(result.is_err());
    let error = result.unwrap_err();
    assert!(error.to_string().contains("exceeds size limit"));
}

#[test]
fn binary_bytes_are_exact() {
    let closure = Closure::new_by_ref("f".to_string(), vec!["a".to_string()], captures(vec![("x", Value::Bool(true))]));
    let s = serialize_closure_binary(&closure).unwrap();
    assert_eq!(
        s.data,
        vec![1, 0, 0, 0, b'f', 1, 0, 0, 0, 1, 0, 0, 0, b'a', 1, 1, 0, 0, 0, 1, 0, 0, 0, b'x', 1, 1]
    );
}

#[test]
fn compact_bytes_are_exact() {
    let closure = Closure::new("f".to_string(), vec!["a".to_string()], captures(vec![("x", Value::I32(-1))]));
    let s = serialize_closure_compact(&closure).unwrap();
    assert_eq!(s.data, vec![2, 1, b'f', 1, 1, b'a', 1, 1, b'x', 2, 255, 255, 255, 255]);
    let back = deserialize_closure(&s).unwrap();
    assert_eq!(back.get_captured("x"), Some(&Value::I32(-1)));
}

#[test]
fn closure_values_read_back_as_null() {
    let inner = Closure::new("inner".to_string(), vec![], NameMap::new());
    let closure = Closure::new(
        "outer".to_string(),
        vec![],
        captures(vec![("c", Value::Closure(std::sync::Arc::new(inner))), ("s", Value::String("t".to_string()))]),
    );
    for format in [SerializationFormat::Binary, SerializationFormat::Compact] {
        let serializer = ClosureSerializer::new(format);
        let s = serializer.serialize_closure(&closure).unwrap();
        let back = serializer.deserialize_closure(&s).unwrap();
        assert_eq!(back.get_captured("c"), Some(&Value::Null));
        assert_eq!(back.get_captured("s"), Some(&Value::String("t".to_string())));
    }
}

#[test]
fn captured_values_can_be_left_out() {
    let closure = Closure::new("f".to_string(), vec![], captures(vec![("x", Value::I32(1))]));
    let config = SerializationConfig { include_captured_values: false, ..Default::default() };
    let serializer = ClosureSerializer::with_config(SerializationFormat::Binary, config);
    let s = serializer.serialize_closure(&closure).unwrap();
    assert_eq!(s.metadata.capture_count, 1);
    let back = serializer.deserialize_closure(&s).unwrap();
    assert_eq!(back.captured_vars.len(), 0);
}

#[test]
fn validation_errors() {
    let closure = Closure::new("f".to_string(), vec![], NameMap::new());
    let serializer = ClosureSerializer::new(SerializationFormat::Binary);
    let mut s = serializer.serialize_closure(&closure).unwrap();
    s.metadata.version = 2;
    assert_eq!(serializer.deserialize_closure(&s).unwrap_err().message(), "Unsupported serialization version: 2");
    s.data.clear();
    assert_eq!(serializer.deserialize_closure(&s).unwrap_err().message(), "Empty serialized data");
}

#[test]
fn truncated_binary_data_is_refused() {
    let closure = Closure::new("function".to_string(), vec![], NameMap::new());
    let serializer = ClosureSerializer::new(SerializationFormat::Binary);
    let mut s = serializer.serialize_closure(&closure).unwrap();
    s.data.truncate(6);
    assert_eq!(serializer.deserialize_closure(&s).unwrap_err().message(), "Invalid string length");
    s.data.truncate(2);
    assert_eq!(serializer.deserialize_closure(&s).unwrap_err().message(), "Not enough data for u32");
}

#[test]
fn plain_closure_is_not_read_as_optimized() {
    let mut cache = FunctionIdCache::new();
    let closure = Closure::new("f".to_string(), vec![], NameMap::new());
    let s = serialize_closure_binary(&closure).unwrap();
    let err = deserialize_optimized_closure(&s, &mut cache).unwrap_err();
    assert_eq!(err.message(), "Cannot deserialize non-optimized closure as optimized closure");
    assert!(cache.is_empty());
}

#[test]
fn optimized_closure_with_unknown_id_is_named_by_number() {
    let mut cache = FunctionIdCache::new();
    let closure = OptimizedClosure::new("gone".to_string(), vec![], vec![], &mut cache);
    let empty = FunctionIdCache::new();
    let s = serialize_optimized_closure_binary(&closure, &empty).unwrap();
    assert_eq!(s.metadata.function_id, "#1");
    assert!(s.metadata.is_optimized);
}
