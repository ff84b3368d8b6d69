use std::sync::Arc;

use script::namemap::NameMap;
use script::runtime::async_generators::{AsyncGenerator, AsyncGeneratorNext, AsyncGeneratorRuntime, GeneratorPoll};
use script::runtime::closure::original::Closure;
use script::runtime::value::Value;

fn body() -> Arc<Closure> {
    Arc::new(Closure::new("test_gen".to_string(), vec![], NameMap::new()))
}

#[test]
fn test_async_generator_basic() {
    let mut generator = AsyncGenerator::new(body(), "test".to_string());

    // Yield some values
    generator.yield_value(Value::I32(1)).unwrap();
    generator.yield_value(Value::I32(2)).unwrap();
    generator.yield_value(Value::I32(3)).unwrap();

    // Consume values
    assert_eq!(generator.next(), Some(Value::I32(1)));
    assert_eq!(generator.next(), Some(Value::I32(2)));
    assert_eq!(generator.next(), Some(Value::I32(3)));
    assert_eq!(generator.next(), None);
}

#[test]
fn test_async_generator_runtime() {
    let mut runtime = AsyncGeneratorRuntime::new();

    let generator = runtime.create_generator(body());
    assert_eq!(runtime.active_generators().len(), 1);
    assert!(runtime.active_generators()[generator].id().starts_with("async_gen_"));

    runtime.generator_mut(generator).complete();
    runtime.cleanup();
    assert_eq!(runtime.active_generators().len(), 0);
}

#[test]
fn polling_for_the_next_value() {
    let mut generator = AsyncGenerator::new(body(), "g".to_string());
    generator.yield_value(Value::Bool(true)).unwrap();
    let mut next = AsyncGeneratorNext::new(generator);
    assert!(matches!(next.poll(), GeneratorPoll::Ready(Some(Value::Bool(true)))));
    assert!(matches!(next.poll(), GeneratorPoll::Pending));
    let mut generator = next.into_generator();
    generator.complete();
    assert!(generator.is_complete());
    assert_eq!(generator.id(), "g");
    let mut next = AsyncGeneratorNext::new(generator);
    assert!(matches!(next.poll(), GeneratorPoll::Ready(None)));
}

#[test]
fn cleanup_keeps_running_generators_in_order() {
    let mut runtime = AsyncGeneratorRuntime::new();
    let a = runtime.create_generator(body());
    let b = runtime.create_generator(body());
    let c = runtime.create_generator(body());
    let b_id = runtime.active_generators()[b].id().to_string();
    let c_id = runtime.active_generators()[c].id().to_string();
    assert_ne!(b_id, c_id);
    runtime.generator_mut(a).complete();
    runtime.cleanup();
    assert_eq!(runtime.active_count(), 2);
    assert_eq!(runtime.active_generators()[0].id(), b_id);
    assert_eq!(runtime.active_generators()[1].id(), c_id);
}
