use script::runtime::async_ffi_secure::{
    check_future_count, check_timeout_ms, SecurePointerRegistry, SecurityError, MAX_FUTURE_COUNT, MAX_TIMEOUT_MS,
};
use script::runtime::async_runtime_secure::AsyncRuntimeError;

const HOUR: u64 = 3_600_000_000_000;

#[test]
fn registry_validates_and_removes() {
    let mut registry = SecurePointerRegistry::new();
    assert_eq!(registry.register_pointer(0x1000, "Value", 5), 1);
    assert_eq!(registry.register_pointer(0x2000, "BoxedFuture<()>", 6), 2);
    assert_eq!(registry.len(), 2);
    assert!(registry.is_valid_pointer(0x1000, "Value"));
    assert!(!registry.is_valid_pointer(0x1000, "BoxedFuture<()>"));
    assert!(!registry.is_valid_pointer(0, "Value"));

    assert_eq!(registry.validate_and_remove(0, "Value").unwrap_err(), SecurityError::NullPointer);
    assert_eq!(registry.validate_and_remove(0x3000, "Value").unwrap_err(), SecurityError::InvalidPointer);
    let info = registry.validate_and_remove(0x1000, "Value").unwrap();
    assert_eq!((info.id, info.type_label.as_str(), info.created_at), (1, "Value", 5));
    // a pointer is used once
    assert_eq!(registry.validate_and_remove(0x1000, "Value").unwrap_err(), SecurityError::InvalidPointer);
    // a wrong type is refused, and the pointer is gone all the same
    let err = registry.validate_and_remove(0x2000, "Value").unwrap_err();
    assert_eq!(err.to_string(), "Type mismatch: expected Value, got BoxedFuture<()>");
    assert_eq!(registry.len(), 0);
}

#[test]
fn registry_replaces_and_expires() {
    let mut registry = SecurePointerRegistry::new();
    registry.register_pointer(0x10, "A", 0);
    assert_eq!(registry.register_pointer(0x10, "B", HOUR), 2);
    assert_eq!(registry.len(), 1);
    assert!(registry.is_valid_pointer(0x10, "B"));
    registry.register_pointer(0x20, "C", 10);
    registry.cleanup_expired(HOUR + 10);
    assert_eq!(registry.len(), 1);
    assert!(registry.is_valid_pointer(0x10, "B"));
    registry.clear();
    assert_eq!(registry.len(), 0);
    assert_eq!(registry.register_pointer(0x30, "D", 0), 4);
}

#[test]
fn limits_and_errors() {
    assert!(check_timeout_ms(MAX_TIMEOUT_MS).is_ok());
    assert_eq!(check_timeout_ms(u64::MAX), Err(SecurityError::InvalidTimeout));
    assert!(check_future_count(3, 3).is_ok());
    assert_eq!(check_future_count(usize::MAX, usize::MAX), Err(SecurityError::ResourceLimitExceeded));
    assert_eq!(check_future_count(2, 3), Err(SecurityError::ResourceLimitExceeded));
    assert!(check_future_count(MAX_FUTURE_COUNT, MAX_FUTURE_COUNT).is_ok());
    assert_eq!(SecurityError::InvalidTimeout.to_string(), "Invalid timeout value");
    assert_eq!(
        SecurityError::from_runtime(AsyncRuntimeError::TaskLimitExceeded { limit: 1, attempted: 2 }),
        SecurityError::ResourceLimitExceeded
    );
    assert_eq!(SecurityError::from_runtime(AsyncRuntimeError::ExecutorShutdown), SecurityError::InvalidPointer);
}
