//! The runtime of the Script language: values, closures and the async
//! runtime.
pub mod value;
pub mod closure;
pub mod async_runtime_secure;
pub mod async_runtime;
pub mod async_performance_optimizer;
pub mod async_security_tests;
pub mod async_ffi_secure;
pub mod async_generators;
pub mod async_tokio_bridge;
pub mod async_resource_limits;
