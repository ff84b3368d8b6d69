//! Closure system for Script.
pub mod original;
pub mod optimized;
pub mod id_cache;
pub mod capture_storage;
pub mod serialize;
pub mod json;
pub mod closure_json;
pub mod roundtrip;
pub mod performance;
pub mod debug;
