//! The interactive shell: command history, sessions and module loading.
pub mod history;
pub mod session;
pub mod module_loader;
pub mod input;
pub mod session_file;
pub mod paths;
pub mod exports;
