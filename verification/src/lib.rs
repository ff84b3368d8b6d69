//! Verified core of the Script language tooling: the syntax tree and its
//! rendering, the closure runtime and its serialization, REPL session
//! state, command history, module bookkeeping, and the decision logic of
//! the async runtime.
use vstd::prelude::*;

pub mod error;
pub mod text;
pub mod namemap;
pub mod idmap;
pub mod runtime;
pub mod repl;
pub mod types;
pub mod source;
pub mod parser;

verus! {
} // verus!
