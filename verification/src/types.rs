//! The static types and function signatures that the shell records for
//! session definitions and module exports.
use vstd::prelude::*;
use std::rc::Rc;

verus! {

/// A Script type, as far as sessions and module exports record one.
#[derive(Debug, Clone, PartialEq)]
pub enum Type {
    /// 32-bit signed integer
    I32,
    /// 32-bit float
    F32,
    /// Boolean
    Bool,
    /// String
    String,
    /// A type not known yet
    Unknown,
    /// A named type (an enum or an alias)
    Named(std::string::String),
    /// A struct with its fields (each field type shared)
    Struct { name: std::string::String, fields: Vec<(std::string::String, Rc<Type>)> },
}

/// The signature of a function: parameter names with their types, and the
/// return type.
#[derive(Debug, Clone, PartialEq)]
pub struct FunctionSignature {
    /// Generic parameter names, if any
    pub generic_params: Option<Vec<std::string::String>>,
    /// Parameters with their types
    pub params: Vec<(std::string::String, Type)>,
    /// Return type
    pub return_type: Type,
    /// Whether the function is a constant function
    pub is_const: bool,
    /// Whether the function is async
    pub is_async: bool,
}

} // verus!
