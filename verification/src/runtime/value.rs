//! Runtime values of the Script language, as far as the closure system
//! handles them.
use vstd::prelude::*;
use crate::runtime::closure::original::Closure;
use crate::runtime::closure::optimized::OptimizedClosure;
use std::sync::Arc;

verus! {

/// A Script runtime value.
///
/// A 32-bit float is held as its IEEE-754 bit pattern; closures are held by
/// shared reference.
#[derive(Debug, Clone, PartialEq)]
pub enum Value {
    Null,
    Bool(bool),
    I32(i32),
    F32(u32),
    String(String),
    Closure(Arc<Closure>),
    OptimizedClosure(Arc<OptimizedClosure>),
}

/// What a value is, with text as characters and a closure known by the
/// kind of closure it is.
pub enum ValueModel {
    Null,
    Bool(bool),
    I32(i32),
    F32(u32),
    Str(Seq<char>),
    Closure,
    OptimizedClosure,
}

impl Value {
    pub open spec fn model(&self) -> ValueModel {
        match self {
            Value::Null => ValueModel::Null,
            Value::Bool(b) => ValueModel::Bool(*b),
            Value::I32(i) => ValueModel::I32(*i),
            Value::F32(f) => ValueModel::F32(*f),
            Value::String(s) => ValueModel::Str(s@),
            Value::Closure(_) => ValueModel::Closure,
            Value::OptimizedClosure(_) => ValueModel::OptimizedClosure,
        }
    }

    /// Whether this value is a closure of either kind.
    pub open spec fn spec_is_closure(&self) -> bool {
        self is Closure || self is OptimizedClosure
    }

    /// Whether this value is a closure of either kind.
    pub fn is_closure(&self) -> (b: bool)
        ensures
            b == self.spec_is_closure(),
    {
        match self {
            Value::Closure(_) => true,
            Value::OptimizedClosure(_) => true,
            _ => false,
        }
    }
}

} // verus!
