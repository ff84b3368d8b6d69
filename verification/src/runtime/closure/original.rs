//! Closures with a named function body and a captured environment, and a
//! runtime that dispatches them to registered implementations.
use vstd::prelude::*;
use vstd::std_specs::cmp::PartialEqSpecImpl;
use crate::error::{Error, ErrorKind};
use crate::namemap::{NameMap, lookup, insert_model, insert_all_model};
use crate::runtime::value::Value;
use std::sync::Arc;
use crate::text::{concat, concat3, copy_text, copy_strings, decimal, strings_eq, strings_view, text_eq, usize_to_text};

verus! {

/// A closure: the identifier of its function body, its parameter names and
/// the variables it captured.
#[derive(Debug, Clone)]
pub struct Closure {
    /// The function body as a unique identifier
    pub function_id: String,
    /// Captured variables from the surrounding scope
    pub captured_vars: NameMap<Value>,
    /// Parameter names for the closure
    pub parameters: Vec<String>,
    /// Whether this closure captures variables by reference
    pub captures_by_ref: bool,
}

/// The message of the error for a call with the wrong number of arguments.
pub open spec fn arity_message(expected: nat, got: nat) -> Seq<char> {
    "Closure expected "@ + decimal(expected) + " arguments, got "@ + decimal(got)
}

/// The message of the error for a closure with no registered implementation.
pub open spec fn not_found_message(name: Seq<char>) -> Seq<char> {
    "Closure implementation not found: "@ + name
}

/// The message of the error for writing a by-value capture.
pub open spec fn by_value_message() -> Seq<char> {
    "Cannot modify captured variables in closure that captures by value"@
}

/// The error for a call with the wrong number of arguments.
pub fn arity_error(expected: usize, got: usize) -> (e: Error)
    ensures
        e.kind == ErrorKind::RuntimeError,
        e.message@ == arity_message(expected as nat, got as nat),
{
    let a = usize_to_text(expected);
    let b = usize_to_text(got);
    let head = concat3("Closure expected ", a.as_str(), " arguments, got ");
    let msg = concat(head.as_str(), b.as_str());
    proof {
        reveal_strlit("Closure expected ");
        reveal_strlit(" arguments, got ");
    }
    Error::with_message(ErrorKind::RuntimeError, msg)
}

/// The error for a closure whose implementation is not registered.
pub fn not_found_error(name: &str) -> (e: Error)
    ensures
        e.kind == ErrorKind::RuntimeError,
        e.message@ == not_found_message(name@),
{
    proof {
        reveal_strlit("Closure implementation not found: ");
    }
    Error::with_message(ErrorKind::RuntimeError, concat("Closure implementation not found: ", name))
}

/// The error for changing a capture of a closure that captures by value.
pub fn by_value_error() -> (e: Error)
    ensures
        e.kind == ErrorKind::RuntimeError,
        e.message@ == by_value_message(),
{
    Error::new(ErrorKind::RuntimeError, "Cannot modify captured variables in closure that captures by value")
}

impl Closure {
    /// Create a new closure with the given function ID and captures
    pub fn new(function_id: String, parameters: Vec<String>, captured_vars: NameMap<Value>) -> (c: Closure)
        ensures
            c.function_id == function_id,
            c.parameters == parameters,
            c.captured_vars == captured_vars,
            !c.captures_by_ref,
    {
        Closure { function_id, captured_vars, parameters, captures_by_ref: false }
    }

    /// Create a new closure that captures by reference
    pub fn new_by_ref(function_id: String, parameters: Vec<String>, captured_vars: NameMap<Value>) -> (c: Closure)
        ensures
            c.function_id == function_id,
            c.parameters == parameters,
            c.captured_vars == captured_vars,
            c.captures_by_ref,
    {
        Closure { function_id, captured_vars, parameters, captures_by_ref: true }
    }

    /// Get the number of parameters this closure expects
    pub fn param_count(&self) -> (n: usize)
        ensures
            n == self.parameters@.len(),
    {
        self.parameters.len()
    }

    /// Get a captured variable by name
    pub fn get_captured(&self, name: &str) -> (r: Option<&Value>)
        ensures
            match r {
                Some(v) => lookup(self.captured_vars@, name@) == Some(*v),
                None => lookup(self.captured_vars@, name@) is None,
            },
    {
        self.captured_vars.get(name)
    }

    /// Update a captured variable (only if captured by reference)
    pub fn set_captured(&mut self, name: String, value: Value) -> (r: Result<(), Error>)
        ensures
            old(self).captures_by_ref ==> r is Ok && final(self).captured_vars@ == insert_model(
                old(self).captured_vars@,
                name@,
                value,
            ),
            !old(self).captures_by_ref ==> (r matches Err(e) && e.kind == ErrorKind::RuntimeError
                && e.message@ == by_value_message() && final(self).captured_vars@ == old(self).captured_vars@),
            final(self).function_id == old(self).function_id,
            final(self).parameters == old(self).parameters,
            final(self).captures_by_ref == old(self).captures_by_ref,
    {
        if !self.captures_by_ref {
            return Err(by_value_error());
        }
        self.captured_vars.insert(name, value);
        Ok(())
    }

    /// Get the parameter names
    pub fn get_parameters(&self) -> (p: &[String])
        ensures
            p@ == self.parameters@,
    {
        self.parameters.as_slice()
    }

    /// Get the function ID for this closure
    pub fn get_function_id(&self) -> (id: &str)
        ensures
            id@ == self.function_id@,
    {
        self.function_id.as_str()
    }

    /// Check if this closure captures by reference
    pub fn captures_by_reference(&self) -> (b: bool)
        ensures
            b == self.captures_by_ref,
    {
        self.captures_by_ref
    }

    /// A copy with the same function, parameters and capture mode; the
    /// captured variables are cloned.
    pub fn copy(&self) -> (c: Closure)
        ensures
            c.function_id@ == self.function_id@,
            strings_view(c.parameters@) == strings_view(self.parameters@),
            c.captures_by_ref == self.captures_by_ref,
    {
        Closure {
            function_id: copy_text(self.function_id.as_str()),
            captured_vars: self.captured_vars.clone(),
            parameters: copy_strings(self.parameters.as_slice()),
            captures_by_ref: self.captures_by_ref,
        }
    }
}

impl PartialEq for Closure {
    /// Two closures are equal when they run the same function with the same
    /// parameters and capture mode; captured values are not compared.
    fn eq(&self, other: &Self) -> (r: bool) {
        text_eq(self.function_id.as_str(), other.function_id.as_str())
            && strings_eq(self.parameters.as_slice(), other.parameters.as_slice())
            && self.captures_by_ref == other.captures_by_ref
    }
}

impl PartialEqSpecImpl for Closure {
    open spec fn obeys_eq_spec() -> bool {
        true
    }

    open spec fn eq_spec(&self, other: &Closure) -> bool {
        &&& self.function_id@ == other.function_id@
        &&& strings_view(self.parameters@) == strings_view(other.parameters@)
        &&& self.captures_by_ref == other.captures_by_ref
    }
}

/// Runtime for executing closures: a registry of implementations by
/// function identifier, and the stack of closures being executed.
pub struct ClosureRuntime<F: Fn(&[Value]) -> Result<Value, Error>> {
    /// Currently executing closure stack
    call_stack: Vec<Closure>,
    /// Closure registry for function lookups
    closure_registry: NameMap<F>,
}

impl<F: Fn(&[Value]) -> Result<Value, Error>> ClosureRuntime<F> {
    /// The registered implementations by function identifier.
    pub closed spec fn registry(&self) -> Seq<(Seq<char>, F)> {
        self.closure_registry@
    }

    /// The closures being executed, innermost last.
    pub closed spec fn stack(&self) -> Seq<Closure> {
        self.call_stack@
    }

    /// Create a new closure runtime
    pub fn new() -> (r: Self)
        ensures
            r.registry() == Seq::<(Seq<char>, F)>::empty(),
            r.stack() == Seq::<Closure>::empty(),
    {
        ClosureRuntime { call_stack: Vec::new(), closure_registry: NameMap::new() }
    }

    /// Register a closure implementation
    pub fn register_closure(&mut self, function_id: String, implementation: F)
        ensures
            final(self).registry() == insert_model(old(self).registry(), function_id@, implementation),
            final(self).stack() == old(self).stack(),
    {
        self.closure_registry.insert(function_id, implementation);
    }

    /// Execute a closure with the given arguments
    pub fn execute_closure(&mut self, closure: &Closure, args: &[Value]) -> (r: Result<Value, Error>)
        requires
            lookup(old(self).registry(), closure.function_id@) matches Some(f) ==> f.requires((args,)),
        ensures
            final(self).registry() == old(self).registry(),
            final(self).stack() == old(self).stack(),
            args@.len() != closure.parameters@.len() ==> (r matches Err(e) && e.kind == ErrorKind::RuntimeError
                && e.message@ == arity_message(closure.parameters@.len(), args@.len())),
            args@.len() == closure.parameters@.len() ==> match lookup(old(self).registry(), closure.function_id@) {
                Some(f) => f.ensures((args,), r),
                None => (r matches Err(e) && e.kind == ErrorKind::RuntimeError
                    && e.message@ == not_found_message(closure.function_id@)),
            },
    {
        // Validate argument count
        if args.len() != closure.param_count() {
            return Err(arity_error(closure.param_count(), args.len()));
        }
        // Push closure onto call stack
        self.call_stack.push(closure.copy());
        // Look up the closure implementation
        let result = match self.closure_registry.get(closure.function_id.as_str()) {
            Some(implementation) => implementation(args),
            None => Err(not_found_error(closure.function_id.as_str())),
        };
        // Pop closure from call stack
        let ghost pushed = self.call_stack@;
        self.call_stack.pop();
        assert(self.call_stack@ =~= pushed.drop_last());
        result
    }

    /// Get the current call stack depth
    pub fn call_stack_depth(&self) -> (n: usize)
        ensures
            n == self.stack().len(),
    {
        self.call_stack.len()
    }

    /// Get the current closure being executed
    pub fn current_closure(&self) -> (c: Option<&Closure>)
        ensures
            self.stack().len() == 0 ==> c is None,
            self.stack().len() > 0 ==> c == Some(&self.stack().last()),
    {
        if self.call_stack.len() == 0 {
            None
        } else {
            Some(&self.call_stack[self.call_stack.len() - 1])
        }
    }
}

/// Helper function to create a simple closure from a function: a closure
/// with no captures, paired with its implementation.
pub fn create_simple_closure<F: Fn(&[Value]) -> Result<Value, Error>>(
    name: &str,
    params: Vec<String>,
    func: F,
) -> (r: (Closure, F))
    ensures
        r.0.function_id@ == name@,
        r.0.parameters == params,
        r.0.captured_vars@ == Seq::<(Seq<char>, Value)>::empty(),
        !r.0.captures_by_ref,
        r.1 == func,
{
    let closure = Closure::new(copy_text(name), params, NameMap::new());
    (closure, func)
}

/// Create a heap-allocated closure value; captured variables are stored in
/// order, a later capture of the same name replacing an earlier one.
pub fn create_closure_heap(
    function_id: String,
    parameters: Vec<String>,
    captured_vars: Vec<(String, Value)>,
    captures_by_ref: bool,
) -> (v: Value)
    ensures
        v matches Value::Closure(c) && c.function_id == function_id && c.parameters == parameters
            && c.captures_by_ref == captures_by_ref && c.captured_vars@ == insert_all_model(
            Seq::<(Seq<char>, Value)>::empty(),
            captured_vars@.map_values(|e: (String, Value)| (e.0@, e.1)),
        ),
{
    let captures = NameMap::from_pairs(captured_vars);
    let closure = if captures_by_ref {
        Closure::new_by_ref(function_id, parameters, captures)
    } else {
        Closure::new(function_id, parameters, captures)
    };
    Value::Closure(Arc::new(closure))
}

} // verus!
