//! Closures with interned function identifiers and compact capture storage,
//! and a runtime that looks implementations up by identifier and caches
//! parameter counts.
use vstd::prelude::*;
use vstd::std_specs::cmp::PartialEqSpecImpl;
use crate::error::{Error, ErrorKind};
use crate::idmap::{IdMap, id_lookup, id_insert_model};
use crate::namemap::{lookup, insert_model, insert_all_model};
use crate::runtime::closure::capture_storage::{CaptureStorage, INLINE_THRESHOLD, has_closure_value};
use crate::runtime::closure::id_cache::{FunctionId, FunctionIdCache, OptimizedFunctionId, id_space, interned};
use crate::runtime::closure::original::{arity_error, arity_message, by_value_error, by_value_message, not_found_error, not_found_message};
use crate::runtime::value::Value;
use crate::text::{concat, decimal, strings_eq, strings_view, usize_to_text};
use std::sync::Arc;

verus! {

/// Closure with an interned function ID and compact capture storage
#[derive(Debug, Clone)]
pub struct OptimizedClosure {
    /// Interned function ID for fast comparison
    pub function_id: OptimizedFunctionId,
    /// Storage for captured variables
    pub captured_vars: CaptureStorage,
    /// Parameter names
    pub parameters: Vec<String>,
    /// Whether this closure captures variables by reference
    pub captures_by_ref: bool,
}

/// The name shown for a function identifier: its interned name, or "#N".
pub open spec fn function_label(cache: FunctionIdCache, id: u32) -> Seq<char> {
    match id_lookup(cache.ids(), id) {
        Some(n) => n,
        None => "#"@ + decimal(id as nat),
    }
}

impl OptimizedClosure {
    /// Create a new optimized closure, interning its function name in `cache`
    pub fn new(
        function_id: String,
        parameters: Vec<String>,
        captured_vars: Vec<(String, Value)>,
        cache: &mut FunctionIdCache,
    ) -> (c: Self)
        requires
            old(cache).wf(),
        ensures
            interned(*old(cache), *final(cache), function_id@, c.function_id.spec_id()),
            c.captured_vars@ == insert_all_model(
                Seq::<(Seq<char>, Value)>::empty(),
                captured_vars@.map_values(|e: (String, Value)| (e.0@, e.1)),
            ),
            (c.captured_vars is Inline) == (captured_vars@.len() <= INLINE_THRESHOLD),
            c.parameters == parameters,
            !c.captures_by_ref,
    {
        OptimizedClosure {
            function_id: OptimizedFunctionId::from_string(function_id.as_str(), cache),
            captured_vars: CaptureStorage::from_captures(captured_vars),
            parameters,
            captures_by_ref: false,
        }
    }

    /// Create a new optimized closure that captures by reference
    pub fn new_by_ref(
        function_id: String,
        parameters: Vec<String>,
        captured_vars: Vec<(String, Value)>,
        cache: &mut FunctionIdCache,
    ) -> (c: Self)
        requires
            old(cache).wf(),
        ensures
            interned(*old(cache), *final(cache), function_id@, c.function_id.spec_id()),
            c.captured_vars@ == insert_all_model(
                Seq::<(Seq<char>, Value)>::empty(),
                captured_vars@.map_values(|e: (String, Value)| (e.0@, e.1)),
            ),
            (c.captured_vars is Inline) == (captured_vars@.len() <= INLINE_THRESHOLD),
            c.parameters == parameters,
            c.captures_by_ref,
    {
        OptimizedClosure {
            function_id: OptimizedFunctionId::from_string(function_id.as_str(), cache),
            captured_vars: CaptureStorage::from_captures(captured_vars),
            parameters,
            captures_by_ref: true,
        }
    }

    /// Get the function ID as a numeric ID
    pub fn function_id(&self) -> (id: FunctionId)
        ensures
            id == self.function_id.spec_id(),
    {
        self.function_id.id()
    }

    /// Get the function name for this closure's ID in `cache`
    pub fn function_name(&self, cache: &FunctionIdCache) -> (r: Option<String>)
        ensures
            match r {
                Some(s) => id_lookup(cache.ids(), self.function_id.spec_id()) == Some(s@),
                None => id_lookup(cache.ids(), self.function_id.spec_id()) is None,
            },
    {
        self.function_id.as_string(cache)
    }

    /// Get the number of parameters this closure expects
    pub fn param_count(&self) -> (n: usize)
        ensures
            n == self.parameters@.len(),
    {
        self.parameters.len()
    }

    /// Get a captured variable by name
    pub fn get_captured(&self, name: &str) -> (r: Option<&Value>)
        ensures
            match r {
                Some(v) => lookup(self.captured_vars@, name@) == Some(*v),
                None => lookup(self.captured_vars@, name@) is None,
            },
    {
        self.captured_vars.get(name)
    }

    /// Update a captured variable (only if captured by reference)
    pub fn set_captured(&mut self, name: String, value: Value) -> (r: Result<(), Error>)
        ensures
            old(self).captures_by_ref ==> r is Ok && final(self).captured_vars@ == insert_model(
                old(self).captured_vars@,
                name@,
                value,
            ),
            !old(self).captures_by_ref ==> (r matches Err(e) && e.kind == ErrorKind::RuntimeError
                && e.message@ == by_value_message() && final(self).captured_vars@ == old(self).captured_vars@),
            final(self).function_id == old(self).function_id,
            final(self).parameters == old(self).parameters,
            final(self).captures_by_ref == old(self).captures_by_ref,
    {
        if !self.captures_by_ref {
            return Err(by_value_error());
        }
        self.captured_vars.insert(name, value);
        Ok(())
    }

    /// Get the parameter names
    pub fn get_parameters(&self) -> (p: &[String])
        ensures
            p@ == self.parameters@,
    {
        self.parameters.as_slice()
    }

    /// Check if this closure captures by reference
    pub fn captures_by_reference(&self) -> (b: bool)
        ensures
            b == self.captures_by_ref,
    {
        self.captures_by_ref
    }

    /// Get the number of captured variables
    pub fn capture_count(&self) -> (n: usize)
        ensures
            n == self.captured_vars@.len(),
    {
        self.captured_vars.len()
    }

    /// Check if this closure has any captured variables
    pub fn has_captures(&self) -> (b: bool)
        ensures
            b == (self.captured_vars@.len() > 0),
    {
        !self.captured_vars.is_empty()
    }

    /// Check if this closure captures other closures (for cycle detection)
    pub fn captures_closures(&self) -> (b: bool)
        ensures
            b == has_closure_value(self.captured_vars@),
    {
        self.captured_vars.contains_closures()
    }

    /// Get storage type for debugging
    pub fn storage_type(&self) -> (s: &'static str)
        ensures
            self.captured_vars is Inline ==> s@ == "inline"@,
            self.captured_vars is HashMap ==> s@ == "hashmap"@,
    {
        self.captured_vars.storage_type()
    }
}

impl PartialEq for OptimizedClosure {
    /// Equal when the function, parameters and capture mode agree; captured
    /// values are not compared.
    fn eq(&self, other: &Self) -> (r: bool) {
        self.function_id == other.function_id
            && strings_eq(self.parameters.as_slice(), other.parameters.as_slice())
            && self.captures_by_ref == other.captures_by_ref
    }
}

impl PartialEqSpecImpl for OptimizedClosure {
    open spec fn obeys_eq_spec() -> bool {
        true
    }

    open spec fn eq_spec(&self, other: &OptimizedClosure) -> bool {
        &&& self.function_id == other.function_id
        &&& strings_view(self.parameters@) == strings_view(other.parameters@)
        &&& self.captures_by_ref == other.captures_by_ref
    }
}

/// A lightweight call frame for the call stack
#[derive(Debug, Clone, Copy)]
pub struct CallFrame {
    /// Function ID being called
    pub function_id: FunctionId,
    /// Argument count
    pub arg_count: usize,
}

/// Closure runtime with lookup by numeric function ID and a cache of
/// parameter counts.
pub struct OptimizedClosureRuntime<F: Fn(&[Value]) -> Result<Value, Error>> {
    /// Function registry using numeric IDs
    closure_registry: IdMap<F>,
    /// Lightweight call frames
    call_stack: Vec<CallFrame>,
    /// Cache for parameter count validation
    param_count_cache: IdMap<usize>,
}

impl<F: Fn(&[Value]) -> Result<Value, Error>> OptimizedClosureRuntime<F> {
    pub closed spec fn registry(&self) -> Seq<(u32, F)> {
        self.closure_registry@
    }

    pub closed spec fn stack(&self) -> Seq<CallFrame> {
        self.call_stack@
    }

    pub closed spec fn param_cache(&self) -> Seq<(u32, usize)> {
        self.param_count_cache@
    }

    /// Create a new optimized closure runtime
    pub fn new() -> (r: Self)
        ensures
            r.registry() == Seq::<(u32, F)>::empty(),
            r.stack() == Seq::<CallFrame>::empty(),
            r.param_cache() == Seq::<(u32, usize)>::empty(),
    {
        OptimizedClosureRuntime { closure_registry: IdMap::new(), call_stack: Vec::new(), param_count_cache: IdMap::new() }
    }

    /// Register a closure implementation under a function name (interned in
    /// `cache`)
    pub fn register_closure(&mut self, function_id: String, implementation: F, cache: &mut FunctionIdCache)
        requires
            old(cache).wf(),
        ensures
            final(cache).wf(),
            exists|id: u32| lookup(final(cache).names(), function_id@) == Some(id)
                && final(self).registry() == id_insert_model(old(self).registry(), id, implementation),
            final(self).stack() == old(self).stack(),
            final(self).param_cache() == old(self).param_cache(),
    {
        let optimized_id = OptimizedFunctionId::from_string(function_id.as_str(), cache);
        self.closure_registry.insert(optimized_id.id(), implementation);
        assert(lookup(cache.names(), function_id@) == Some(optimized_id.spec_id())
            && self.registry() == id_insert_model(old(self).registry(), optimized_id.spec_id(), implementation));
    }

    /// Register a closure implementation with numeric ID
    pub fn register_closure_by_id(&mut self, function_id: FunctionId, implementation: F)
        ensures
            final(self).registry() == id_insert_model(old(self).registry(), function_id, implementation),
            final(self).stack() == old(self).stack(),
            final(self).param_cache() == old(self).param_cache(),
    {
        self.closure_registry.insert(function_id, implementation);
    }

    /// Execute a closure: the expected argument count is the cached count for
    /// its function ID, or its own parameter count (which is then cached).
    pub fn execute_closure(
        &mut self,
        closure: &OptimizedClosure,
        args: &[Value],
        cache: &FunctionIdCache,
    ) -> (r: Result<Value, Error>)
        requires
            id_lookup(old(self).registry(), closure.function_id.spec_id()) matches Some(f) ==> f.requires((args,)),
        ensures
            ({
                let id = closure.function_id.spec_id();
                let expected: nat = match id_lookup(old(self).param_cache(), id) {
                    Some(n) => n as nat,
                    None => closure.parameters@.len(),
                };
                &&& final(self).registry() == old(self).registry()
                &&& final(self).stack() == old(self).stack()
                &&& final(self).param_cache() == match id_lookup(old(self).param_cache(), id) {
                    Some(n) => old(self).param_cache(),
                    None => id_insert_model(old(self).param_cache(), id, closure.parameters@.len() as usize),
                }
                &&& args@.len() != expected ==> (r matches Err(e) && e.kind == ErrorKind::RuntimeError
                    && e.message@ == arity_message(expected, args@.len()))
                &&& args@.len() == expected ==> match id_lookup(old(self).registry(), id) {
                    Some(f) => f.ensures((args,), r),
                    None => (r matches Err(e) && e.kind == ErrorKind::RuntimeError && e.message@
                        == not_found_message(function_label(*cache, id))),
                }
            }),
    {
        let function_id = closure.function_id();
        // Parameter count validation with caching
        let expected_params = match self.param_count_cache.get(function_id) {
            Some(count) => *count,
            None => {
                let count = closure.param_count();
                self.param_count_cache.insert(function_id, count);
                count
            },
        };
        if args.len() != expected_params {
            return Err(arity_error(expected_params, args.len()));
        }
        // Push lightweight call frame
        self.call_stack.push(CallFrame { function_id, arg_count: args.len() });
        // Function lookup by numeric ID
        let result = match self.closure_registry.get(function_id) {
            Some(implementation) => implementation(args),
            None => {
                let name = match closure.function_name(cache) {
                    Some(s) => s,
                    None => {
                        proof {
                            reveal_strlit("#");
                        }
                        let n = usize_to_text(function_id as usize);
                        concat("#", n.as_str())
                    },
                };
                Err(not_found_error(name.as_str()))
            },
        };
        // Pop call frame
        let ghost pushed = self.call_stack@;
        self.call_stack.pop();
        assert(self.call_stack@ =~= pushed.drop_last());
        result
    }

    /// Get the current call stack depth
    pub fn call_stack_depth(&self) -> (n: usize)
        ensures
            n == self.stack().len(),
    {
        self.call_stack.len()
    }

    /// Get the current function ID being executed
    pub fn current_function_id(&self) -> (r: Option<FunctionId>)
        ensures
            self.stack().len() == 0 ==> r is None,
            self.stack().len() > 0 ==> r == Some(self.stack().last().function_id),
    {
        if self.call_stack.len() == 0 {
            None
        } else {
            Some(self.call_stack[self.call_stack.len() - 1].function_id)
        }
    }

    /// Clear the parameter count cache
    pub fn clear_param_cache(&mut self)
        ensures
            final(self).param_cache() == Seq::<(u32, usize)>::empty(),
            final(self).registry() == old(self).registry(),
            final(self).stack() == old(self).stack(),
    {
        self.param_count_cache.clear();
    }

    /// The number of registered implementations and of cached parameter
    /// counts.
    pub fn cache_stats(&self) -> (r: (usize, usize))
        ensures
            r.0 == self.registry().len(),
            r.1 == self.param_cache().len(),
    {
        (self.closure_registry.len(), self.param_count_cache.len())
    }
}

/// Create a closure value with interned function ID and compact capture
/// storage.
pub fn create_optimized_closure_heap(
    function_id: String,
    parameters: Vec<String>,
    captured_vars: Vec<(String, Value)>,
    captures_by_ref: bool,
    cache: &mut FunctionIdCache,
) -> (v: Value)
    requires
        old(cache).wf(),
    ensures
        v matches Value::OptimizedClosure(c) && interned(*old(cache), *final(cache), function_id@, c.function_id.spec_id())
            && c.parameters == parameters && c.captures_by_ref == captures_by_ref && c.captured_vars@
            == insert_all_model(
            Seq::<(Seq<char>, Value)>::empty(),
            captured_vars@.map_values(|e: (String, Value)| (e.0@, e.1)),
        ),
{
    let closure = if captures_by_ref {
        OptimizedClosure::new_by_ref(function_id, parameters, captured_vars, cache)
    } else {
        OptimizedClosure::new(function_id, parameters, captured_vars, cache)
    };
    Value::OptimizedClosure(Arc::new(closure))
}

/// Create a simple optimized closure with no captures, paired with its
/// implementation.
pub fn create_simple_optimized_closure<F: Fn(&[Value]) -> Result<Value, Error>>(
    name: &str,
    params: Vec<String>,
    func: F,
    cache: &mut FunctionIdCache,
) -> (r: (OptimizedClosure, F))
    requires
        old(cache).wf(),
    ensures
        final(cache).wf(),
        lookup(final(cache).names(), name@) == Some(r.0.function_id.spec_id()),
        r.0.parameters == params,
        r.0.captured_vars@ == Seq::<(Seq<char>, Value)>::empty(),
        !r.0.captures_by_ref,
        r.1 == func,
{
    let closure = OptimizedClosure::new(crate::text::copy_text(name), params, Vec::new(), cache);
    proof {
        assert(Seq::<(String, Value)>::empty().map_values(|e: (String, Value)| (e.0@, e.1)) =~= Seq::<(Seq<char>, Value)>::empty());
    }
    (closure, func)
}

} // verus!
