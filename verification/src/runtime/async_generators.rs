//! Async generators: values yielded into a buffer and taken out in order,
//! and the runtime that keeps the active generators.
use vstd::prelude::*;
use crate::error::Error;
use crate::runtime::closure::original::Closure;
use crate::runtime::value::Value;
use crate::text::concat;
use std::sync::Arc;

verus! {

/// Async generator state
#[derive(Debug)]
pub enum AsyncGeneratorState {
    /// Generator is ready to run
    Start,
    /// Generator is yielding a value
    Yielding(Value),
    /// Generator is complete
    Complete,
    /// Generator encountered an error
    Error(Error),
}

/// Async generator instance
#[derive(Debug)]
pub struct AsyncGenerator {
    /// The closure that implements the generator logic
    closure: Arc<Closure>,
    /// Current state of the generator
    state: AsyncGeneratorState,
    /// Values yielded but not yet consumed, oldest first
    buffer: Vec<Value>,
    /// Generator ID for debugging
    id: String,
}

impl AsyncGenerator {
    /// The values yielded and not yet taken, oldest first.
    pub closed spec fn buffered(&self) -> Seq<Value> {
        self.buffer@
    }

    /// Whether the generator completed.
    pub closed spec fn done(&self) -> bool {
        self.state is Complete
    }

    /// The generator's identifier.
    pub closed spec fn name(&self) -> Seq<char> {
        self.id@
    }

    /// The closure that implements the generator.
    pub closed spec fn body(&self) -> Arc<Closure> {
        self.closure
    }

    /// Create a new async generator from a closure
    pub fn new(closure: Arc<Closure>, id: String) -> (g: Self)
        ensures
            g.buffered() == Seq::<Value>::empty(),
            !g.done(),
            g.name() == id@,
            g.body() == closure,
    {
        AsyncGenerator { closure, state: AsyncGeneratorState::Start, buffer: Vec::new(), id }
    }

    /// Yield a value from the generator: it joins the buffer
    pub fn yield_value(&mut self, value: Value) -> (r: Result<(), Error>)
        ensures
            r is Ok,
            final(self).buffered() == old(self).buffered().push(value),
            final(self).done() == old(self).done(),
            final(self).name() == old(self).name(),
    {
        self.buffer.push(value);
        Ok(())
    }

    /// Get the next value from the generator: the oldest buffered one
    pub fn next(&mut self) -> (r: Option<Value>)
        ensures
            old(self).buffered().len() > 0 ==> r == Some(old(self).buffered()[0]) && final(self).buffered()
                == old(self).buffered().drop_first(),
            old(self).buffered().len() == 0 ==> r is None && final(self).buffered() == old(self).buffered(),
            final(self).done() == old(self).done(),
            final(self).name() == old(self).name(),
    {
        if self.buffer.len() > 0 {
            Some(self.buffer.remove(0))
        } else {
            None
        }
    }

    /// Check if the generator is complete
    pub fn is_complete(&self) -> (b: bool)
        ensures
            b == self.done(),
    {
        match self.state {
            AsyncGeneratorState::Complete => true,
            _ => false,
        }
    }

    /// Mark the generator as complete
    pub fn complete(&mut self)
        ensures
            final(self).done(),
            final(self).buffered() == old(self).buffered(),
            final(self).name() == old(self).name(),
    {
        self.state = AsyncGeneratorState::Complete;
    }

    /// Get the generator ID
    pub fn id(&self) -> (s: &str)
        ensures
            s@ == self.name(),
    {
        self.id.as_str()
    }
}

/// What polling for the next value gives.
#[derive(Debug)]
pub enum GeneratorPoll {
    /// A buffered value, or none when the generator completed
    Ready(Option<Value>),
    /// Nothing yet: poll again
    Pending,
}

/// The future of the next value of a generator
pub struct AsyncGeneratorNext {
    generator: AsyncGenerator,
}

impl AsyncGeneratorNext {
    /// The generator polled.
    pub closed spec fn polled(&self) -> AsyncGenerator {
        self.generator
    }

    /// Wait for the next value of a generator
    pub fn new(generator: AsyncGenerator) -> (n: Self)
        ensures
            n.polled() == generator,
    {
        AsyncGeneratorNext { generator }
    }

    /// Poll: a buffered value is ready; a completed generator gives none;
    /// else the value is pending
    pub fn poll(&mut self) -> (p: GeneratorPoll)
        ensures
            old(self).polled().buffered().len() > 0 ==> (p matches GeneratorPoll::Ready(Some(v)) && v == old(
                self,
            ).polled().buffered()[0] && final(self).polled().buffered() == old(self).polled().buffered().drop_first()),
            old(self).polled().buffered().len() == 0 && old(self).polled().done() ==> (p matches GeneratorPoll::Ready(None)
                && final(self).polled().buffered() == old(self).polled().buffered()),
            old(self).polled().buffered().len() == 0 && !old(self).polled().done() ==> (p is Pending
                && final(self).polled().buffered() == old(self).polled().buffered()),
            final(self).polled().done() == old(self).polled().done(),
    {
        if let Some(value) = self.generator.next() {
            return GeneratorPoll::Ready(Some(value));
        }
        if self.generator.is_complete() {
            return GeneratorPoll::Ready(None);
        }
        GeneratorPoll::Pending
    }

    /// The generator, back from the future
    pub fn into_generator(self) -> (g: AsyncGenerator)
        ensures
            g == self.polled(),
    {
        self.generator
    }
}

/// A fresh random (version 4) UUID, hyphenated, from `uuid::Uuid::new_v4`.
#[verifier::external_body]
fn new_uuid_text() -> String {
    uuid::Uuid::new_v4().to_string()
}

/// The generators not completed, in order.
pub open spec fn running(gs: Seq<AsyncGenerator>) -> Seq<AsyncGenerator>
    decreases gs.len(),
{
    if gs.len() == 0 {
        gs
    } else if gs.last().done() {
        running(gs.drop_last())
    } else {
        running(gs.drop_last()).push(gs.last())
    }
}

/// Runtime support for async generators: the active generators
pub struct AsyncGeneratorRuntime {
    generators: Vec<AsyncGenerator>,
}

impl AsyncGeneratorRuntime {
    /// The active generators, oldest first.
    pub closed spec fn active(&self) -> Seq<AsyncGenerator> {
        self.generators@
    }

    /// No generator yet
    pub fn new() -> (r: Self)
        ensures
            r.active() == Seq::<AsyncGenerator>::empty(),
    {
        AsyncGeneratorRuntime { generators: Vec::new() }
    }

    /// Create a new async generator named `async_gen_` and a fresh UUID;
    /// its position is given back
    pub fn create_generator(&mut self, closure: Arc<Closure>) -> (i: usize)
        ensures
            i == old(self).active().len(),
            final(self).active().len() == old(self).active().len() + 1,
            forall|k: int| 0 <= k < i ==> #[trigger] final(self).active()[k] == old(self).active()[k],
            final(self).active()[i as int].buffered() == Seq::<Value>::empty(),
            !final(self).active()[i as int].done(),
            final(self).active()[i as int].body() == closure,
            final(self).active()[i as int].name().subrange(0, 10) == "async_gen_"@,
    {
        let u = new_uuid_text();
        let id = concat("async_gen_", u.as_str());
        proof {
            reveal_strlit("async_gen_");
        }
        let i = self.generators.len();
        self.generators.push(AsyncGenerator::new(closure, id));
        assert(id@.subrange(0, 10) =~= "async_gen_"@);
        i
    }

    /// The number of active generators
    pub fn active_count(&self) -> (n: usize)
        ensures
            n == self.active().len(),
    {
        self.generators.len()
    }

    /// Get all active generators
    pub fn active_generators(&self) -> (g: &Vec<AsyncGenerator>)
        ensures
            g@ == self.active(),
    {
        &self.generators
    }

    /// The generator at position `i`, to use it
    pub fn generator_mut(&mut self, i: usize) -> (g: &mut AsyncGenerator)
        requires
            i < old(self).active().len(),
        ensures
            *g == old(self).active()[i as int],
            final(self).active() == old(self).active().update(i as int, *final(g)),
    {
        &mut self.generators[i]
    }

    /// Clean up completed generators; the others keep their order
    pub fn cleanup(&mut self)
        ensures
            final(self).active() == running(old(self).active()),
    {
        let mut rest = Vec::new();
        std::mem::swap(&mut rest, &mut self.generators);
        let ghost all = rest@;
        let mut kept: Vec<AsyncGenerator> = Vec::new();
        let ghost mut t: int = 0;
        assert(rest@ =~= all.subrange(0, all.len() as int));
        assert(running(all.subrange(0, 0)) =~= Seq::<AsyncGenerator>::empty());
        while rest.len() > 0
            invariant
                0 <= t <= all.len(),
                rest@ == all.subrange(t, all.len() as int),
                kept@ == running(all.subrange(0, t)),
            decreases rest@.len(),
        {
            let ghost old_rest = rest@;
            assert(old_rest.len() > 0);
            let g = rest.remove(0);
            let ghost gg = g;
            let ghost tt = t;
            let ghost before = kept@;
            proof {
                assert(old_rest[0] == all[t]);
                assert(rest@ =~= all.subrange(t + 1, all.len() as int));
            }
            if !g.is_complete() {
                kept.push(g);
            }
            proof {
                let sub = all.subrange(0, tt + 1);
                assert(sub.drop_last() =~= all.subrange(0, tt));
                assert(sub.last() == gg);
                assert(kept@ =~= running(sub));
                t = tt + 1;
            }
        }
        assert(all.subrange(0, t) =~= all);
        self.generators = kept;
    }
}

} // verus!
