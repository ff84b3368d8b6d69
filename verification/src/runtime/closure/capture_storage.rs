//! Storage for captured variables that keeps up to four captures inline and
//! switches to a map beyond that.
use vstd::prelude::*;
use crate::namemap::{NameMap, lookup, has_key, insert_model, insert_all_model, remove_model, lemma_insert_keeps_distinct, keys_distinct};
use crate::runtime::value::Value;

verus! {

/// Threshold for switching from inline storage to a map
pub const INLINE_THRESHOLD: usize = 4;

/// Inline storage for small numbers of captured variables (at most
/// `INLINE_THRESHOLD`).
#[derive(Debug)]
pub struct InlineCaptures {
    captures: NameMap<Value>,
}

impl View for InlineCaptures {
    type V = Seq<(Seq<char>, Value)>;

    closed spec fn view(&self) -> Seq<(Seq<char>, Value)> {
        self.captures@
    }
}

impl InlineCaptures {
    #[verifier::type_invariant]
    closed spec fn bounded(&self) -> bool {
        self.captures@.len() <= INLINE_THRESHOLD
    }

    /// Create new empty inline captures
    pub fn new() -> (r: Self)
        ensures
            r@ == Seq::<(Seq<char>, Value)>::empty(),
    {
        InlineCaptures { captures: NameMap::new() }
    }

    /// Get the number of captured variables
    pub fn len(&self) -> (n: usize)
        ensures
            n == self@.len(),
            n <= INLINE_THRESHOLD,
    {
        proof {
            use_type_invariant(self);
        }
        self.captures.len()
    }

    /// Check if there are no captured variables
    pub fn is_empty(&self) -> (b: bool)
        ensures
            b == (self@.len() == 0),
    {
        self.captures.is_empty()
    }

    /// Check if at capacity
    pub fn is_full(&self) -> (b: bool)
        ensures
            b == (self@.len() >= INLINE_THRESHOLD),
    {
        self.captures.len() >= INLINE_THRESHOLD
    }

    /// Insert a captured variable; an existing name is updated, a new name is
    /// added only while there is room. Returns whether the value was stored.
    pub fn insert(&mut self, name: String, value: Value) -> (stored: bool)
        ensures
            stored == (has_key(old(self)@, name@) || old(self)@.len() < INLINE_THRESHOLD),
            stored ==> final(self)@ == insert_model(old(self)@, name@, value),
            !stored ==> final(self)@ == old(self)@,
    {
        proof {
            use_type_invariant(&*self);
        }
        let present = self.captures.contains_key(name.as_str());
        if present || self.captures.len() < INLINE_THRESHOLD {
            let mut m: NameMap<Value> = NameMap::new();
            std::mem::swap(&mut m, &mut self.captures);
            let ghost before = m@;
            m.insert(name, value);
            proof {
                crate::namemap::lemma_insert_keeps_distinct(before, name@, value);
            }
            self.captures = m;
            true
        } else {
            false
        }
    }

    /// Get a captured variable by name
    pub fn get(&self, name: &str) -> (r: Option<&Value>)
        ensures
            match r {
                Some(v) => lookup(self@, name@) == Some(*v),
                None => lookup(self@, name@) is None,
            },
    {
        self.captures.get(name)
    }

    /// Remove a captured variable, returns the value if found; the others
    /// keep their order.
    pub fn remove(&mut self, name: &str) -> (r: Option<Value>)
        ensures
            final(self)@ == remove_model(old(self)@, name@),
            r == lookup(old(self)@, name@),
    {
        proof {
            use_type_invariant(&*self);
        }
        let mut m: NameMap<Value> = NameMap::new();
        std::mem::swap(&mut m, &mut self.captures);
        let ghost before = m@;
        let r = m.remove(name);
        proof {
            if has_key(before, name@) {
                assert(m@.len() == before.len() - 1) by {
                    crate::namemap::lemma_remove_keeps_distinct(before, name@);
                }
            }
        }
        self.captures = m;
        r
    }

    /// The entries as a map.
    pub fn into_hashmap(self) -> (m: NameMap<Value>)
        ensures
            m@ == self@,
    {
        self.captures
    }

    /// The name of the capture at position `i`.
    pub fn key_at(&self, i: usize) -> (k: &String)
        requires
            i < self@.len(),
        ensures
            k@ == self@[i as int].0,
    {
        self.captures.key_at(i)
    }

    /// The value of the capture at position `i`.
    pub fn value_at(&self, i: usize) -> (v: &Value)
        requires
            i < self@.len(),
        ensures
            *v == self@[i as int].1,
    {
        self.captures.value_at(i)
    }
}

impl Clone for InlineCaptures {
    fn clone(&self) -> (r: Self)
        ensures
            r@.len() == self@.len(),
    {
        proof {
            use_type_invariant(self);
        }
        InlineCaptures { captures: self.captures.clone() }
    }
}

/// Storage for captured variables: inline for small capture counts, a map
/// beyond `INLINE_THRESHOLD`.
#[derive(Debug, Clone)]
pub enum CaptureStorage {
    /// Inline storage for small capture counts (0-4 variables)
    Inline(InlineCaptures),
    /// Map storage for larger capture counts (5+ variables)
    HashMap(NameMap<Value>),
}

impl View for CaptureStorage {
    type V = Seq<(Seq<char>, Value)>;

    open spec fn view(&self) -> Seq<(Seq<char>, Value)> {
        match self {
            CaptureStorage::Inline(i) => i@,
            CaptureStorage::HashMap(m) => m@,
        }
    }
}

/// Whether some captured value is a closure.
pub open spec fn has_closure_value(s: Seq<(Seq<char>, Value)>) -> bool {
    exists|i: int| 0 <= i < s.len() && (#[trigger] s[i]).1.spec_is_closure()
}

impl CaptureStorage {
    /// Create new empty capture storage
    pub fn new() -> (r: Self)
        ensures
            r@ == Seq::<(Seq<char>, Value)>::empty(),
            r is Inline,
    {
        CaptureStorage::Inline(InlineCaptures::new())
    }

    /// Create from a list of captures: inline storage when there are at most
    /// `INLINE_THRESHOLD` of them, a map otherwise.
    pub fn from_captures(captures: Vec<(String, Value)>) -> (r: Self)
        ensures
            r@ == insert_all_model(
                Seq::<(Seq<char>, Value)>::empty(),
                captures@.map_values(|e: (String, Value)| (e.0@, e.1)),
            ),
            (r is Inline) == (captures@.len() <= INLINE_THRESHOLD),
    {
        if captures.len() <= INLINE_THRESHOLD {
            let ghost pv = captures@.map_values(|e: (String, Value)| (e.0@, e.1));
            let mut inline = InlineCaptures::new();
            let mut rest = captures;
            let ghost total = rest@.len();
            while rest.len() > 0
                invariant
                    total == pv.len(),
                    total <= INLINE_THRESHOLD,
                    rest@.len() <= total,
                    forall|j: int| 0 <= j < rest@.len() ==>
                        (#[trigger] rest@[j]).0@ == pv[total - rest@.len() + j].0 && rest@[j].1 == pv[total - rest@.len() + j].1,
                    inline@ == insert_all_model(Seq::<(Seq<char>, Value)>::empty(), pv.subrange(0, total - rest@.len())),
                    inline@.len() <= total - rest@.len(),
                    keys_distinct(inline@),
                decreases rest@.len(),
            {
                let ghost k = total - rest@.len();
                let ghost before = rest@;
                let ghost before_map = inline@;
                let (n, v) = rest.remove(0);
                assert(pv.subrange(0, k + 1).drop_last() =~= pv.subrange(0, k));
                assert forall|j: int| 0 <= j < rest@.len() implies
                    (#[trigger] rest@[j]).0@ == pv[total - rest@.len() + j].0 && rest@[j].1 == pv[total - rest@.len() + j].1 by {
                    assert(rest@[j] == before[j + 1]);
                }
                proof {
                    lemma_insert_keeps_distinct(before_map, n@, v);
                }
                let stored = inline.insert(n, v);
                assert(stored);
            }
            assert(pv.subrange(0, total as int) =~= pv);
            CaptureStorage::Inline(inline)
        } else {
            CaptureStorage::HashMap(NameMap::from_pairs(captures))
        }
    }

    /// Get the number of captured variables
    pub fn len(&self) -> (n: usize)
        ensures
            n == self@.len(),
    {
        match self {
            CaptureStorage::Inline(inline) => inline.len(),
            CaptureStorage::HashMap(map) => map.len(),
        }
    }

    /// Check if there are no captured variables
    pub fn is_empty(&self) -> (b: bool)
        ensures
            b == (self@.len() == 0),
    {
        match self {
            CaptureStorage::Inline(inline) => inline.is_empty(),
            CaptureStorage::HashMap(map) => map.is_empty(),
        }
    }

    /// Insert a captured variable; inline storage that has no room for a new
    /// name becomes map storage.
    pub fn insert(&mut self, name: String, value: Value)
        ensures
            final(self)@ == insert_model(old(self)@, name@, value),
            *old(self) is HashMap ==> *final(self) is HashMap,
            *old(self) is Inline ==> ((*final(self) is Inline) == (has_key(old(self)@, name@)
                || old(self)@.len() < INLINE_THRESHOLD)),
    {
        let mut storage = CaptureStorage::new();
        std::mem::swap(&mut storage, self);
        match storage {
            CaptureStorage::Inline(mut inline) => {
                let ghost before = inline@;
                let fits = inline.contains_or_room(name.as_str());
                if fits {
                    inline.insert(name, value);
                    *self = CaptureStorage::Inline(inline);
                } else {
                    // Inline storage is full, convert to a map
                    let mut map = inline.into_hashmap();
                    map.insert(name, value);
                    *self = CaptureStorage::HashMap(map);
                }
            },
            CaptureStorage::HashMap(mut map) => {
                map.insert(name, value);
                *self = CaptureStorage::HashMap(map);
            },
        }
    }

    /// Get a captured variable by name
    pub fn get(&self, name: &str) -> (r: Option<&Value>)
        ensures
            match r {
                Some(v) => lookup(self@, name@) == Some(*v),
                None => lookup(self@, name@) is None,
            },
    {
        match self {
            CaptureStorage::Inline(inline) => inline.get(name),
            CaptureStorage::HashMap(map) => map.get(name),
        }
    }

    /// Remove a captured variable
    pub fn remove(&mut self, name: &str) -> (r: Option<Value>)
        ensures
            final(self)@ == remove_model(old(self)@, name@),
            r == lookup(old(self)@, name@),
            (*old(self) is Inline) == (*final(self) is Inline),
    {
        let mut storage = CaptureStorage::new();
        std::mem::swap(&mut storage, self);
        match storage {
            CaptureStorage::Inline(mut inline) => {
                let r = inline.remove(name);
                *self = CaptureStorage::Inline(inline);
                r
            },
            CaptureStorage::HashMap(mut map) => {
                let r = map.remove(name);
                *self = CaptureStorage::HashMap(map);
                r
            },
        }
    }

    /// The name of the capture at position `i`.
    pub fn key_at(&self, i: usize) -> (k: &String)
        requires
            i < self@.len(),
        ensures
            k@ == self@[i as int].0,
    {
        match self {
            CaptureStorage::Inline(inline) => inline.key_at(i),
            CaptureStorage::HashMap(map) => map.key_at(i),
        }
    }

    /// The value of the capture at position `i`.
    pub fn value_at(&self, i: usize) -> (v: &Value)
        requires
            i < self@.len(),
        ensures
            *v == self@[i as int].1,
    {
        match self {
            CaptureStorage::Inline(inline) => inline.value_at(i),
            CaptureStorage::HashMap(map) => map.value_at(i),
        }
    }

    /// Check if storage contains closure values (for cycle detection)
    pub fn contains_closures(&self) -> (b: bool)
        ensures
            b == has_closure_value(self@),
    {
        let n = self.len();
        let mut i: usize = 0;
        while i < n
            invariant
                n == self@.len(),
                i <= n,
                forall|j: int| 0 <= j < i ==> !(#[trigger] self@[j]).1.spec_is_closure(),
            decreases n - i,
        {
            if self.value_at(i).is_closure() {
                return true;
            }
            i = i + 1;
        }
        false
    }

    /// Convert to a map (for compatibility)
    pub fn into_hashmap(self) -> (m: NameMap<Value>)
        ensures
            m@ == self@,
    {
        match self {
            CaptureStorage::Inline(inline) => inline.into_hashmap(),
            CaptureStorage::HashMap(map) => map,
        }
    }

    /// Get storage type for debugging
    pub fn storage_type(&self) -> (s: &'static str)
        ensures
            self is Inline ==> s@ == "inline"@,
            self is HashMap ==> s@ == "hashmap"@,
    {
        match self {
            CaptureStorage::Inline(_) => "inline",
            CaptureStorage::HashMap(_) => "hashmap",
        }
    }
}

impl InlineCaptures {
    /// Whether `name` can be stored: it is already there, or there is room.
    pub fn contains_or_room(&self, name: &str) -> (b: bool)
        ensures
            b == (has_key(self@, name@) || self@.len() < INLINE_THRESHOLD),
    {
        self.captures.contains_key(name) || self.captures.len() < INLINE_THRESHOLD
    }
}

/// Statistics about capture storage usage
#[derive(Debug, Clone, Default)]
pub struct CaptureStorageStats {
    /// Number of closures using inline storage
    pub inline_count: usize,
    /// Number of closures using map storage
    pub hashmap_count: usize,
    /// Total number of captured variables across all closures
    pub total_captures: usize,
}

impl CaptureStorageStats {
    /// Record usage of inline storage
    pub fn record_inline(&mut self, capture_count: usize)
        requires
            old(self).inline_count < usize::MAX,
            old(self).total_captures + capture_count <= usize::MAX,
        ensures
            final(self).inline_count == old(self).inline_count + 1,
            final(self).hashmap_count == old(self).hashmap_count,
            final(self).total_captures == old(self).total_captures + capture_count,
    {
        self.inline_count += 1;
        self.total_captures += capture_count;
    }

    /// Record usage of map storage
    pub fn record_hashmap(&mut self, capture_count: usize)
        requires
            old(self).hashmap_count < usize::MAX,
            old(self).total_captures + capture_count <= usize::MAX,
        ensures
            final(self).hashmap_count == old(self).hashmap_count + 1,
            final(self).inline_count == old(self).inline_count,
            final(self).total_captures == old(self).total_captures + capture_count,
    {
        self.hashmap_count += 1;
        self.total_captures += capture_count;
    }

    /// Get the total number of closures
    pub fn total_closures(&self) -> (n: usize)
        requires
            self.inline_count + self.hashmap_count <= usize::MAX,
        ensures
            n == self.inline_count + self.hashmap_count,
    {
        self.inline_count + self.hashmap_count
    }
}

} // verus!
