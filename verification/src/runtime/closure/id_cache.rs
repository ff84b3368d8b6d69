//! Function ID interning: each function name gets a numeric identifier, the
//! same one for every request, so that closures compare identifiers instead
//! of strings.
use vstd::prelude::*;
use crate::idmap::{IdMap, id_lookup, id_insert_model, ids_distinct, has_id};
use crate::namemap::{NameMap, lookup, has_key, keys_distinct, lemma_key_index};
use crate::text::{concat3, copy_text, decimal, usize_to_text};

verus! {

/// Numeric ID type for interned function IDs
pub type FunctionId = u32;

/// The number of distinct values of a function ID.
pub open spec fn id_space() -> int {
    0x1_0000_0000
}

/// The identifier handed out to the name interned at position `i`:
/// identifiers count up from 1 and wrap around like a 32-bit counter.
pub open spec fn nth_id(i: int) -> u32 {
    ((i + 1) % id_space()) as u32
}

/// The identifiers of interned names, each with its name, in interning
/// order.
pub open spec fn names_as_ids(names: Seq<(Seq<char>, u32)>) -> Seq<(u32, Seq<char>)> {
    Seq::new(names.len(), |i: int| (names[i].1, names[i].0))
}

/// Interning cache: maps function names to numeric IDs and back.
pub struct FunctionIdCache {
    /// Maps string function IDs to numeric IDs
    string_to_id: NameMap<u32>,
    /// Maps numeric IDs back to string IDs
    id_to_string: IdMap<String>,
    /// Counter for generating unique IDs
    next_id: u32,
}

impl FunctionIdCache {
    /// The interned names with their identifiers, in interning order.
    pub closed spec fn names(&self) -> Seq<(Seq<char>, u32)> {
        self.string_to_id@
    }

    /// The identifiers with the names they stand for.
    pub closed spec fn ids(&self) -> Seq<(u32, Seq<char>)> {
        self.id_to_string@.map_values(|e: (u32, String)| (e.0, e.1@))
    }

    /// The identifier the next new name will get.
    pub closed spec fn spec_next_id(&self) -> u32 {
        self.next_id
    }

    /// The cache's consistency: the i-th interned name has the i-th
    /// identifier, and until identifiers wrap around each identifier leads
    /// back to its name.
    pub closed spec fn wf(&self) -> bool {
        &&& forall|i: int| 0 <= i < self.names().len() ==> (#[trigger] self.names()[i]).1 == nth_id(i)
        &&& self.next_id == nth_id(self.names().len() as int)
        &&& self.names().len() + 1 < id_space() ==> forall|i: int|
            0 <= i < self.names().len() ==> id_lookup(self.ids(), #[trigger] self.names()[i].1) == Some(
                self.names()[i].0,
            )
        &&& self.names().len() + 1 < id_space() ==> self.ids() == names_as_ids(self.names())
        &&& ids_distinct(self.ids())
        &&& ids_distinct(self.id_to_string@)
        &&& keys_distinct(self.names())
    }

    /// Create a new function ID cache
    pub fn new() -> (c: Self)
        ensures
            c.wf(),
            c.names() == Seq::<(Seq<char>, u32)>::empty(),
            c.ids() == Seq::<(u32, Seq<char>)>::empty(),
            c.spec_next_id() == 1,
    {
        let c = FunctionIdCache { string_to_id: NameMap::new(), id_to_string: IdMap::new(), next_id: 1 };
        proof {
            assert(c.ids() =~= Seq::<(u32, Seq<char>)>::empty());
            assert(names_as_ids(c.names()) =~= Seq::<(u32, Seq<char>)>::empty());
        }
        c
    }

    proof fn lemma_ids_view_insert(old_ids: Seq<(u32, String)>, new_ids: Seq<(u32, String)>, k: u32, v: String)
        requires
            ids_distinct(old_ids),
            new_ids == id_insert_model(old_ids, k, v),
        ensures
            new_ids.map_values(|e: (u32, String)| (e.0, e.1@)) == id_insert_model(
                old_ids.map_values(|e: (u32, String)| (e.0, e.1@)),
                k,
                v@,
            ),
    {
        let f = |e: (u32, String)| (e.0, e.1@);
        let ov = old_ids.map_values(f);
        assert forall|j: int| 0 <= j < ov.len() implies #[trigger] ov[j].0 == old_ids[j].0 by {}
        if has_id(old_ids, k) {
            let i = crate::idmap::id_index(old_ids, k);
            crate::idmap::lemma_id_index(ov, k, i);
            assert(new_ids.map_values(f) =~= id_insert_model(ov, k, v@));
        } else {
            if has_id(ov, k) {
                let j = choose|j: int| 0 <= j < ov.len() && #[trigger] ov[j].0 == k;
                assert(old_ids[j].0 == k);
            }
            assert(new_ids.map_values(f) =~= id_insert_model(ov, k, v@));
        }
    }

    /// Get or create a numeric ID for a function name; the same name always
    /// gets the same ID.
    pub fn get_or_intern(&mut self, function_name: &str) -> (id: FunctionId)
        requires
            old(self).wf(),
        ensures
            final(self).wf(),
            lookup(final(self).names(), function_name@) == Some(id),
            has_key(old(self).names(), function_name@) ==> lookup(old(self).names(), function_name@) == Some(id)
                && final(self).names() == old(self).names() && final(self).ids() == old(self).ids()
                && final(self).spec_next_id() == old(self).spec_next_id(),
            !has_key(old(self).names(), function_name@) ==> id == old(self).spec_next_id()
                && final(self).names() == old(self).names().push((function_name@, id))
                && final(self).ids() == id_insert_model(old(self).ids(), id, function_name@)
                && final(self).spec_next_id() == nth_id(old(self).names().len() + 1int),
            final(self).names().len() + 1 < id_space() ==> id_lookup(final(self).ids(), id) == Some(function_name@),
    {
        // Fast path: check if we already have this ID
        if let Some(id) = self.string_to_id.get(function_name) {
            let id = *id;
            proof {
                if self.names().len() + 1 < id_space() {
                    let i = crate::namemap::key_index(self.names(), function_name@);
                    assert(self.names()[i].1 == id);
                }
            }
            return id;
        }
        // Slow path: intern the string under the next ID
        let ghost old_names = self.names();
        let ghost old_ids_raw = self.id_to_string@;
        let new_id = self.next_id;
        self.next_id = self.next_id.wrapping_add(1);
        proof {
            assert(self.next_id == nth_id(old_names.len() + 1int)) by {
                assert(new_id == nth_id(old_names.len() as int));
            }
        }
        self.string_to_id.insert(copy_text(function_name), new_id);
        let interned = copy_text(function_name);
        self.id_to_string.insert(new_id, interned);
        proof {
            Self::lemma_ids_view_insert(old_ids_raw, self.id_to_string@, new_id, interned);
            assert(self.names() =~= old_names.push((function_name@, new_id)));
            crate::idmap::lemma_id_insert(self.ids(), new_id, function_name@);
            crate::idmap::lemma_id_insert(
                old_ids_raw.map_values(|e: (u32, String)| (e.0, e.1@)),
                new_id,
                function_name@,
            );
            lemma_key_index(self.names(), function_name@, old_names.len() as int);
            if self.names().len() + 1 < id_space() {
                let ov = old_ids_raw.map_values(|e: (u32, String)| (e.0, e.1@));
                assert(ov == names_as_ids(old_names));
                assert(!has_id(ov, new_id)) by {
                    if has_id(ov, new_id) {
                        let j = choose|j: int| 0 <= j < ov.len() && #[trigger] ov[j].0 == new_id;
                        assert(ov[j].0 == old_names[j].1);
                        assert(old_names[j].1 == nth_id(j));
                    }
                }
                assert(self.ids() =~= names_as_ids(self.names()));
                assert forall|i: int| 0 <= i < self.names().len() implies id_lookup(
                    self.ids(),
                    #[trigger] self.names()[i].1,
                ) == Some(self.names()[i].0) by {
                    if i < old_names.len() {
                        assert(self.names()[i] == old_names[i]);
                        assert(old_names[i].1 != new_id);
                    }
                }
            }
        }
        new_id
    }

    /// The name an ID stands for.
    pub fn get_string(&self, id: FunctionId) -> (r: Option<String>)
        ensures
            match r {
                Some(s) => id_lookup(self.ids(), id) == Some(s@),
                None => id_lookup(self.ids(), id) is None,
            },
    {
        let ghost raw = self.id_to_string@;
        proof {
            let f = |e: (u32, String)| (e.0, e.1@);
            assert forall|j: int| 0 <= j < raw.len() implies #[trigger] self.ids()[j] == f(raw[j]) by {}
        }
        let found = self.id_to_string.get(id);
        proof {
            assert forall|a: int, b: int| 0 <= a < self.ids().len() && 0 <= b < self.ids().len() && a != b
                implies #[trigger] self.ids()[a].0 != #[trigger] self.ids()[b].0 by {
                assert(self.ids()[a].0 == raw[a].0);
                assert(self.ids()[b].0 == raw[b].0);
            }
        }
        match found {
            Some(s) => {
                proof {
                    let i = crate::idmap::id_index(raw, id);
                    assert(self.ids()[i].0 == id);
                    crate::idmap::lemma_id_index(self.ids(), id, i);
                }
                Some(copy_text(s.as_str()))
            },
            None => {
                proof {
                    if has_id(self.ids(), id) {
                        let j = choose|j: int| 0 <= j < self.ids().len() && #[trigger] self.ids()[j].0 == id;
                        assert(raw[j].0 == id);
                    }
                }
                None
            },
        }
    }

    /// Check if a function ID exists in the cache
    pub fn contains_id(&self, id: FunctionId) -> (b: bool)
        ensures
            b == id_lookup(self.ids(), id) is Some,
    {
        self.get_string(id).is_some()
    }

    /// Get the number of interned function IDs
    pub fn len(&self) -> (n: usize)
        ensures
            n == self.names().len(),
    {
        self.string_to_id.len()
    }

    /// Check if the cache is empty
    pub fn is_empty(&self) -> (b: bool)
        ensures
            b == (self.names().len() == 0),
    {
        self.string_to_id.is_empty()
    }

    /// Clear all cached IDs; numbering starts again from 1.
    pub fn clear(&mut self)
        ensures
            final(self).wf(),
            final(self).names() == Seq::<(Seq<char>, u32)>::empty(),
            final(self).ids() == Seq::<(u32, Seq<char>)>::empty(),
            final(self).spec_next_id() == 1,
    {
        self.string_to_id.clear();
        self.id_to_string.clear();
        self.next_id = 1;
        proof {
            assert(self.ids() =~= Seq::<(u32, Seq<char>)>::empty());
            assert(names_as_ids(self.names()) =~= Seq::<(u32, Seq<char>)>::empty());
        }
    }
}

/// While identifiers have not wrapped around, different interned names have
/// different identifiers.
pub proof fn lemma_distinct_names_distinct_ids(c: FunctionIdCache, a: Seq<char>, b: Seq<char>)
    requires
        c.wf(),
        c.names().len() + 1 < id_space(),
        has_key(c.names(), a),
        has_key(c.names(), b),
        a != b,
    ensures
        lookup(c.names(), a) != lookup(c.names(), b),
{
    let i = crate::namemap::key_index(c.names(), a);
    let j = crate::namemap::key_index(c.names(), b);
    assert(c.names()[i].1 == nth_id(i));
    assert(c.names()[j].1 == nth_id(j));
}

/// Interning while identifiers have not wrapped around: an interned
/// name's identifier leads back to it, different names have different
/// identifiers, identifier 0 is never handed out, and an identifier that no
/// interned name has leads nowhere.
pub proof fn lemma_interned_ids(c: FunctionIdCache, id: u32)
    requires
        c.wf(),
        c.names().len() + 1 < id_space(),
    ensures
        forall|a: Seq<char>| #[trigger] has_key(c.names(), a) ==> id_lookup(c.ids(), lookup(c.names(), a)->0) == Some(a),
        forall|a: Seq<char>, b: Seq<char>|
            #[trigger] has_key(c.names(), a) && #[trigger] has_key(c.names(), b) && a != b ==> lookup(c.names(), a)
                != lookup(c.names(), b),
        id_lookup(c.ids(), 0) is None,
        (forall|a: Seq<char>| #[trigger] lookup(c.names(), a) != Some(id)) ==> id_lookup(c.ids(), id) is None,
{
    let n = c.names();
    assert forall|a: Seq<char>, b: Seq<char>| #[trigger] has_key(n, a) && #[trigger] has_key(n, b) && a != b implies lookup(
        n,
        a,
    ) != lookup(n, b) by {
        lemma_distinct_names_distinct_ids(c, a, b);
    }
    assert forall|a: Seq<char>| #[trigger] has_key(n, a) implies id_lookup(c.ids(), lookup(n, a)->0) == Some(a) by {
        let i = crate::namemap::key_index(n, a);
        assert(n[i].0 == a);
    }
    if has_id(c.ids(), 0) {
        let j = choose|j: int| 0 <= j < c.ids().len() && #[trigger] c.ids()[j].0 == 0u32;
        assert(c.ids()[j].0 == n[j].1);
        assert(n[j].1 == nth_id(j));
    }
    if has_id(c.ids(), id) {
        let j = choose|j: int| 0 <= j < c.ids().len() && #[trigger] c.ids()[j].0 == id;
        assert(c.ids()[j].0 == n[j].1);
        lemma_key_index(n, n[j].0, j);
        assert(lookup(n, n[j].0) == Some(id));
    }
}

/// Optimized function ID that uses numeric comparison instead of string comparison
#[derive(Debug, Clone, Copy, PartialEq, Eq, Hash, Structural)]
pub struct OptimizedFunctionId {
    id: FunctionId,
}

/// The text shown for an identifier the cache does not know.
pub open spec fn unknown_function_text(id: u32) -> Seq<char> {
    "<unknown function #"@ + decimal(id as nat) + ">"@
}

/// The cache after interning `name` under `id`: unchanged when the name was
/// interned already, else with the name added under the next identifier.
pub open spec fn interned(before: FunctionIdCache, after: FunctionIdCache, name: Seq<char>, id: u32) -> bool {
    &&& after.wf()
    &&& lookup(after.names(), name) == Some(id)
    &&& has_key(before.names(), name) ==> after.names() == before.names() && after.ids() == before.ids()
        && after.spec_next_id() == before.spec_next_id()
    &&& !has_key(before.names(), name) ==> id == before.spec_next_id() && after.names() == before.names().push(
        (name, id),
    ) && after.ids() == id_insert_model(before.ids(), id, name) && after.spec_next_id() == nth_id(
        before.names().len() + 1int,
    )
    &&& after.names().len() + 1 < id_space() ==> id_lookup(after.ids(), id) == Some(name)
}

impl OptimizedFunctionId {
    pub closed spec fn spec_id(&self) -> u32 {
        self.id
    }

    /// Create an optimized function ID from a name, interning it in `cache`
    pub fn from_string(function_name: &str, cache: &mut FunctionIdCache) -> (r: Self)
        requires
            old(cache).wf(),
        ensures
            interned(*old(cache), *final(cache), function_name@, r.spec_id()),
    {
        OptimizedFunctionId { id: cache.get_or_intern(function_name) }
    }

    /// Get the numeric ID
    pub fn id(&self) -> (id: FunctionId)
        ensures
            id == self.spec_id(),
    {
        self.id
    }

    /// Get the name this ID stands for in `cache`
    pub fn as_string(&self, cache: &FunctionIdCache) -> (r: Option<String>)
        ensures
            match r {
                Some(s) => id_lookup(cache.ids(), self.spec_id()) == Some(s@),
                None => id_lookup(cache.ids(), self.spec_id()) is None,
            },
    {
        cache.get_string(self.id)
    }

    /// Create from a raw numeric ID (for testing)
    pub fn from_raw_id(id: FunctionId) -> (r: Self)
        ensures
            r.spec_id() == id,
    {
        OptimizedFunctionId { id }
    }

    /// The name this ID stands for, or "<unknown function #N>".
    pub fn display_text(&self, cache: &FunctionIdCache) -> (s: String)
        ensures
            match id_lookup(cache.ids(), self.spec_id()) {
                Some(n) => s@ == n,
                None => s@ == unknown_function_text(self.spec_id()),
            },
    {
        match self.as_string(cache) {
            Some(s) => s,
            None => {
                proof {
                    reveal_strlit("<unknown function #");
                    reveal_strlit(">");
                }
                let n = usize_to_text(self.id as usize);
                concat3("<unknown function #", n.as_str(), ">")
            },
        }
    }
}

/// Intern a function name in the shared cache, giving its identifier
pub fn intern_function_id(cache: &mut FunctionIdCache, name: &str) -> (id: FunctionId)
    requires
        old(cache).wf(),
    ensures
        interned(*old(cache), *final(cache), name@, id),
{
    cache.get_or_intern(name)
}

/// The name an identifier stands for in the shared cache
pub fn get_function_string(cache: &FunctionIdCache, id: FunctionId) -> (r: Option<String>)
    ensures
        match r {
            Some(s) => id_lookup(cache.ids(), id) == Some(s@),
            None => id_lookup(cache.ids(), id) is None,
        },
{
    cache.get_string(id)
}

} // verus!
