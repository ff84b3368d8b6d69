//! A map from numeric identifiers to values, keeping each identifier once
//! in the order of first insertion.
use vstd::prelude::*;

verus! {

pub open spec fn ids_distinct<T>(s: Seq<(u32, T)>) -> bool {
    forall|i: int, j: int|
        0 <= i < s.len() && 0 <= j < s.len() && i != j ==> #[trigger] s[i].0 != #[trigger] s[j].0
}

pub open spec fn has_id<T>(s: Seq<(u32, T)>, k: u32) -> bool {
    exists|i: int| 0 <= i < s.len() && #[trigger] s[i].0 == k
}

pub open spec fn id_index<T>(s: Seq<(u32, T)>, k: u32) -> int {
    if has_id(s, k) {
        choose|i: int| 0 <= i < s.len() && #[trigger] s[i].0 == k
    } else {
        -1
    }
}

/// The value stored under an identifier.
pub open spec fn id_lookup<T>(s: Seq<(u32, T)>, k: u32) -> Option<T> {
    if has_id(s, k) {
        Some(s[id_index(s, k)].1)
    } else {
        None
    }
}

/// The entries after storing `v` under `k`.
pub open spec fn id_insert_model<T>(s: Seq<(u32, T)>, k: u32, v: T) -> Seq<(u32, T)> {
    if has_id(s, k) {
        s.update(id_index(s, k), (k, v))
    } else {
        s.push((k, v))
    }
}

/// In a table with distinct identifiers, the entry at a position is the
/// one found for its identifier.
pub proof fn lemma_id_index<T>(s: Seq<(u32, T)>, k: u32, i: int)
    requires
        ids_distinct(s),
        0 <= i < s.len(),
        s[i].0 == k,
    ensures
        has_id(s, k),
        id_index(s, k) == i,
        id_lookup(s, k) == Some(s[i].1),
{
    assert(has_id(s, k));
}

/// Storing a value under an identifier keeps the identifiers distinct; the
/// identifier then reads back as that value and every other identifier
/// reads as before.
pub proof fn lemma_id_insert<T>(s: Seq<(u32, T)>, k: u32, v: T)
    requires
        ids_distinct(s),
    ensures
        ids_distinct(id_insert_model(s, k, v)),
        id_lookup(id_insert_model(s, k, v), k) == Some(v),
        forall|k2: u32| k2 != k ==> id_lookup(id_insert_model(s, k, v), k2) == id_lookup(s, k2),
        has_id(s, k) ==> id_insert_model(s, k, v).len() == s.len(),
        !has_id(s, k) ==> id_insert_model(s, k, v).len() == s.len() + 1,
{
    let r = id_insert_model(s, k, v);
    let i = if has_id(s, k) { id_index(s, k) } else { s.len() as int };
    assert(ids_distinct(r));
    lemma_id_index(r, k, i);
    assert forall|k2: u32| k2 != k implies id_lookup(r, k2) == id_lookup(s, k2) by {
        if has_id(s, k2) {
            let j = id_index(s, k2);
            lemma_id_index(r, k2, j);
        } else {
            if has_id(r, k2) {
                let j = choose|j: int| 0 <= j < r.len() && #[trigger] r[j].0 == k2;
                assert(s[j].0 == k2);
            }
        }
    }
}

/// A map from numeric identifiers to values.
#[derive(Debug)]
pub struct IdMap<T> {
    entries: Vec<(u32, T)>,
}

impl<T> View for IdMap<T> {
    type V = Seq<(u32, T)>;

    closed spec fn view(&self) -> Seq<(u32, T)> {
        self.entries@
    }
}

impl<T> IdMap<T> {
    #[verifier::type_invariant]
    closed spec fn ids_are_distinct(&self) -> bool {
        ids_distinct(self@)
    }

    /// An empty map.
    pub fn new() -> (m: Self)
        ensures
            m@ == Seq::<(u32, T)>::empty(),
    {
        IdMap { entries: Vec::new() }
    }

    /// The number of entries.
    pub fn len(&self) -> (n: usize)
        ensures
            n == self@.len(),
    {
        self.entries.len()
    }

    /// The position of the entry for `id`.
    pub fn position(&self, id: u32) -> (r: Option<usize>)
        ensures
            r matches Some(i) ==> i < self@.len() && self@[i as int].0 == id && id_index(self@, id) == i
                && has_id(self@, id),
            r is None ==> !has_id(self@, id),
            ids_distinct(self@),
    {
        proof {
            use_type_invariant(self);
        }
        let mut i: usize = 0;
        while i < self.entries.len()
            invariant
                i <= self@.len(),
                ids_distinct(self@),
                forall|j: int| 0 <= j < i ==> #[trigger] self@[j].0 != id,
            decreases self@.len() - i,
        {
            if self.entries[i].0 == id {
                proof {
                    lemma_id_index(self@, id, i as int);
                }
                return Some(i);
            }
            i = i + 1;
        }
        proof {
            if has_id(self@, id) {
                let j = choose|j: int| 0 <= j < self@.len() && #[trigger] self@[j].0 == id;
                assert(self@[j].0 != id);
            }
        }
        None
    }

    /// The value stored under `id`.
    pub fn get(&self, id: u32) -> (r: Option<&T>)
        ensures
            match r {
                Some(v) => id_lookup(self@, id) == Some(*v),
                None => id_lookup(self@, id) is None,
            },
            ids_distinct(self@),
    {
        match self.position(id) {
            Some(i) => Some(&self.entries[i].1),
            None => None,
        }
    }

    /// Stores `value` under `id`.
    pub fn insert(&mut self, id: u32, value: T)
        ensures
            final(self)@ == id_insert_model(old(self)@, id, value),
    {
        proof {
            use_type_invariant(&*self);
            lemma_id_insert(self@, id, value);
        }
        let mut entries: Vec<(u32, T)> = Vec::new();
        std::mem::swap(&mut entries, &mut self.entries);
        let ghost before = entries@;
        let m = IdMap { entries };
        let pos = m.position(id);
        let mut entries = m.entries;
        match pos {
            Some(i) => {
                entries.remove(i);
                entries.insert(i, (id, value));
                assert(entries@ =~= before.update(i as int, (id, value)));
            },
            None => {
                entries.push((id, value));
            },
        }
        self.entries = entries;
    }

    /// Removes every entry.
    pub fn clear(&mut self)
        ensures
            final(self)@ == Seq::<(u32, T)>::empty(),
    {
        self.entries = Vec::new();
    }
}

} // verus!
