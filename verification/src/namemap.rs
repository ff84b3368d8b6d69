//! An insertion-ordered map from names to values, with distinct names.
//!
//! The library keys its tables by name; this map keeps each name once and
//! remembers the order in which names were first inserted.
use vstd::prelude::*;
use crate::text::{copy_text, text_eq};

verus! {

/// No name occurs twice.
pub open spec fn keys_distinct<T>(s: Seq<(Seq<char>, T)>) -> bool {
    forall|i: int, j: int|
        0 <= i < s.len() && 0 <= j < s.len() && i != j ==> #[trigger] s[i].0 != #[trigger] s[j].0
}

/// Whether some entry has the given name.
pub open spec fn has_key<T>(s: Seq<(Seq<char>, T)>, k: Seq<char>) -> bool {
    exists|i: int| 0 <= i < s.len() && #[trigger] s[i].0 == k
}

/// The position of the entry with the given name, or -1.
pub open spec fn key_index<T>(s: Seq<(Seq<char>, T)>, k: Seq<char>) -> int {
    if has_key(s, k) {
        choose|i: int| 0 <= i < s.len() && #[trigger] s[i].0 == k
    } else {
        -1
    }
}

/// The value stored under a name.
pub open spec fn lookup<T>(s: Seq<(Seq<char>, T)>, k: Seq<char>) -> Option<T> {
    if has_key(s, k) {
        Some(s[key_index(s, k)].1)
    } else {
        None
    }
}

/// The entries after storing `v` under `k`: an existing entry is replaced in
/// place, a new name is appended.
pub open spec fn insert_model<T>(s: Seq<(Seq<char>, T)>, k: Seq<char>, v: T) -> Seq<(Seq<char>, T)> {
    if has_key(s, k) {
        s.update(key_index(s, k), (k, v))
    } else {
        s.push((k, v))
    }
}

/// The entries after removing the name `k`; the others keep their order.
pub open spec fn remove_model<T>(s: Seq<(Seq<char>, T)>, k: Seq<char>) -> Seq<(Seq<char>, T)> {
    if has_key(s, k) {
        s.remove(key_index(s, k))
    } else {
        s
    }
}

/// The entries after inserting every pair of `pairs` in order.
pub open spec fn insert_all_model<T>(s: Seq<(Seq<char>, T)>, pairs: Seq<(Seq<char>, T)>) -> Seq<(Seq<char>, T)>
    decreases pairs.len(),
{
    if pairs.len() == 0 {
        s
    } else {
        insert_model(insert_all_model(s, pairs.drop_last()), pairs.last().0, pairs.last().1)
    }
}

/// The names of the entries, in order.
pub open spec fn key_seq<T>(s: Seq<(Seq<char>, T)>) -> Seq<Seq<char>> {
    s.map_values(|e: (Seq<char>, T)| e.0)
}

/// With distinct names, the entry at a position is the one found for its
/// name.
pub proof fn lemma_key_index<T>(s: Seq<(Seq<char>, T)>, k: Seq<char>, i: int)
    requires
        keys_distinct(s),
        0 <= i < s.len(),
        s[i].0 == k,
    ensures
        has_key(s, k),
        key_index(s, k) == i,
        lookup(s, k) == Some(s[i].1),
{
    assert(has_key(s, k));
}

/// Storing a value under a name keeps the names distinct; the name then
/// reads back as that value, every other name reads as before, and the
/// map grows by one entry exactly when the name is new.
pub proof fn lemma_insert_keeps_distinct<T>(s: Seq<(Seq<char>, T)>, k: Seq<char>, v: T)
    requires
        keys_distinct(s),
    ensures
        keys_distinct(insert_model(s, k, v)),
        lookup(insert_model(s, k, v), k) == Some(v),
        forall|k2: Seq<char>| k2 != k ==> lookup(insert_model(s, k, v), k2) == lookup(s, k2),
        has_key(s, k) ==> insert_model(s, k, v).len() == s.len(),
        !has_key(s, k) ==> insert_model(s, k, v).len() == s.len() + 1,
{
    let r = insert_model(s, k, v);
    if has_key(s, k) {
        let i = key_index(s, k);
        assert(keys_distinct(r));
        lemma_key_index(r, k, i);
        assert forall|k2: Seq<char>| k2 != k implies lookup(r, k2) == lookup(s, k2) by {
            if has_key(s, k2) {
                let j = key_index(s, k2);
                lemma_key_index(r, k2, j);
            } else {
                if has_key(r, k2) {
                    let j = choose|j: int| 0 <= j < r.len() && #[trigger] r[j].0 == k2;
                    assert(s[j].0 == k2);
                }
            }
        }
    } else {
        assert(keys_distinct(r));
        lemma_key_index(r, k, s.len() as int);
        assert forall|k2: Seq<char>| k2 != k implies lookup(r, k2) == lookup(s, k2) by {
            if has_key(s, k2) {
                let j = key_index(s, k2);
                lemma_key_index(r, k2, j);
            } else {
                if has_key(r, k2) {
                    let j = choose|j: int| 0 <= j < r.len() && #[trigger] r[j].0 == k2;
                    assert(s[j].0 == k2);
                }
            }
        }
    }
}

/// Removing a name keeps the names distinct; the name then reads as
/// absent, every other name reads as before, and the map shrinks by one
/// entry when the name was there.
pub proof fn lemma_remove_keeps_distinct<T>(s: Seq<(Seq<char>, T)>, k: Seq<char>)
    requires
        keys_distinct(s),
    ensures
        keys_distinct(remove_model(s, k)),
        !has_key(remove_model(s, k), k),
        forall|k2: Seq<char>| k2 != k ==> lookup(remove_model(s, k), k2) == lookup(s, k2),
        has_key(s, k) ==> remove_model(s, k).len() == s.len() - 1,
{
    let r = remove_model(s, k);
    if has_key(s, k) {
        let i = key_index(s, k);
        assert forall|a: int, b: int| 0 <= a < r.len() && 0 <= b < r.len() && a != b implies #[trigger] r[a].0 != #[trigger] r[b].0 by {
            let a2 = if a < i { a } else { a + 1 };
            let b2 = if b < i { b } else { b + 1 };
            assert(r[a] == s[a2]);
            assert(r[b] == s[b2]);
        }
        if has_key(r, k) {
            let j = choose|j: int| 0 <= j < r.len() && #[trigger] r[j].0 == k;
            let j2 = if j < i { j } else { j + 1 };
            assert(r[j] == s[j2]);
        }
        assert forall|k2: Seq<char>| k2 != k implies lookup(r, k2) == lookup(s, k2) by {
            if has_key(s, k2) {
                let j = key_index(s, k2);
                let j2 = if j < i { j } else { j - 1 };
                assert(r[j2] == s[j]);
                lemma_key_index(r, k2, j2);
            } else {
                if has_key(r, k2) {
                    let j = choose|j: int| 0 <= j < r.len() && #[trigger] r[j].0 == k2;
                    let j2 = if j < i { j } else { j + 1 };
                    assert(r[j] == s[j2]);
                }
            }
        }
    }
}

/// Storing many entries keeps the names distinct.
pub proof fn lemma_insert_all_distinct<T>(s: Seq<(Seq<char>, T)>, pairs: Seq<(Seq<char>, T)>)
    requires
        keys_distinct(s),
    ensures
        keys_distinct(insert_all_model(s, pairs)),
    decreases pairs.len(),
{
    if pairs.len() > 0 {
        lemma_insert_all_distinct(s, pairs.drop_last());
        lemma_insert_keeps_distinct(insert_all_model(s, pairs.drop_last()), pairs.last().0, pairs.last().1);
    }
}

/// Inserting, in order, entries whose names are all different gives back
/// those entries.
pub proof fn lemma_insert_all_of_distinct<T>(s: Seq<(Seq<char>, T)>)
    requires
        keys_distinct(s),
    ensures
        insert_all_model(Seq::<(Seq<char>, T)>::empty(), s) == s,
    decreases s.len(),
{
    if s.len() > 0 {
        let init = s.drop_last();
        assert(keys_distinct(init));
        lemma_insert_all_of_distinct(init);
        if has_key(init, s.last().0) {
            let i = choose|i: int| 0 <= i < init.len() && #[trigger] init[i].0 == s.last().0;
            assert(s[i].0 == s[s.len() - 1].0);
        }
        assert(init.push(s.last()) =~= s);
    }
}

/// A map from names to values that keeps each name once, in the order of
/// first insertion.
#[derive(Debug)]
pub struct NameMap<T> {
    entries: Vec<(String, T)>,
}

impl<T> View for NameMap<T> {
    type V = Seq<(Seq<char>, T)>;

    closed spec fn view(&self) -> Seq<(Seq<char>, T)> {
        self.entries@.map_values(|e: (String, T)| (e.0@, e.1))
    }
}

impl<T> NameMap<T> {
    /// No name occurs twice in a map.
    #[verifier::type_invariant]
    pub open spec fn names_distinct(&self) -> bool {
        keys_distinct(self@)
    }

    /// An empty map.
    pub fn new() -> (m: Self)
        ensures
            m@ == Seq::<(Seq<char>, T)>::empty(),
    {
        let m = NameMap { entries: Vec::new() };
        assert(m@ =~= Seq::<(Seq<char>, T)>::empty());
        m
    }

    /// The number of entries.
    pub fn len(&self) -> (n: usize)
        ensures
            n == self@.len(),
            keys_distinct(self@),
    {
        proof {
            use_type_invariant(self);
        }
        self.entries.len()
    }

    /// Whether the map has no entry.
    pub fn is_empty(&self) -> (b: bool)
        ensures
            b == (self@.len() == 0),
    {
        self.entries.len() == 0
    }

    /// The position of the entry named `name`, if there is one.
    pub fn position(&self, name: &str) -> (r: Option<usize>)
        ensures
            r matches Some(i) ==> i < self@.len() && self@[i as int].0 == name@
                && key_index(self@, name@) == i && has_key(self@, name@),
            r is None ==> !has_key(self@, name@),
            r is None == lookup(self@, name@) is None,
            keys_distinct(self@),
    {
        proof {
            use_type_invariant(self);
        }
        let mut i: usize = 0;
        while i < self.entries.len()
            invariant
                i <= self.entries@.len(),
                self@.len() == self.entries@.len(),
                keys_distinct(self@),
                forall|j: int| 0 <= j < i ==> #[trigger] self@[j].0 != name@,
            decreases self.entries@.len() - i,
        {
            if text_eq(self.entries[i].0.as_str(), name) {
                proof {
                    lemma_key_index(self@, name@, i as int);
                }
                return Some(i);
            }
            i = i + 1;
        }
        proof {
            if has_key(self@, name@) {
                let j = choose|j: int| 0 <= j < self@.len() && #[trigger] self@[j].0 == name@;
                assert(self@[j].0 != name@);
            }
        }
        None
    }

    /// The value stored under `name`.
    pub fn get(&self, name: &str) -> (r: Option<&T>)
        ensures
            match r {
                Some(v) => lookup(self@, name@) == Some(*v),
                None => lookup(self@, name@) is None,
            },
    {
        match self.position(name) {
            Some(i) => Some(&self.entries[i].1),
            None => None,
        }
    }

    /// Whether some entry is named `name`.
    pub fn contains_key(&self, name: &str) -> (b: bool)
        ensures
            b == has_key(self@, name@),
            b == lookup(self@, name@) is Some,
            keys_distinct(self@),
    {
        self.position(name).is_some()
    }

    /// Stores `value` under `name`, returning the value it replaces.
    pub fn insert(&mut self, name: String, value: T) -> (old_value: Option<T>)
        ensures
            final(self)@ == insert_model(old(self)@, name@, value),
            old_value == lookup(old(self)@, name@),
            lookup(final(self)@, name@) == Some(value),
            keys_distinct(final(self)@),
            keys_distinct(old(self)@),
    {
        proof {
            use_type_invariant(&*self);
            lemma_insert_keeps_distinct(self@, name@, value);
        }
        match self.position(name.as_str()) {
            Some(i) => {
                let ghost before = self@;
                let mut entries: Vec<(String, T)> = Vec::new();
                std::mem::swap(&mut entries, &mut self.entries);
                let (n, v) = entries.remove(i);
                entries.insert(i, (name, value));
                assert(entries@.map_values(|e: (String, T)| (e.0@, e.1)) =~= before.update(i as int, (name@, value)));
                self.entries = entries;
                Some(v)
            },
            None => {
                let ghost before = self@;
                let mut entries: Vec<(String, T)> = Vec::new();
                std::mem::swap(&mut entries, &mut self.entries);
                entries.push((name, value));
                assert(entries@.map_values(|e: (String, T)| (e.0@, e.1)) =~= before.push((name@, value)));
                self.entries = entries;
                None
            },
        }
    }

    /// Takes out the entry at position `i`.
    pub fn remove_at(&mut self, i: usize) -> (r: (String, T))
        requires
            i < old(self)@.len(),
        ensures
            final(self)@ == old(self)@.remove(i as int),
            r.0@ == old(self)@[i as int].0,
            r.1 == old(self)@[i as int].1,
            keys_distinct(old(self)@),
            keys_distinct(final(self)@),
    {
        proof {
            use_type_invariant(&*self);
        }
        let ghost before = self@;
        let mut entries: Vec<(String, T)> = Vec::new();
        std::mem::swap(&mut entries, &mut self.entries);
        let r = entries.remove(i);
        assert(entries@.map_values(|e: (String, T)| (e.0@, e.1)) =~= before.remove(i as int));
        assert forall|a: int, b: int| 0 <= a < entries@.len() && 0 <= b < entries@.len() && a != b implies
            #[trigger] before.remove(i as int)[a].0 != #[trigger] before.remove(i as int)[b].0 by {
            let aa = if a < i { a } else { a + 1 };
            let bb = if b < i { b } else { b + 1 };
            assert(before.remove(i as int)[a] == before[aa]);
            assert(before.remove(i as int)[b] == before[bb]);
        }
        self.entries = entries;
        r
    }

    /// Puts an entry whose name is not in the map at position `i`.
    pub fn insert_at(&mut self, i: usize, name: String, value: T)
        requires
            i <= old(self)@.len(),
            !has_key(old(self)@, name@),
        ensures
            final(self)@ == old(self)@.insert(i as int, (name@, value)),
    {
        proof {
            use_type_invariant(&*self);
        }
        let ghost before = self@;
        let ghost k = name@;
        let mut entries: Vec<(String, T)> = Vec::new();
        std::mem::swap(&mut entries, &mut self.entries);
        entries.insert(i, (name, value));
        let ghost after = before.insert(i as int, (k, value));
        assert(entries@.map_values(|e: (String, T)| (e.0@, e.1)) =~= after);
        assert forall|a: int, b: int| 0 <= a < after.len() && 0 <= b < after.len() && a != b implies
            #[trigger] after[a].0 != #[trigger] after[b].0 by {
            if a == i {
                if after[b].0 == k {
                    let bb = if b < i { b } else { b - 1 };
                    assert(before[bb].0 == k);
                }
            } else if b == i {
                if after[a].0 == k {
                    let aa = if a < i { a } else { a - 1 };
                    assert(before[aa].0 == k);
                }
            } else {
                let aa = if a < i { a } else { a - 1 };
                let bb = if b < i { b } else { b - 1 };
                assert(after[a] == before[aa]);
                assert(after[b] == before[bb]);
            }
        }
        self.entries = entries;
    }

    /// Removes the entry named `name`, returning its value.
    pub fn remove(&mut self, name: &str) -> (r: Option<T>)
        ensures
            final(self)@ == remove_model(old(self)@, name@),
            r == lookup(old(self)@, name@),
            !has_key(final(self)@, name@),
            keys_distinct(final(self)@),
            keys_distinct(old(self)@),
    {
        proof {
            use_type_invariant(&*self);
            lemma_remove_keeps_distinct(self@, name@);
        }
        match self.position(name) {
            Some(i) => {
                let ghost before = self@;
                let mut entries: Vec<(String, T)> = Vec::new();
                std::mem::swap(&mut entries, &mut self.entries);
                let (n, v) = entries.remove(i);
                assert(entries@.map_values(|e: (String, T)| (e.0@, e.1)) =~= before.remove(i as int));
                self.entries = entries;
                Some(v)
            },
            None => None,
        }
    }

    /// Removes every entry.
    pub fn clear(&mut self)
        ensures
            final(self)@ == Seq::<(Seq<char>, T)>::empty(),
    {
        self.entries = Vec::new();
        assert(self@ =~= Seq::<(Seq<char>, T)>::empty());
    }

    /// The name of the entry at position `i`.
    pub fn key_at(&self, i: usize) -> (k: &String)
        requires
            i < self@.len(),
        ensures
            k@ == self@[i as int].0,
    {
        &self.entries[i].0
    }

    /// The value of the entry at position `i`.
    pub fn value_at(&self, i: usize) -> (v: &T)
        requires
            i < self@.len(),
        ensures
            *v == self@[i as int].1,
    {
        &self.entries[i].1
    }

    /// The names, in order.
    pub fn keys(&self) -> (ks: Vec<String>)
        ensures
            ks@.len() == self@.len(),
            forall|i: int| 0 <= i < ks@.len() ==> #[trigger] ks@[i]@ == self@[i].0,
    {
        let mut ks: Vec<String> = Vec::new();
        let mut i: usize = 0;
        while i < self.entries.len()
            invariant
                i <= self.entries@.len(),
                self@.len() == self.entries@.len(),
                ks@.len() == i,
                forall|j: int| 0 <= j < i ==> #[trigger] ks@[j]@ == self@[j].0,
            decreases self.entries@.len() - i,
        {
            ks.push(copy_text(self.entries[i].0.as_str()));
            i = i + 1;
        }
        ks
    }

    /// The entries, in order, taken out of the map.
    pub fn into_pairs(self) -> (pairs: Vec<(String, T)>)
        ensures
            pairs@.map_values(|e: (String, T)| (e.0@, e.1)) == self@,
            keys_distinct(self@),
    {
        proof {
            use_type_invariant(&self);
        }
        let pairs = self.entries;
        pairs
    }

    /// A map holding `pairs` inserted in order (a later pair replaces the
    /// value of an earlier one with the same name).
    pub fn from_pairs(pairs: Vec<(String, T)>) -> (m: Self)
        ensures
            m@ == insert_all_model(Seq::<(Seq<char>, T)>::empty(), pairs@.map_values(|e: (String, T)| (e.0@, e.1))),
    {
        let ghost pv = pairs@.map_values(|e: (String, T)| (e.0@, e.1));
        let mut m = NameMap::new();
        let mut rest = pairs;
        let ghost total = rest@.len();
        while rest.len() > 0
            invariant
                total == pv.len(),
                rest@.len() <= total,
                forall|j: int| 0 <= j < rest@.len() ==>
                    (#[trigger] rest@[j]).0@ == pv[total - rest@.len() + j].0 && rest@[j].1 == pv[total - rest@.len() + j].1,
                m@ == insert_all_model(Seq::<(Seq<char>, T)>::empty(), pv.subrange(0, total - rest@.len())),
            decreases rest@.len(),
        {
            let ghost k = total - rest@.len();
            let ghost before = rest@;
            let (n, v) = rest.remove(0);
            assert(pv.subrange(0, k + 1).drop_last() =~= pv.subrange(0, k));
            assert forall|j: int| 0 <= j < rest@.len() implies
                (#[trigger] rest@[j]).0@ == pv[total - rest@.len() + j].0 && rest@[j].1 == pv[total - rest@.len() + j].1 by {
                assert(rest@[j] == before[j + 1]);
            }
            m.insert(n, v);
        }
        assert(pv.subrange(0, total as int) =~= pv);
        m
    }
}

impl<T: Clone> Clone for NameMap<T> {
    /// A copy with the same names in the same order; each value is cloned.
    fn clone(&self) -> (r: Self)
        ensures
            r@.len() == self@.len(),
            forall|i: int| 0 <= i < r@.len() ==> (#[trigger] r@[i]).0 == self@[i].0 && cloned::<T>(self@[i].1, r@[i].1),
    {
        proof {
            use_type_invariant(self);
        }
        let mut entries: Vec<(String, T)> = Vec::new();
        let mut i: usize = 0;
        while i < self.entries.len()
            invariant
                i <= self.entries@.len(),
                self@.len() == self.entries@.len(),
                keys_distinct(self@),
                entries@.len() == i,
                forall|j: int| 0 <= j < i ==> (#[trigger] entries@[j]).0@ == self@[j].0 && cloned::<T>(self@[j].1, entries@[j].1),
            decreases self.entries@.len() - i,
        {
            let k = copy_text(self.entries[i].0.as_str());
            let v = self.entries[i].1.clone();
            entries.push((k, v));
            i = i + 1;
        }
        let r = NameMap { entries };
        assert forall|a: int, b: int| 0 <= a < r@.len() && 0 <= b < r@.len() && a != b implies #[trigger] r@[a].0 != #[trigger] r@[b].0 by {
            assert(r@[a].0 == self@[a].0);
            assert(r@[b].0 == self@[b].0);
        }
        r
    }
}

} // verus!
