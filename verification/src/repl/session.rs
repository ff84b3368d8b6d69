//! Shell session state that persists between commands: variables,
//! functions and types defined so far.
use vstd::prelude::*;
use crate::namemap::{NameMap, has_key, insert_model, key_seq, keys_distinct, lookup, remove_model};
use crate::runtime::value::Value;
use crate::text::{concat, concat3, copy_text, decimal, sort_texts, text_eq, texts_sorted, usize_to_text};
use crate::types::{FunctionSignature, Type};
use crate::repl::paths::{home_dir_text, opt_view, path_under, under_home};

verus! {

/// The session file format version this library writes and reads.
pub open spec fn session_version() -> Seq<char> {
    "0.5.0-alpha"@
}

/// The message of the error for a session file of another version.
pub open spec fn version_mismatch_message(found: Seq<char>) -> Seq<char> {
    "Session version mismatch: expected 0.5.0-alpha, found "@ + found
}

/// The summary line for the given counts.
pub open spec fn summary_text(vars: nat, funcs: nat, types: nat) -> Seq<char> {
    "Session: "@ + decimal(vars) + " variables, "@ + decimal(funcs) + " functions, "@ + decimal(types) + " types"@
}

/// The first name that occurs earlier in the list too.
pub open spec fn first_duplicate(names: Seq<Seq<char>>) -> Option<Seq<char>>
    decreases names.len(),
{
    if names.len() == 0 {
        None
    } else {
        match first_duplicate(names.drop_last()) {
            Some(n) => Some(n),
            None => if names.drop_last().contains(names.last()) {
                Some(names.last())
            } else {
                None
            },
        }
    }
}

/// The message of the error for a name defined twice.
pub open spec fn duplicate_message(name: Seq<char>) -> Seq<char> {
    "Duplicate definition: "@ + name
}

/// Checks the version recorded in a session file, if there is one.
pub fn check_session_version(version: Option<&str>) -> (r: Result<(), String>)
    ensures
        match version {
            Some(v) => if v@ == session_version() {
                r is Ok
            } else {
                r matches Err(m) && m@ == version_mismatch_message(v@)
            },
            None => r is Ok,
        },
{
    match version {
        Some(v) => {
            if text_eq(v, "0.5.0-alpha") {
                proof {
                    reveal_strlit("0.5.0-alpha");
                }
                Ok(())
            } else {
                proof {
                    reveal_strlit("0.5.0-alpha");
                    reveal_strlit("Session version mismatch: expected 0.5.0-alpha, found ");
                }
                Err(concat("Session version mismatch: expected 0.5.0-alpha, found ", v))
            }
        },
        None => Ok(()),
    }
}

/// Shell session state that persists between commands
pub struct Session {
    /// Variables defined in the session
    variables: NameMap<Value>,
    /// Function definitions
    functions: NameMap<FunctionSignature>,
    /// Type definitions
    types: NameMap<Type>,
    /// Session file path for persistence
    session_file: Option<String>,
}

impl Session {
    /// The variables, in definition order.
    pub closed spec fn vars(&self) -> Seq<(Seq<char>, Value)> {
        self.variables@
    }

    /// The functions, in definition order.
    pub closed spec fn funcs(&self) -> Seq<(Seq<char>, FunctionSignature)> {
        self.functions@
    }

    /// The types, in definition order.
    pub closed spec fn type_defs(&self) -> Seq<(Seq<char>, Type)> {
        self.types@
    }

    /// The path the session is saved to, if any.
    pub closed spec fn file(&self) -> Option<Seq<char>> {
        match self.session_file {
            Some(p) => Some(p@),
            None => None,
        }
    }

    /// All defined names: variables, then functions, then types.
    pub open spec fn all_names(&self) -> Seq<Seq<char>> {
        key_seq(self.vars()) + key_seq(self.funcs()) + key_seq(self.type_defs())
    }

    /// Create a new, empty session saved to `.script_session` under the
    /// home directory, if there is one
    pub fn new() -> (s: Self)
        ensures
            s.vars() == Seq::<(Seq<char>, Value)>::empty(),
            s.funcs() == Seq::<(Seq<char>, FunctionSignature)>::empty(),
            s.type_defs() == Seq::<(Seq<char>, Type)>::empty(),
            exists|home: Option<Seq<char>>| s.file() == #[trigger] under_home(home, ".script_session"@),
    {
        let home = home_dir_text();
        let s = Session::with_home(home);
        proof {
            let h = opt_view(home);
            assert(s.file() == under_home(h, ".script_session"@));
        }
        s
    }

    /// A new, empty session saved to `.script_session` under the home
    /// directory `home`, if there is one
    pub fn with_home(home: Option<String>) -> (s: Self)
        ensures
            s.vars() == Seq::<(Seq<char>, Value)>::empty(),
            s.funcs() == Seq::<(Seq<char>, FunctionSignature)>::empty(),
            s.type_defs() == Seq::<(Seq<char>, Type)>::empty(),
            s.file() == under_home(opt_view(home), ".script_session"@),
    {
        proof {
            reveal_strlit(".script_session");
        }
        let session_file = path_under(&home, ".script_session");
        Session { variables: NameMap::new(), functions: NameMap::new(), types: NameMap::new(), session_file }
    }

    /// Set the path the session is saved to
    pub fn set_session_file(&mut self, path: Option<String>)
        ensures
            final(self).file() == (match path {
                Some(p) => Some(p@),
                None => None::<Seq<char>>,
            }),
            final(self).vars() == old(self).vars(),
            final(self).funcs() == old(self).funcs(),
            final(self).type_defs() == old(self).type_defs(),
    {
        self.session_file = path;
    }

    /// The path the session is saved to
    pub fn session_file(&self) -> (r: Option<&String>)
        ensures
            match r {
                Some(p) => self.file() == Some(p@),
                None => self.file() is None,
            },
    {
        match &self.session_file {
            Some(p) => Some(p),
            None => None,
        }
    }

    /// Define a variable in the session (its type is not recorded)
    pub fn define_variable(&mut self, name: String, value: Value, _var_type: Type)
        ensures
            final(self).vars() == insert_model(old(self).vars(), name@, value),
            final(self).funcs() == old(self).funcs(),
            final(self).type_defs() == old(self).type_defs(),
            final(self).file() == old(self).file(),
    {
        self.variables.insert(name, value);
    }

    /// Get a variable from the session
    pub fn get_variable(&self, name: &str) -> (r: Option<&Value>)
        ensures
            match r {
                Some(v) => lookup(self.vars(), name@) == Some(*v),
                None => lookup(self.vars(), name@) is None,
            },
    {
        self.variables.get(name)
    }

    /// Define a function in the session
    pub fn define_function(&mut self, name: String, signature: FunctionSignature)
        ensures
            final(self).funcs() == insert_model(old(self).funcs(), name@, signature),
            final(self).vars() == old(self).vars(),
            final(self).type_defs() == old(self).type_defs(),
            final(self).file() == old(self).file(),
    {
        self.functions.insert(name, signature);
    }

    /// Get a function from the session
    pub fn get_function(&self, name: &str) -> (r: Option<&FunctionSignature>)
        ensures
            match r {
                Some(f) => lookup(self.funcs(), name@) == Some(*f),
                None => lookup(self.funcs(), name@) is None,
            },
    {
        self.functions.get(name)
    }

    /// Define a type in the session
    pub fn define_type(&mut self, name: String, type_def: Type)
        ensures
            final(self).type_defs() == insert_model(old(self).type_defs(), name@, type_def),
            final(self).vars() == old(self).vars(),
            final(self).funcs() == old(self).funcs(),
            final(self).file() == old(self).file(),
    {
        self.types.insert(name, type_def);
    }

    /// Get a type from the session
    pub fn get_type(&self, name: &str) -> (r: Option<&Type>)
        ensures
            match r {
                Some(t) => lookup(self.type_defs(), name@) == Some(*t),
                None => lookup(self.type_defs(), name@) is None,
            },
    {
        self.types.get(name)
    }

    /// Get all variables (for display)
    pub fn variables(&self) -> (r: &NameMap<Value>)
        ensures
            r@ == self.vars(),
            keys_distinct(self.vars()),
    {
        proof {
            use_type_invariant(&self.variables);
        }
        &self.variables
    }

    /// Get all functions (for display)
    pub fn functions(&self) -> (r: &NameMap<FunctionSignature>)
        ensures
            r@ == self.funcs(),
            keys_distinct(self.funcs()),
    {
        proof {
            use_type_invariant(&self.functions);
        }
        &self.functions
    }

    /// Get all types (for display)
    pub fn types(&self) -> (r: &NameMap<Type>)
        ensures
            r@ == self.type_defs(),
            keys_distinct(self.type_defs()),
    {
        proof {
            use_type_invariant(&self.types);
        }
        &self.types
    }

    /// Clear all session state
    pub fn clear(&mut self)
        ensures
            final(self).vars() == Seq::<(Seq<char>, Value)>::empty(),
            final(self).funcs() == Seq::<(Seq<char>, FunctionSignature)>::empty(),
            final(self).type_defs() == Seq::<(Seq<char>, Type)>::empty(),
            final(self).file() == old(self).file(),
    {
        self.variables.clear();
        self.functions.clear();
        self.types.clear();
    }

    /// Check if a name is already defined
    pub fn is_defined(&self, name: &str) -> (b: bool)
        ensures
            b == (has_key(self.vars(), name@) || has_key(self.funcs(), name@) || has_key(self.type_defs(), name@)),
    {
        self.variables.contains_key(name) || self.functions.contains_key(name) || self.types.contains_key(name)
    }

    /// Get count of defined items
    pub fn item_count(&self) -> (n: usize)
        requires
            self.vars().len() + self.funcs().len() + self.type_defs().len() <= usize::MAX,
        ensures
            n == self.vars().len() + self.funcs().len() + self.type_defs().len(),
    {
        self.variables.len() + self.functions.len() + self.types.len()
    }

    /// Import definitions from another session; imported names replace
    /// those defined here
    pub fn import_from(&mut self, other: &Session)
        ensures
            key_seq(final(self).vars()) == key_seq(imported(old(self).vars(), other.vars())),
            key_seq(final(self).funcs()) == key_seq(imported(old(self).funcs(), other.funcs())),
            key_seq(final(self).type_defs()) == key_seq(imported(old(self).type_defs(), other.type_defs())),
            forall|k: Seq<char>| #[trigger] has_key(other.vars(), k) ==> holds_copy(final(self).vars(), other.vars(), k),
            forall|k: Seq<char>| !has_key(other.vars(), k) ==> #[trigger] lookup(final(self).vars(), k) == lookup(
                old(self).vars(),
                k,
            ),
            forall|k: Seq<char>| #[trigger] has_key(other.funcs(), k) ==> holds_copy(final(self).funcs(), other.funcs(), k),
            forall|k: Seq<char>| !has_key(other.funcs(), k) ==> #[trigger] lookup(final(self).funcs(), k) == lookup(
                old(self).funcs(),
                k,
            ),
            forall|k: Seq<char>| #[trigger] has_key(other.type_defs(), k) ==> holds_copy(final(self).type_defs(), other.type_defs(), k),
            forall|k: Seq<char>| !has_key(other.type_defs(), k) ==> #[trigger] lookup(final(self).type_defs(), k)
                == lookup(old(self).type_defs(), k),
            final(self).file() == old(self).file(),
    {
        import_entries(&mut self.variables, &other.variables);
        import_entries(&mut self.functions, &other.functions);
        import_entries(&mut self.types, &other.types);
    }

    /// Export session state as a summary string
    pub fn summary(&self) -> (s: String)
        ensures
            s@ == summary_text(self.vars().len(), self.funcs().len(), self.type_defs().len()),
    {
        let a = usize_to_text(self.variables.len());
        let b = usize_to_text(self.functions.len());
        let c = usize_to_text(self.types.len());
        let s = concat3("Session: ", a.as_str(), " variables, ");
        let s = concat3(s.as_str(), b.as_str(), " functions, ");
        let s = concat3(s.as_str(), c.as_str(), " types");
        proof {
            reveal_strlit("Session: ");
            reveal_strlit(" variables, ");
            reveal_strlit(" functions, ");
            reveal_strlit(" types");
        }
        s
    }

    /// Remove a definition by name from every kind; whether any was removed
    pub fn remove(&mut self, name: &str) -> (b: bool)
        ensures
            b == (has_key(old(self).vars(), name@) || has_key(old(self).funcs(), name@) || has_key(
                old(self).type_defs(),
                name@,
            )),
            final(self).vars() == remove_model(old(self).vars(), name@),
            final(self).funcs() == remove_model(old(self).funcs(), name@),
            final(self).type_defs() == remove_model(old(self).type_defs(), name@),
            final(self).file() == old(self).file(),
    {
        let removed_var = self.variables.remove(name).is_some();
        let removed_func = self.functions.remove(name).is_some();
        let removed_type = self.types.remove(name).is_some();
        removed_var || removed_func || removed_type
    }

    /// Every defined name: variables, then functions, then types.
    fn name_list(&self) -> (names: Vec<String>)
        ensures
            crate::text::strings_view(names@) == self.all_names(),
    {
        let mut names: Vec<String> = self.variables.keys();
        let fs = self.functions.keys();
        let ts = self.types.keys();
        assert(crate::text::strings_view(names@) =~= key_seq(self.vars()) + key_seq(self.funcs()).subrange(0, 0));
        let mut i: usize = 0;
        while i < fs.len()
            invariant
                i <= fs@.len(),
                fs@.len() == self.funcs().len(),
                forall|j: int| 0 <= j < fs@.len() ==> #[trigger] fs@[j]@ == self.funcs()[j].0,
                crate::text::strings_view(names@) == key_seq(self.vars()) + key_seq(self.funcs()).subrange(0, i as int),
            decreases fs@.len() - i,
        {
            let ghost before = crate::text::strings_view(names@);
            names.push(copy_text(fs[i].as_str()));
            assert(crate::text::strings_view(names@) =~= before.push(fs@[i as int]@));
            assert(key_seq(self.funcs())[i as int] == fs@[i as int]@);
            assert(crate::text::strings_view(names@) =~= key_seq(self.vars()) + key_seq(self.funcs()).subrange(0, i + 1));
            i = i + 1;
        }
        assert(key_seq(self.funcs()).subrange(0, fs@.len() as int) =~= key_seq(self.funcs()));
        assert(crate::text::strings_view(names@) =~= key_seq(self.vars()) + key_seq(self.funcs()) + key_seq(
            self.type_defs(),
        ).subrange(0, 0));
        let mut k: usize = 0;
        while k < ts.len()
            invariant
                k <= ts@.len(),
                ts@.len() == self.type_defs().len(),
                forall|j: int| 0 <= j < ts@.len() ==> #[trigger] ts@[j]@ == self.type_defs()[j].0,
                crate::text::strings_view(names@) == key_seq(self.vars()) + key_seq(self.funcs()) + key_seq(
                    self.type_defs(),
                ).subrange(0, k as int),
            decreases ts@.len() - k,
        {
            let ghost before = crate::text::strings_view(names@);
            names.push(copy_text(ts[k].as_str()));
            assert(crate::text::strings_view(names@) =~= before.push(ts@[k as int]@));
            assert(key_seq(self.type_defs())[k as int] == ts@[k as int]@);
            assert(crate::text::strings_view(names@) =~= key_seq(self.vars()) + key_seq(self.funcs()) + key_seq(
                self.type_defs(),
            ).subrange(0, k + 1));
            k = k + 1;
        }
        assert(key_seq(self.type_defs()).subrange(0, ts@.len() as int) =~= key_seq(self.type_defs()));
        assert(crate::text::strings_view(names@) =~= self.all_names());
        names
    }

    /// List all defined names, sorted
    pub fn list_names(&self) -> (r: Vec<String>)
        ensures
            texts_sorted(crate::text::strings_view(r@)),
            crate::text::strings_view(r@).to_multiset() == self.all_names().to_multiset(),
    {
        sort_texts(self.name_list())
    }

    /// Validate session consistency: no name is defined as two kinds of item
    pub fn validate(&self) -> (r: Result<(), String>)
        ensures
            match first_duplicate(self.all_names()) {
                Some(n) => r matches Err(m) && m@ == duplicate_message(n),
                None => r is Ok,
            },
    {
        let names = self.name_list();
        match find_first_duplicate(&names) {
            Some(n) => {
                proof {
                    reveal_strlit("Duplicate definition: ");
                }
                Err(concat("Duplicate definition: ", n.as_str()))
            },
            None => Ok(()),
        }
    }
}

impl Default for Session {
    fn default() -> (s: Self)
        ensures
            s.vars() == Seq::<(Seq<char>, Value)>::empty(),
            s.funcs() == Seq::<(Seq<char>, FunctionSignature)>::empty(),
            s.type_defs() == Seq::<(Seq<char>, Type)>::empty(),
            exists|home: Option<Seq<char>>| s.file() == #[trigger] under_home(home, ".script_session"@),
    {
        Session::new()
    }
}

/// `target` holds under `k` a copy of what `other` holds under it.
pub open spec fn holds_copy<T: Clone>(target: Seq<(Seq<char>, T)>, other: Seq<(Seq<char>, T)>, k: Seq<char>) -> bool {
    match (lookup(target, k), lookup(other, k)) {
        (Some(v), Some(o)) => cloned::<T>(o, v),
        _ => false,
    }
}

/// The names of `base` with the names of `other` that it lacks appended, in
/// order, and the values of `other` in place.
pub open spec fn imported<T>(base: Seq<(Seq<char>, T)>, other: Seq<(Seq<char>, T)>) -> Seq<(Seq<char>, T)>
    decreases other.len(),
{
    if other.len() == 0 {
        base
    } else {
        insert_model(imported(base, other.drop_last()), other.last().0, other.last().1)
    }
}

proof fn lemma_key_seq_insert<T>(s1: Seq<(Seq<char>, T)>, s2: Seq<(Seq<char>, T)>, k: Seq<char>, v1: T, v2: T)
    requires
        keys_distinct(s1),
        key_seq(s1) == key_seq(s2),
    ensures
        key_seq(insert_model(s1, k, v1)) == key_seq(insert_model(s2, k, v2)),
{
    assert(s1.len() == key_seq(s1).len());
    assert(s2.len() == key_seq(s2).len());
    assert forall|i: int| 0 <= i < s1.len() implies #[trigger] s1[i].0 == s2[i].0 by {
        assert(key_seq(s1)[i] == key_seq(s2)[i]);
    }
    assert(keys_distinct(s2)) by {
        assert forall|i: int, j: int| 0 <= i < s2.len() && 0 <= j < s2.len() && i != j implies #[trigger] s2[i].0
            != #[trigger] s2[j].0 by {
            assert(s1[i].0 != s1[j].0);
        }
    }
    if has_key(s1, k) {
        let i1 = crate::namemap::key_index(s1, k);
        crate::namemap::lemma_key_index(s1, k, i1);
        assert(s2[i1].0 == k);
        crate::namemap::lemma_key_index(s2, k, i1);
        assert(key_seq(insert_model(s1, k, v1)) =~= key_seq(insert_model(s2, k, v2)));
    } else {
        if has_key(s2, k) {
            let j = choose|j: int| 0 <= j < s2.len() && #[trigger] s2[j].0 == k;
            assert(s1[j].0 == k);
        }
        assert(key_seq(insert_model(s1, k, v1)) =~= key_seq(insert_model(s2, k, v2)));
    }
}

proof fn lemma_imported_distinct<T>(base: Seq<(Seq<char>, T)>, other: Seq<(Seq<char>, T)>)
    requires
        keys_distinct(base),
    ensures
        keys_distinct(imported(base, other)),
    decreases other.len(),
{
    if other.len() > 0 {
        lemma_imported_distinct(base, other.drop_last());
        crate::namemap::lemma_insert_keeps_distinct(imported(base, other.drop_last()), other.last().0, other.last().1);
    }
}

/// Inserts a copy of every entry of `other` into `target`.
fn import_entries<T: Clone>(target: &mut NameMap<T>, other: &NameMap<T>)
    ensures
        key_seq(final(target)@) == key_seq(imported(old(target)@, other@)),
        forall|k: Seq<char>| #[trigger] has_key(other@, k) ==> holds_copy(final(target)@, other@, k),
        forall|k: Seq<char>| !has_key(other@, k) ==> #[trigger] lookup(final(target)@, k) == lookup(old(target)@, k),
{
    let n = other.len();
    let ghost start = target@;
    let mut i: usize = 0;
    let _ = target.len();
    proof {
        assert(other@.subrange(0, 0) =~= Seq::<(Seq<char>, T)>::empty());
    }
    while i < n
        invariant
            i <= n,
            n == other@.len(),
            start == old(target)@,
            keys_distinct(other@),
            keys_distinct(start),
            keys_distinct(target@),
            key_seq(target@) == key_seq(imported(start, other@.subrange(0, i as int))),
            forall|k: Seq<char>| #[trigger] has_key(other@.subrange(0, i as int), k) ==> holds_copy(target@, other@, k),
            forall|k: Seq<char>| !has_key(other@.subrange(0, i as int), k) ==> #[trigger] lookup(target@, k)
                == lookup(start, k),
        decreases n - i,
    {
        let name = copy_text(other.key_at(i).as_str());
        let value = other.value_at(i).clone();
        let ghost before = target@;
        let ghost k = other@[i as int].0;
        let ghost prev = other@.subrange(0, i as int);
        let ghost next = other@.subrange(0, i + 1);
        assert(name@ == k);
        assert(cloned::<T>(other@[i as int].1, value));
        target.insert(name, value);
        proof {
            assert(target@ == insert_model(before, k, value));
            assert(next.drop_last() =~= prev);
            assert(next.last() == other@[i as int]);
            lemma_imported_distinct(start, prev);
            lemma_key_seq_insert(imported(start, prev), before, k, other@[i as int].1, value);
            crate::namemap::lemma_insert_keeps_distinct(before, k, value);
            crate::namemap::lemma_key_index(other@, k, i as int);
            assert(lookup(target@, k) == Some(value));
            assert(lookup(other@, k) == Some(other@[i as int].1));
            assert(holds_copy(target@, other@, k));
            assert(next[i as int].0 == k);
            assert forall|k2: Seq<char>| #[trigger] has_key(next, k2) implies holds_copy(target@, other@, k2) by {
                if k2 != k {
                    let j = choose|j: int| 0 <= j < next.len() && #[trigger] next[j].0 == k2;
                    assert(prev[j].0 == k2);
                    assert(has_key(prev, k2));
                    assert(holds_copy(before, other@, k2));
                    assert(lookup(target@, k2) == lookup(before, k2));
                }
            }
            assert forall|k2: Seq<char>| !has_key(next, k2) implies #[trigger] lookup(target@, k2) == lookup(start, k2) by {
                if k2 == k {
                    assert(has_key(next, k2));
                }
                if has_key(prev, k2) {
                    let j = choose|j: int| 0 <= j < prev.len() && #[trigger] prev[j].0 == k2;
                    assert(next[j].0 == k2);
                }
                assert(lookup(target@, k2) == lookup(before, k2));
            }
        }
        i = i + 1;
    }
    assert(other@.subrange(0, n as int) =~= other@);
}

proof fn lemma_first_duplicate_prefix(s: Seq<Seq<char>>, m: int)
    requires
        0 <= m <= s.len(),
        first_duplicate(s.subrange(0, m)) is Some,
    ensures
        first_duplicate(s) == first_duplicate(s.subrange(0, m)),
    decreases s.len() - m,
{
    if m < s.len() {
        let p = s.subrange(0, m + 1);
        assert(p.drop_last() =~= s.subrange(0, m));
        assert(s.subrange(0, m + 1).subrange(0, m) =~= s.subrange(0, m));
        lemma_first_duplicate_prefix(s, m + 1);
    } else {
        assert(s.subrange(0, m) =~= s);
    }
}

/// The first name that occurs earlier in the list too.
fn find_first_duplicate(names: &Vec<String>) -> (r: Option<String>)
    ensures
        match first_duplicate(crate::text::strings_view(names@)) {
            Some(n) => r matches Some(s) && s@ == n,
            None => r is None,
        },
{
    let ghost all = crate::text::strings_view(names@);
    let mut i: usize = 0;
    while i < names.len()
        invariant
            i <= names@.len(),
            all == crate::text::strings_view(names@),
            first_duplicate(all.subrange(0, i as int)) is None,
        decreases names@.len() - i,
    {
        assert(all.subrange(0, i + 1).drop_last() =~= all.subrange(0, i as int));
        let mut j: usize = 0;
        while j < i
            invariant
                j <= i < names@.len(),
                all == crate::text::strings_view(names@),
                first_duplicate(all.subrange(0, i as int)) is None,
                forall|t: int| 0 <= t < j ==> all[t] != all[i as int],
            decreases i - j,
        {
            if text_eq(names[j].as_str(), names[i].as_str()) {
                proof {
                    assert(all.subrange(0, i as int)[j as int] == all[i as int]);
                    assert(all.subrange(0, i + 1).last() == all[i as int]);
                    assert(all.subrange(0, i as int).contains(all[i as int]));
                    assert(all.subrange(0, i + 1).drop_last() =~= all.subrange(0, i as int));
                    assert(first_duplicate(all.subrange(0, i + 1)) == Some(all[i as int]));
                    lemma_first_duplicate_prefix(all, i + 1);
                }
                return Some(copy_text(names[i].as_str()));
            }
            j = j + 1;
        }
        proof {
            if all.subrange(0, i as int).contains(all[i as int]) {
                let t = choose|t: int| 0 <= t < i && all.subrange(0, i as int)[t] == all[i as int];
                assert(all[t] == all[i as int]);
            }
        }
        i = i + 1;
    }
    assert(all.subrange(0, names@.len() as int) =~= all);
    None
}

/// No name occurs twice in a list.
pub open spec fn names_distinct(names: Seq<Seq<char>>) -> bool {
    forall|i: int, j: int| 0 <= i < j < names.len() ==> names[i] != names[j]
}

/// A list has no first repeated name exactly when no name occurs twice.
pub proof fn lemma_no_first_duplicate(names: Seq<Seq<char>>)
    ensures
        first_duplicate(names) is None <==> names_distinct(names),
    decreases names.len(),
{
    if names.len() > 0 {
        let init = names.drop_last();
        lemma_no_first_duplicate(init);
        if names_distinct(names) {
            assert(names_distinct(init)) by {
                assert forall|i: int, j: int| 0 <= i < j < init.len() implies init[i] != init[j] by {
                    assert(init[i] == names[i] && init[j] == names[j]);
                }
            }
            assert(!init.contains(names.last())) by {
                if init.contains(names.last()) {
                    let i = choose|i: int| 0 <= i < init.len() && init[i] == names.last();
                    assert(names[i] == names[names.len() - 1]);
                }
            }
        } else {
            let (i, j) = choose|i: int, j: int| 0 <= i < j < names.len() && names[i] == names[j];
            if j < names.len() - 1 {
                assert(init[i] == names[i] && init[j] == names[j]);
            } else {
                assert(init[i] == names.last());
            }
        }
    }
}

/// Whether a name is defined as two kinds of item.
pub open spec fn defined_twice(s: Session, k: Seq<char>) -> bool {
    ||| has_key(s.vars(), k) && has_key(s.funcs(), k)
    ||| has_key(s.vars(), k) && has_key(s.type_defs(), k)
    ||| has_key(s.funcs(), k) && has_key(s.type_defs(), k)
}

/// Validation accepts a session exactly when no name is defined as two
/// kinds of item: the variables, functions and types have pairwise
/// disjoint names.
pub proof fn lemma_validate_accepts_disjoint_names(s: Session)
    requires
        keys_distinct(s.vars()),
        keys_distinct(s.funcs()),
        keys_distinct(s.type_defs()),
    ensures
        first_duplicate(s.all_names()) is None <==> (forall|k: Seq<char>| !#[trigger] defined_twice(s, k)),
{
    let a = key_seq(s.vars());
    let b = key_seq(s.funcs());
    let c = key_seq(s.type_defs());
    let all = s.all_names();
    lemma_no_first_duplicate(all);
    assert(all == a + b + c);
    let na = a.len() as int;
    let nb = b.len() as int;
    assert forall|i: int| 0 <= i < all.len() implies #[trigger] all[i] == (if i < na {
        s.vars()[i].0
    } else if i < na + nb {
        s.funcs()[i - na].0
    } else {
        s.type_defs()[i - na - nb].0
    }) by {}
    if names_distinct(all) {
        assert forall|k: Seq<char>| !#[trigger] defined_twice(s, k) by {
            if has_key(s.vars(), k) && has_key(s.funcs(), k) {
                let i = choose|i: int| 0 <= i < s.vars().len() && #[trigger] s.vars()[i].0 == k;
                let j = choose|j: int| 0 <= j < s.funcs().len() && #[trigger] s.funcs()[j].0 == k;
                assert(all[i] == all[na + j]);
            }
            if has_key(s.vars(), k) && has_key(s.type_defs(), k) {
                let i = choose|i: int| 0 <= i < s.vars().len() && #[trigger] s.vars()[i].0 == k;
                let j = choose|j: int| 0 <= j < s.type_defs().len() && #[trigger] s.type_defs()[j].0 == k;
                assert(all[i] == all[na + nb + j]);
            }
            if has_key(s.funcs(), k) && has_key(s.type_defs(), k) {
                let i = choose|i: int| 0 <= i < s.funcs().len() && #[trigger] s.funcs()[i].0 == k;
                let j = choose|j: int| 0 <= j < s.type_defs().len() && #[trigger] s.type_defs()[j].0 == k;
                assert(all[na + i] == all[na + nb + j]);
            }
        }
    } else {
        let (i, j) = choose|i: int, j: int| 0 <= i < j < all.len() && all[i] == all[j];
        let k = all[i];
        assert(defined_twice(s, k)) by {
            assert(all[i] == all[j]);
            if j < na {
                assert(s.vars()[i].0 == s.vars()[j].0);
            } else if j < na + nb {
                if i < na {
                    assert(s.vars()[i].0 == k && s.funcs()[j - na].0 == k);
                    assert(has_key(s.vars(), k) && has_key(s.funcs(), k));
                } else {
                    assert(s.funcs()[i - na].0 == s.funcs()[j - na].0);
                }
            } else {
                if i < na {
                    assert(s.vars()[i].0 == k && s.type_defs()[j - na - nb].0 == k);
                    assert(has_key(s.vars(), k) && has_key(s.type_defs(), k));
                } else if i < na + nb {
                    assert(s.funcs()[i - na].0 == k && s.type_defs()[j - na - nb].0 == k);
                    assert(has_key(s.funcs(), k) && has_key(s.type_defs(), k));
                } else {
                    assert(s.type_defs()[i - na - nb].0 == s.type_defs()[j - na - nb].0);
                }
            }
        }
    }
}

} // verus!
