//! Module loading for shell sessions: where a module's file is looked for,
//! the cache of loaded modules and the import of their exported items.
//!
//! Probing the file system and parsing a module file are done by the
//! caller, through the closures it hands in.
use vstd::prelude::*;
use crate::namemap::{NameMap, has_key, insert_model, key_seq, lookup, remove_model};
use crate::text::{concat, concat3, copy_text, strings_view};
use crate::types::{FunctionSignature, Type};
use crate::repl::session::holds_copy;
use crate::repl::paths::{home_dir_text, opt_view, path_under, under_home};

verus! {

/// Items exported from a module
#[derive(Debug, Clone)]
pub struct ModuleExports {
    /// Exported variables
    pub variables: NameMap<Type>,
    /// Exported functions
    pub functions: NameMap<FunctionSignature>,
    /// Exported types
    pub types: NameMap<Type>,
}

impl ModuleExports {
    /// No exported items
    pub fn new() -> (e: Self)
        ensures
            e.variables@ == Seq::<(Seq<char>, Type)>::empty(),
            e.functions@ == Seq::<(Seq<char>, FunctionSignature)>::empty(),
            e.types@ == Seq::<(Seq<char>, Type)>::empty(),
    {
        ModuleExports { variables: NameMap::new(), functions: NameMap::new(), types: NameMap::new() }
    }

    /// The number of exported items.
    pub open spec fn item_count(&self) -> nat {
        self.variables@.len() + self.functions@.len() + self.types@.len()
    }
}

impl Default for ModuleExports {
    fn default() -> (e: Self)
        ensures
            e.variables@ == Seq::<(Seq<char>, Type)>::empty(),
            e.functions@ == Seq::<(Seq<char>, FunctionSignature)>::empty(),
            e.types@ == Seq::<(Seq<char>, Type)>::empty(),
    {
        ModuleExports::new()
    }
}

/// Module information for a shell session
#[derive(Debug)]
pub struct ModuleInfo {
    /// Module name
    pub name: String,
    /// Module file path
    pub path: String,
    /// Exported items
    pub exports: ModuleExports,
    /// Module load time, in nanoseconds since the Unix epoch
    pub loaded_at: u64,
}

/// `base` joined with `name` as a file system path: an absolute `name`
/// replaces `base`, else a separator goes between them when `base` does not
/// end in one.
pub open spec fn path_join(base: Seq<char>, name: Seq<char>) -> Seq<char> {
    if name.len() > 0 && name[0] == '/' {
        name
    } else if base.len() == 0 {
        name
    } else if base.last() == '/' {
        base + name
    } else {
        base + "/"@ + name
    }
}

/// The file names a module may have: `NAME.script`, `NAME/mod.script` and
/// `NAME/main.script`.
pub open spec fn module_file_name(module: Seq<char>, k: int) -> Seq<char> {
    if k == 0 {
        module + ".script"@
    } else if k == 1 {
        module + "/mod.script"@
    } else {
        module + "/main.script"@
    }
}

/// The files looked at for a module, in order: for each search path, its
/// three file names.
pub open spec fn module_candidates(paths: Seq<Seq<char>>, module: Seq<char>) -> Seq<Seq<char>> {
    Seq::new(3 * paths.len(), |i: int| path_join(paths[i / 3], module_file_name(module, i % 3)))
}

/// The debug rendering of a list of paths.
pub uninterp spec fn paths_debug(paths: Seq<Seq<char>>) -> Seq<char>;

/// The message of the error for a module that no search path holds.
pub open spec fn not_found_message(module: Seq<char>, paths: Seq<Seq<char>>) -> Seq<char> {
    "Module '"@ + module + "' not found in search paths: "@ + paths_debug(paths)
}

/// The message of the error for an item a module does not export.
pub open spec fn item_not_found_message(item: Seq<char>, module: Seq<char>) -> Seq<char> {
    "Item '"@ + item + "' not found in module '"@ + module + "'"@
}

/// The total number of items exported by the loaded modules.
pub open spec fn exports_total(modules: Seq<(Seq<char>, ModuleInfo)>) -> nat
    decreases modules.len(),
{
    if modules.len() == 0 {
        0
    } else {
        exports_total(modules.drop_last()) + modules.last().1.exports.item_count()
    }
}

/// Renders a list of paths with the derived `Debug` format of a list.
#[verifier::external_body]
fn debug_paths(paths: &Vec<String>) -> (s: String)
    ensures
        s@ == paths_debug(strings_view(paths@)),
{
    format!("{:?}", paths)
}

/// Joins a search path and a file name.
pub(crate) fn join_path(base: &str, name: &str) -> (p: String)
    ensures
        p@ == path_join(base@, name@),
{
    let n = crate::text::chars_of(name);
    if n.len() > 0 && n[0] == '/' {
        return copy_text(name);
    }
    let b = crate::text::chars_of(base);
    if b.len() == 0 {
        copy_text(name)
    } else if b[b.len() - 1] == '/' {
        concat(base, name)
    } else {
        proof {
            reveal_strlit("/");
        }
        concat3(base, "/", name)
    }
}

/// The `k`-th file name of a module.
fn module_file_name_text(module: &str, k: usize) -> (s: String)
    requires
        k < 3,
    ensures
        s@ == module_file_name(module@, k as int),
{
    if k == 0 {
        proof {
            reveal_strlit(".script");
        }
        concat(module, ".script")
    } else if k == 1 {
        proof {
            reveal_strlit("/mod.script");
        }
        concat(module, "/mod.script")
    } else {
        proof {
            reveal_strlit("/main.script");
        }
        concat(module, "/main.script")
    }
}

/// Module loader for shell sessions
pub struct ModuleLoader {
    /// Loaded modules cache
    loaded_modules: NameMap<ModuleInfo>,
    /// Module search paths
    search_paths: Vec<String>,
}

/// The default search paths: `./`, `./lib/` and `./modules/`.
pub open spec fn default_search_paths() -> Seq<Seq<char>> {
    seq!["./"@, "./lib/"@, "./modules/"@]
}

/// The search paths of a new loader: the default ones, then the user
/// library `.script/lib` under the home directory, if there is one.
pub open spec fn search_paths_for(home: Option<Seq<char>>) -> Seq<Seq<char>> {
    match under_home(home, ".script/lib"@) {
        Some(p) => default_search_paths().push(p),
        None => default_search_paths(),
    }
}

/// The exports of the loaded module with the given name.
pub open spec fn cached_exports(modules: Seq<(Seq<char>, ModuleInfo)>, name: Seq<char>) -> Option<ModuleExports> {
    match lookup(modules, name) {
        Some(m) => Some(m.exports),
        None => None,
    }
}

/// `p` is the first of the candidate files that `is_file` accepted: every
/// candidate before it was checked and refused.
pub open spec fn first_accepted<F: Fn(&String) -> bool>(cands: Seq<Seq<char>>, is_file: &F, p: String) -> bool {
    exists|ps: Seq<String>, i: int|
        #![trigger strings_view(ps), ps[i]]
        strings_view(ps) == cands && 0 <= i < ps.len() && ps[i] == p && is_file.ensures((&ps[i],), true) && forall|k: int|
            0 <= k < i ==> is_file.ensures((&ps[k],), false)
}

/// Every candidate file was checked and `is_file` refused it.
pub open spec fn none_accepted<F: Fn(&String) -> bool>(cands: Seq<Seq<char>>, is_file: &F) -> bool {
    exists|ps: Seq<String>|
        #[trigger] strings_view(ps) == cands && forall|k: int| 0 <= k < ps.len() ==> is_file.ensures((&ps[k],), false)
}

/// What loading a module that is not cached gives: the module cached from
/// the first file `is_file` accepted and the exports `parse` read from it,
/// or the error of the search or of `parse` with the loader unchanged.
pub open spec fn loaded_fresh<F: Fn(&String) -> bool, P: Fn(&str, &String) -> Result<ModuleExports, String>>(
    before: ModuleLoader,
    after: ModuleLoader,
    module_name: &str,
    is_file: &F,
    parse: &P,
    now: u64,
    r: Result<&ModuleExports, String>,
) -> bool {
    match r {
        Ok(e) => exists|m: ModuleInfo|
            {
                &&& after.modules() == insert_model(before.modules(), module_name@, m)
                &&& m.name@ == module_name@
                &&& m.loaded_at == now
                &&& *e == m.exports
                &&& first_accepted(module_candidates(before.paths(), module_name@), is_file, m.path)
                &&& #[trigger] parse.ensures((module_name, &m.path), Ok::<ModuleExports, String>(m.exports))
            },
        Err(msg) => after.modules() == before.modules() && ((msg@ == not_found_message(module_name@, before.paths())
            && none_accepted(module_candidates(before.paths(), module_name@), is_file)) || exists|p: String|
            first_accepted(module_candidates(before.paths(), module_name@), is_file, p) && #[trigger] parse.ensures(
                (module_name, &p),
                Err::<ModuleExports, String>(msg),
            )),
    }
}

impl ModuleLoader {
    /// The loaded modules, in loading order.
    pub closed spec fn modules(&self) -> Seq<(Seq<char>, ModuleInfo)> {
        self.loaded_modules@
    }

    /// The search paths, in order.
    pub closed spec fn paths(&self) -> Seq<Seq<char>> {
        strings_view(self.search_paths@)
    }

    /// Create a new module loader searching `./`, `./lib/`, `./modules/` and
    /// the user library under the home directory
    pub fn new() -> (l: Self)
        ensures
            l.modules() == Seq::<(Seq<char>, ModuleInfo)>::empty(),
            exists|home: Option<Seq<char>>| l.paths() == #[trigger] search_paths_for(home),
    {
        let home = home_dir_text();
        let l = ModuleLoader::with_home(home);
        proof {
            let h = opt_view(home);
            assert(l.paths() == search_paths_for(h));
        }
        l
    }

    /// A module loader whose user library lies under the home directory
    /// `home`, if there is one.
    pub fn with_home(home: Option<String>) -> (l: Self)
        ensures
            l.modules() == Seq::<(Seq<char>, ModuleInfo)>::empty(),
            l.paths() == search_paths_for(opt_view(home)),
    {
        let mut search_paths: Vec<String> = Vec::new();
        search_paths.push(String::from_str("./"));
        search_paths.push(String::from_str("./lib/"));
        search_paths.push(String::from_str("./modules/"));
        proof {
            reveal_strlit("./");
            reveal_strlit("./lib/");
            reveal_strlit("./modules/");
            reveal_strlit(".script/lib");
        }
        assert(strings_view(search_paths@) =~= default_search_paths());
        match path_under(&home, ".script/lib") {
            Some(p) => {
                search_paths.push(p);
            },
            None => {},
        }
        let l = ModuleLoader { loaded_modules: NameMap::new(), search_paths };
        assert(l.paths() =~= search_paths_for(opt_view(home)));
        l
    }

    /// Add a search path for modules
    pub fn add_search_path(&mut self, path: &str)
        ensures
            final(self).paths() == old(self).paths().push(path@),
            final(self).modules() == old(self).modules(),
    {
        let ghost before = self.paths();
        self.search_paths.push(copy_text(path));
        assert(self.paths() =~= before.push(path@));
    }

    /// Get search paths
    pub fn search_paths(&self) -> (r: &[String])
        ensures
            strings_view(r@) == self.paths(),
    {
        self.search_paths.as_slice()
    }

    /// The files looked at for a module, in order
    pub fn module_file_candidates(&self, module_name: &str) -> (r: Vec<String>)
        ensures
            strings_view(r@) == module_candidates(self.paths(), module_name@),
    {
        let ghost cands = module_candidates(self.paths(), module_name@);
        let mut r: Vec<String> = Vec::new();
        let mut s: usize = 0;
        while s < self.search_paths.len()
            invariant
                s <= self.search_paths@.len(),
                cands == module_candidates(self.paths(), module_name@),
                strings_view(r@) == cands.subrange(0, 3 * s),
            decreases self.search_paths@.len() - s,
        {
            let mut k: usize = 0;
            while k < 3
                invariant
                    k <= 3,
                    s < self.search_paths@.len(),
                    cands == module_candidates(self.paths(), module_name@),
                    strings_view(r@) == cands.subrange(0, 3 * s + k),
                decreases 3 - k,
            {
                let name = module_file_name_text(module_name, k);
                let p = join_path(self.search_paths[s].as_str(), name.as_str());
                let ghost before = strings_view(r@);
                r.push(p);
                proof {
                    assert((3 * s + k) / 3 == s as int) by (nonlinear_arith)
                        requires
                            k < 3,
                    ;
                    assert((3 * s + k) % 3 == k as int) by (nonlinear_arith)
                        requires
                            k < 3,
                    ;
                    assert(strings_view(r@) =~= before.push(cands[3 * s + k]));
                    assert(strings_view(r@) =~= cands.subrange(0, 3 * s + k + 1));
                }
                k = k + 1;
            }
            s = s + 1;
        }
        assert(cands.subrange(0, 3 * self.search_paths@.len() as int) =~= cands);
        r
    }

    /// Find a module's file: the first candidate that `is_file` accepts
    fn find_module_file<F: Fn(&String) -> bool>(&self, module_name: &str, is_file: &F) -> (r: Result<String, String>)
        requires
            forall|p: &String| is_file.requires((p,)),
        ensures
            r matches Ok(p) ==> first_accepted(module_candidates(self.paths(), module_name@), is_file, p),
            r matches Err(m) ==> m@ == not_found_message(module_name@, self.paths()) && none_accepted(
                module_candidates(self.paths(), module_name@),
                is_file,
            ),
    {
        let mut cands = self.module_file_candidates(module_name);
        let mut i: usize = 0;
        while i < cands.len()
            invariant
                i <= cands@.len(),
                strings_view(cands@) == module_candidates(self.paths(), module_name@),
                forall|p: &String| is_file.requires((p,)),
                forall|k: int| 0 <= k < i ==> is_file.ensures((&cands@[k],), false),
            decreases cands@.len() - i,
        {
            let found = is_file(&cands[i]);
            if found {
                let ghost all = cands@;
                let p = cands.remove(i);
                proof {
                    assert(all[i as int] == p);
                    assert(strings_view(all) == module_candidates(self.paths(), module_name@));
                }
                return Ok(p);
            }
            i = i + 1;
        }
        proof {
            assert(strings_view(cands@) == module_candidates(self.paths(), module_name@));
        }
        let shown = debug_paths(&self.search_paths);
        proof {
            reveal_strlit("Module '");
            reveal_strlit("' not found in search paths: ");
        }
        let m = concat3("Module '", module_name, "' not found in search paths: ");
        Err(concat(m.as_str(), shown.as_str()))
    }

    /// Load a module and return its exports: a loaded module comes from the
    /// cache; otherwise its file is the first candidate that `is_file`
    /// accepts, `parse` reads its exports, and the module is cached with
    /// load time `now`
    pub fn load_module<F: Fn(&String) -> bool, P: Fn(&str, &String) -> Result<ModuleExports, String>>(
        &mut self,
        module_name: &str,
        is_file: &F,
        parse: &P,
        now: u64,
    ) -> (r: Result<&ModuleExports, String>)
        requires
            forall|p: &String| is_file.requires((p,)),
            forall|n: &str, p: &String| parse.requires((n, p)),
        ensures
            final(self).paths() == old(self).paths(),
            has_key(old(self).modules(), module_name@) ==> final(self).modules() == old(self).modules() && (r matches Ok(
                e,
            ) && cached_exports(old(self).modules(), module_name@) == Some(*e)),
            r matches Ok(e) ==> cached_exports(final(self).modules(), module_name@) == Some(*e),
            r is Err ==> final(self).modules() == old(self).modules() && !has_key(old(self).modules(), module_name@),
            !has_key(old(self).modules(), module_name@) ==> loaded_fresh(
                *old(self),
                *final(self),
                module_name,
                is_file,
                parse,
                now,
                r,
            ),
    {
        if let Some(i) = self.loaded_modules.position(module_name) {
            return Ok(&self.loaded_modules.value_at(i).exports);
        }
        let path = self.find_module_file(module_name, is_file)?;
        let exports = match parse(module_name, &path) {
            Ok(e) => e,
            Err(msg) => {
                proof {
                    assert(is_file.ensures((&path,), true) && parse.ensures(
                        (module_name, &path),
                        Err::<ModuleExports, String>(msg),
                    ));
                }
                return Err(msg);
            },
        };
        let info = ModuleInfo { name: copy_text(module_name), path, exports, loaded_at: now };
        let ghost g = info;
        self.loaded_modules.insert(copy_text(module_name), info);
        let i = self.loaded_modules.position(module_name).unwrap();
        proof {
            assert(self.loaded_modules@[i as int].1 == g);
            assert(parse.ensures((module_name, &g.path), Ok::<ModuleExports, String>(g.exports)));
        }
        Ok(&self.loaded_modules.value_at(i).exports)
    }

    /// Import specific items from a module (loaded as `load_module` does);
    /// each item is taken from the variables, else the functions, else the
    /// types the module exports
    pub fn import_items<F: Fn(&String) -> bool, P: Fn(&str, &String) -> Result<ModuleExports, String>>(
        &mut self,
        module_name: &str,
        items: &[String],
        is_file: &F,
        parse: &P,
        now: u64,
    ) -> (r: Result<ModuleExports, String>)
        requires
            forall|p: &String| is_file.requires((p,)),
            forall|n: &str, p: &String| parse.requires((n, p)),
        ensures
            final(self).paths() == old(self).paths(),
            has_key(old(self).modules(), module_name@) ==> final(self).modules() == old(self).modules(),
            cached_exports(final(self).modules(), module_name@) matches Some(e) ==> selection(
                e,
                strings_view(items@),
                module_name@,
                r,
            ),
            cached_exports(final(self).modules(), module_name@) is None ==> r is Err,
            !has_key(old(self).modules(), module_name@) ==> exists|lr: Result<&ModuleExports, String>|
                #[trigger] loaded_fresh(*old(self), *final(self), module_name, is_file, parse, now, lr) && (lr matches Err(
                    msg,
                ) ==> r == Err::<ModuleExports, String>(msg)),
    {
        let loaded = self.load_module(module_name, is_file, parse, now);
        match loaded {
            Ok(exports) => select_items(exports, items, module_name),
            Err(msg) => Err(msg),
        }
    }

    /// Import all items from a module (loaded as `load_module` does)
    pub fn import_all<F: Fn(&String) -> bool, P: Fn(&str, &String) -> Result<ModuleExports, String>>(
        &mut self,
        module_name: &str,
        is_file: &F,
        parse: &P,
        now: u64,
    ) -> (r: Result<ModuleExports, String>)
        requires
            forall|p: &String| is_file.requires((p,)),
            forall|n: &str, p: &String| parse.requires((n, p)),
        ensures
            final(self).paths() == old(self).paths(),
            has_key(old(self).modules(), module_name@) ==> final(self).modules() == old(self).modules(),
            cached_exports(final(self).modules(), module_name@) matches Some(e) ==> (r matches Ok(c) && copies_exports(
                e,
                c,
            )),
            cached_exports(final(self).modules(), module_name@) is None ==> r is Err,
            !has_key(old(self).modules(), module_name@) ==> exists|lr: Result<&ModuleExports, String>|
                #[trigger] loaded_fresh(*old(self), *final(self), module_name, is_file, parse, now, lr) && (lr matches Err(
                    msg,
                ) ==> r == Err::<ModuleExports, String>(msg)),
    {
        let loaded = self.load_module(module_name, is_file, parse, now);
        match loaded {
            Ok(exports) => Ok(copy_exports(exports)),
            Err(msg) => Err(msg),
        }
    }

    /// Get information about a loaded module
    pub fn get_module_info(&self, module_name: &str) -> (r: Option<&ModuleInfo>)
        ensures
            match r {
                Some(m) => lookup(self.modules(), module_name@) == Some(*m),
                None => lookup(self.modules(), module_name@) is None,
            },
    {
        self.loaded_modules.get(module_name)
    }

    /// List all loaded modules, in loading order
    pub fn list_loaded_modules(&self) -> (r: Vec<String>)
        ensures
            strings_view(r@) == key_seq(self.modules()),
    {
        let ks = self.loaded_modules.keys();
        assert(strings_view(ks@) =~= key_seq(self.modules()));
        ks
    }

    /// Check if a module is loaded
    pub fn is_module_loaded(&self, module_name: &str) -> (b: bool)
        ensures
            b == has_key(self.modules(), module_name@),
    {
        self.loaded_modules.contains_key(module_name)
    }

    /// Unload a module (for reloading); whether it was loaded
    pub fn unload_module(&mut self, module_name: &str) -> (b: bool)
        ensures
            b == has_key(old(self).modules(), module_name@),
            final(self).modules() == remove_model(old(self).modules(), module_name@),
            !has_key(final(self).modules(), module_name@),
            final(self).paths() == old(self).paths(),
    {
        let removed = self.loaded_modules.remove(module_name);
        removed.is_some()
    }

    /// Reload a module: unload it, then load it as `load_module` does
    pub fn reload_module<F: Fn(&String) -> bool, P: Fn(&str, &String) -> Result<ModuleExports, String>>(
        &mut self,
        module_name: &str,
        is_file: &F,
        parse: &P,
        now: u64,
    ) -> (r: Result<&ModuleExports, String>)
        requires
            forall|p: &String| is_file.requires((p,)),
            forall|n: &str, p: &String| parse.requires((n, p)),
        ensures
            final(self).paths() == old(self).paths(),
            exists|between: ModuleLoader|
                {
                    &&& between.modules() == remove_model(old(self).modules(), module_name@)
                    &&& between.paths() == old(self).paths()
                    &&& #[trigger] loaded_fresh(between, *final(self), module_name, is_file, parse, now, r)
                },
    {
        self.unload_module(module_name);
        self.load_module(module_name, is_file, parse, now)
    }

    /// Clear all loaded modules
    pub fn clear(&mut self)
        ensures
            final(self).modules() == Seq::<(Seq<char>, ModuleInfo)>::empty(),
            final(self).paths() == old(self).paths(),
    {
        self.loaded_modules.clear();
    }

    /// Get module count
    pub fn module_count(&self) -> (n: usize)
        ensures
            n == self.modules().len(),
    {
        self.loaded_modules.len()
    }

    /// Get total exported items count
    pub fn total_exports_count(&self) -> (n: usize)
        requires
            exports_total(self.modules()) <= usize::MAX,
        ensures
            n == exports_total(self.modules()),
    {
        let count = self.loaded_modules.len();
        let mut total: usize = 0;
        let mut i: usize = 0;
        while i < count
            invariant
                i <= count,
                count == self.modules().len(),
                total == exports_total(self.modules().subrange(0, i as int)),
                exports_total(self.modules()) <= usize::MAX,
            decreases count - i,
        {
            assert(self.modules().subrange(0, i + 1).drop_last() =~= self.modules().subrange(0, i as int));
            proof {
                lemma_exports_total_prefix(self.modules(), i + 1);
            }
            let e = &self.loaded_modules.value_at(i).exports;
            total = total + e.variables.len() + e.functions.len() + e.types.len();
            i = i + 1;
        }
        assert(self.modules().subrange(0, count as int) =~= self.modules());
        total
    }

    /// Whether a loaded module's file was last modified (at `modified`, in
    /// nanoseconds since the Unix epoch, when known) no later than it was loaded
    pub fn is_module_fresh(&self, module_name: &str, modified: Option<u64>) -> (b: bool)
        ensures
            b == (lookup(self.modules(), module_name@) matches Some(m) && modified matches Some(t) && t <= m.loaded_at),
    {
        match self.loaded_modules.get(module_name) {
            Some(module) => match modified {
                Some(t) => t <= module.loaded_at,
                None => false,
            },
            None => false,
        }
    }

    /// Get module dependencies (none are tracked)
    pub fn get_module_dependencies(&self, _module_name: &str) -> (r: Vec<String>)
        ensures
            r@.len() == 0,
    {
        Vec::new()
    }
}

impl Default for ModuleLoader {
    fn default() -> (l: Self)
        ensures
            l.modules() == Seq::<(Seq<char>, ModuleInfo)>::empty(),
            exists|home: Option<Seq<char>>| l.paths() == #[trigger] search_paths_for(home),
    {
        ModuleLoader::new()
    }
}

proof fn lemma_exports_total_prefix(s: Seq<(Seq<char>, ModuleInfo)>, m: int)
    requires
        0 <= m <= s.len(),
    ensures
        exports_total(s.subrange(0, m)) <= exports_total(s),
    decreases s.len() - m,
{
    if m < s.len() {
        lemma_exports_total_prefix(s, m + 1);
        assert(s.subrange(0, m + 1).drop_last() =~= s.subrange(0, m));
    } else {
        assert(s.subrange(0, m) =~= s);
    }
}

/// Whether an item is exported as any kind.
pub open spec fn exported(e: ModuleExports, item: Seq<char>) -> bool {
    has_key(e.variables@, item) || has_key(e.functions@, item) || has_key(e.types@, item)
}

/// Where an item lands in a selection: a copy of the variable, else of the
/// function, else of the type with its name.
pub open spec fn selected(e: ModuleExports, imp: ModuleExports, item: Seq<char>) -> bool {
    if has_key(e.variables@, item) {
        holds_copy(imp.variables@, e.variables@, item)
    } else if has_key(e.functions@, item) {
        holds_copy(imp.functions@, e.functions@, item)
    } else {
        holds_copy(imp.types@, e.types@, item)
    }
}

/// What selecting `items` from `e` gives: an error naming the first item
/// not exported, or the exports holding a copy of each item and nothing
/// else.
pub open spec fn selection(
    e: ModuleExports,
    items: Seq<Seq<char>>,
    module: Seq<char>,
    r: Result<ModuleExports, String>,
) -> bool {
    match r {
        Err(m) => exists|i: int|
            0 <= i < items.len() && !exported(e, #[trigger] items[i]) && (forall|j: int|
                0 <= j < i ==> exported(e, #[trigger] items[j])) && m@ == item_not_found_message(items[i], module),
        Ok(imp) => {
            &&& forall|i: int| 0 <= i < items.len() ==> exported(e, #[trigger] items[i]) && selected(e, imp, items[i])
            &&& forall|k: Seq<char>| #[trigger] has_key(imp.variables@, k) ==> items.contains(k)
            &&& forall|k: Seq<char>| #[trigger] has_key(imp.functions@, k) ==> items.contains(k)
            &&& forall|k: Seq<char>| #[trigger] has_key(imp.types@, k) ==> items.contains(k)
        },
    }
}

/// `c` holds a copy of every export of `e`, under the same names in the
/// same order.
pub open spec fn copies_exports(e: ModuleExports, c: ModuleExports) -> bool {
    &&& key_seq(c.variables@) == key_seq(e.variables@)
    &&& key_seq(c.functions@) == key_seq(e.functions@)
    &&& key_seq(c.types@) == key_seq(e.types@)
    &&& forall|i: int| 0 <= i < c.variables@.len() ==> cloned::<Type>(e.variables@[i].1, #[trigger] c.variables@[i].1)
    &&& forall|i: int| 0 <= i < c.functions@.len() ==> cloned::<FunctionSignature>(
        e.functions@[i].1,
        #[trigger] c.functions@[i].1,
    )
    &&& forall|i: int| 0 <= i < c.types@.len() ==> cloned::<Type>(e.types@[i].1, #[trigger] c.types@[i].1)
}

/// A copy of a module's exports.
fn copy_exports(e: &ModuleExports) -> (c: ModuleExports)
    ensures
        copies_exports(*e, c),
{
    let c = ModuleExports { variables: e.variables.clone(), functions: e.functions.clone(), types: e.types.clone() };
    assert(key_seq(c.variables@) =~= key_seq(e.variables@));
    assert(key_seq(c.functions@) =~= key_seq(e.functions@));
    assert(key_seq(c.types@) =~= key_seq(e.types@));
    c
}

/// Selects `items` from a module's exports.
fn select_items(e: &ModuleExports, items: &[String], module_name: &str) -> (r: Result<ModuleExports, String>)
    ensures
        selection(*e, strings_view(items@), module_name@, r),
{
    let ghost its = strings_view(items@);
    let mut imp = ModuleExports::new();
    let mut i: usize = 0;
    while i < items.len()
        invariant
            i <= items@.len(),
            its == strings_view(items@),
            forall|j: int| 0 <= j < i ==> exported(*e, #[trigger] its[j]) && selected(*e, imp, its[j]),
            forall|k: Seq<char>| #[trigger] has_key(imp.variables@, k) ==> its.subrange(0, i as int).contains(k),
            forall|k: Seq<char>| #[trigger] has_key(imp.functions@, k) ==> its.subrange(0, i as int).contains(k),
            forall|k: Seq<char>| #[trigger] has_key(imp.types@, k) ==> its.subrange(0, i as int).contains(k),
        decreases items@.len() - i,
    {
        let item = items[i].as_str();
        let ghost before = imp;
        let ghost it = its[i as int];
        assert(item@ == it);
        if let Some(t) = e.variables.get(item) {
            let c = t.clone();
            imp.variables.insert(copy_text(item), c);
            proof {
                crate::namemap::lemma_insert_keeps_distinct(before.variables@, it, c);
            }
        } else if let Some(f) = e.functions.get(item) {
            let c = f.clone();
            imp.functions.insert(copy_text(item), c);
            proof {
                crate::namemap::lemma_insert_keeps_distinct(before.functions@, it, c);
            }
        } else if let Some(t) = e.types.get(item) {
            let c = t.clone();
            imp.types.insert(copy_text(item), c);
            proof {
                crate::namemap::lemma_insert_keeps_distinct(before.types@, it, c);
            }
        } else {
            proof {
                reveal_strlit("Item '");
                reveal_strlit("' not found in module '");
                reveal_strlit("'");
            }
            let m = concat3("Item '", item, "' not found in module '");
            let m = concat3(m.as_str(), module_name, "'");
            return Err(m);
        }
        proof {
            assert forall|j: int| 0 <= j <= i implies exported(*e, #[trigger] its[j]) && selected(*e, imp, its[j]) by {
                if j < i {
                    assert(selected(*e, before, its[j]));
                }
            }
            assert forall|k: Seq<char>| #[trigger] has_key(imp.variables@, k) implies its.subrange(0, i + 1).contains(k) by {
                if k == it {
                    assert(its.subrange(0, i + 1)[i as int] == k);
                } else {
                    assert(has_key(before.variables@, k));
                    let q = choose|q: int| 0 <= q < i && its.subrange(0, i as int)[q] == k;
                    assert(its.subrange(0, i + 1)[q] == k);
                }
            }
            assert forall|k: Seq<char>| #[trigger] has_key(imp.functions@, k) implies its.subrange(0, i + 1).contains(k) by {
                if k == it {
                    assert(its.subrange(0, i + 1)[i as int] == k);
                } else {
                    assert(has_key(before.functions@, k));
                    let q = choose|q: int| 0 <= q < i && its.subrange(0, i as int)[q] == k;
                    assert(its.subrange(0, i + 1)[q] == k);
                }
            }
            assert forall|k: Seq<char>| #[trigger] has_key(imp.types@, k) implies its.subrange(0, i + 1).contains(k) by {
                if k == it {
                    assert(its.subrange(0, i + 1)[i as int] == k);
                } else {
                    assert(has_key(before.types@, k));
                    let q = choose|q: int| 0 <= q < i && its.subrange(0, i as int)[q] == k;
                    assert(its.subrange(0, i + 1)[q] == k);
                }
            }
        }
        i = i + 1;
    }
    assert(its.subrange(0, items@.len() as int) =~= its);
    Ok(imp)
}


} // verus!
