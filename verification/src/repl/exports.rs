//! The items a parsed module exports: its variables, functions and types,
//! with the types and signatures the shell records for them.
use vstd::prelude::*;
use std::rc::Rc;
use crate::namemap::{NameMap, has_key, insert_model, key_index, keys_distinct, lemma_key_index};
use crate::parser::ast::{Param, Program, Stmt, StmtKind, StructField};
use crate::repl::module_loader::ModuleExports;
use crate::text::{concat, copy_text};
use crate::types::{FunctionSignature, Type};

verus! {

/// The signature recorded for a function with these parameters: no
/// generic parameters, each parameter by name with an unknown type, an
/// unknown return type, neither const nor async.
pub open spec fn signature_export(sig: FunctionSignature, params: Seq<Param>) -> bool {
    &&& sig.generic_params is None
    &&& sig.params@.len() == params.len()
    &&& forall|i: int| 0 <= i < params.len() ==> (#[trigger] sig.params@[i]).0@ == params[i].name@ && sig.params@[i].1 == Type::Unknown
    &&& sig.return_type == Type::Unknown
    &&& !sig.is_const
    &&& !sig.is_async
}

/// The type recorded for a struct with this name and these fields: a
/// struct type of that name with each field by name, of unknown type.
pub open spec fn struct_export(t: Type, name: Seq<char>, fields: Seq<StructField>) -> bool {
    match t {
        Type::Struct { name: n, fields: fs } => {
            &&& n@ == name
            &&& fs@.len() == fields.len()
            &&& forall|i: int| 0 <= i < fields.len() ==> (#[trigger] fs@[i]).0@ == fields[i].name@ && *fs@[i].1 == Type::Unknown
        },
        _ => false,
    }
}

/// The type recorded for a type definition: a struct type for a struct, the
/// named type for an enum.
pub open spec fn type_export(t: Type, kind: StmtKind) -> bool {
    match kind {
        StmtKind::Struct { name, fields, .. } => struct_export(t, name@, fields@),
        StmtKind::Enum { name, .. } => t matches Type::Named(n) && n@ == name@,
        _ => false,
    }
}

/// The name a statement exports in a category (0: variables, 1: functions,
/// 2: types), if any.
pub open spec fn exported_name(kind: StmtKind, category: int) -> Option<Seq<char>> {
    match kind {
        StmtKind::Let { name, .. } => if category == 0 { Some(name@) } else { None },
        StmtKind::Function { name, .. } => if category == 1 { Some(name@) } else { None },
        StmtKind::Struct { name, .. } => if category == 2 { Some(name@) } else { None },
        StmtKind::Enum { name, .. } => if category == 2 { Some(name@) } else { None },
        _ => None,
    }
}

/// The exports of a category, each name with the position of the statement
/// that defines it last, in the order the names first appear.
pub open spec fn export_index(stmts: Seq<Stmt>, category: int) -> Seq<(Seq<char>, int)>
    decreases stmts.len(),
{
    if stmts.len() == 0 {
        Seq::empty()
    } else {
        let before = export_index(stmts.drop_last(), category);
        match exported_name(stmts.last().kind, category) {
            Some(n) => insert_model(before, n, stmts.len() - 1),
            None => before,
        }
    }
}

/// Entries with the names of an index, position by position, each value
/// recorded as `ok` says for the statement the index gives.
pub open spec fn exports_follow<T>(
    entries: Seq<(Seq<char>, T)>,
    index: Seq<(Seq<char>, int)>,
    ok: spec_fn(T, int) -> bool,
) -> bool {
    &&& entries.len() == index.len()
    &&& forall|p: int| 0 <= p < entries.len() ==> (#[trigger] entries[p]).0 == index[p].0 && ok(entries[p].1, index[p].1)
}

/// A variable is recorded with an unknown type.
pub open spec fn variable_ok() -> spec_fn(Type, int) -> bool {
    |t: Type, j: int| t == Type::Unknown
}

/// A function is recorded with the signature of its definition among
/// `stmts`.
pub open spec fn function_ok(stmts: Seq<Stmt>) -> spec_fn(FunctionSignature, int) -> bool {
    |sig: FunctionSignature, j: int| stmts[j].kind matches StmtKind::Function { params, .. } && signature_export(sig, params@)
}

/// A type is recorded as its definition among `stmts` says.
pub open spec fn type_ok(stmts: Seq<Stmt>) -> spec_fn(Type, int) -> bool {
    |t: Type, j: int| type_export(t, stmts[j].kind)
}

/// The exports of a module, as `extract_exports` makes them: its `let`s as
/// variables of unknown type, its functions with their signatures, its
/// structs and enums as types; a name defined again keeps its place and
/// takes the later definition.
pub open spec fn exports_of(e: ModuleExports, stmts: Seq<Stmt>) -> bool {
    &&& exports_follow(e.variables@, export_index(stmts, 0), variable_ok())
    &&& exports_follow(e.functions@, export_index(stmts, 1), function_ok(stmts))
    &&& exports_follow(e.types@, export_index(stmts, 2), type_ok(stmts))
}

/// Every position an index gives is that of a statement.
proof fn lemma_export_index_bounds(stmts: Seq<Stmt>, category: int)
    ensures
        forall|p: int| 0 <= p < export_index(stmts, category).len() ==> 0 <= (#[trigger] export_index(stmts, category)[p]).1 < stmts.len(),
    decreases stmts.len(),
{
    if stmts.len() > 0 {
        lemma_export_index_bounds(stmts.drop_last(), category);
        let before = export_index(stmts.drop_last(), category);
        match exported_name(stmts.last().kind, category) {
            Some(n) => {
                if has_key(before, n) {
                    let i = key_index(before, n);
                    assert(0 <= i < before.len()) by {
                        let w = choose|w: int| 0 <= w < before.len() && #[trigger] before[w].0 == n;
                    }
                }
            },
            None => {},
        }
    }
}

/// Storing a value and a statement position under the same name keeps the
/// entries following the index.
proof fn lemma_insert_follows<T>(
    entries: Seq<(Seq<char>, T)>,
    index: Seq<(Seq<char>, int)>,
    ok: spec_fn(T, int) -> bool,
    k: Seq<char>,
    v: T,
    j: int,
)
    requires
        exports_follow(entries, index, ok),
        keys_distinct(entries),
        ok(v, j),
    ensures
        exports_follow(insert_model(entries, k, v), insert_model(index, k, j), ok),
{
    if has_key(entries, k) {
        let i = key_index(entries, k);
        lemma_key_index(entries, k, i);
        assert(index[i].0 == k);
        assert(has_key(index, k));
        assert(keys_distinct(index)) by {
            assert forall|a: int, b: int| 0 <= a < index.len() && 0 <= b < index.len() && a != b implies #[trigger] index[a].0
                != #[trigger] index[b].0 by {
                assert(entries[a].0 == index[a].0 && entries[b].0 == index[b].0);
            }
        }
        lemma_key_index(index, k, i);
    } else {
        assert(!has_key(index, k)) by {
            if has_key(index, k) {
                let i = choose|i: int| 0 <= i < index.len() && #[trigger] index[i].0 == k;
                assert(entries[i].0 == k);
            }
        }
    }
}

/// The signature recorded for a function with these parameters.
pub fn create_function_signature(params: &Vec<Param>) -> (sig: FunctionSignature)
    ensures
        signature_export(sig, params@),
{
    let mut out: Vec<(String, Type)> = Vec::new();
    let mut i: usize = 0;
    while i < params.len()
        invariant
            i <= params@.len(),
            out@.len() == i,
            forall|k: int| 0 <= k < i ==> (#[trigger] out@[k]).0@ == params@[k].name@ && out@[k].1 == Type::Unknown,
        decreases params@.len() - i,
    {
        out.push((copy_text(params[i].name.as_str()), Type::Unknown));
        i = i + 1;
    }
    FunctionSignature { generic_params: None, params: out, return_type: Type::Unknown, is_const: false, is_async: false }
}

/// The struct type recorded for a struct with this name and these fields.
fn struct_type(name: &String, fields: &Vec<StructField>) -> (t: Type)
    ensures
        struct_export(t, name@, fields@),
{
    let mut out: Vec<(String, Rc<Type>)> = Vec::new();
    let mut i: usize = 0;
    while i < fields.len()
        invariant
            i <= fields@.len(),
            out@.len() == i,
            forall|k: int| 0 <= k < i ==> (#[trigger] out@[k]).0@ == fields@[k].name@ && *out@[k].1 == Type::Unknown,
        decreases fields@.len() - i,
    {
        out.push((copy_text(fields[i].name.as_str()), Rc::new(Type::Unknown)));
        i = i + 1;
    }
    Type::Struct { name: copy_text(name.as_str()), fields: out }
}

/// The text that the debug rendering of a statement kind produces.
pub uninterp spec fn stmt_kind_debug(kind: StmtKind) -> Seq<char>;

/// Renders a statement kind with its derived `Debug` format.
#[verifier::external_body]
fn stmt_kind_debug_text(kind: &StmtKind) -> (s: String)
    ensures
        s@ == stmt_kind_debug(*kind),
{
    format!("{:?}", kind)
}

/// Process type definition from AST: a struct gives a struct type, an enum
/// the named type; any other statement is refused
pub fn process_type_definition(stmt: &Stmt) -> (r: Result<Type, String>)
    ensures
        match stmt.kind {
            StmtKind::Struct { .. } | StmtKind::Enum { .. } => r matches Ok(t) && type_export(t, stmt.kind),
            _ => r matches Err(m) && m@ == "Statement is not a type definition: "@ + stmt_kind_debug(stmt.kind),
        },
{
    match &stmt.kind {
        StmtKind::Struct { name, fields, .. } => Ok(struct_type(name, fields)),
        StmtKind::Enum { name, .. } => Ok(Type::Named(copy_text(name.as_str()))),
        _ => {
            proof {
                reveal_strlit("Statement is not a type definition: ");
            }
            let d = stmt_kind_debug_text(&stmt.kind);
            Err(concat("Statement is not a type definition: ", d.as_str()))
        },
    }
}

/// Extract the exports of a parsed module: every `let` as a variable of
/// unknown type, every function with its signature, every struct and enum
/// as a type; other statements export nothing
pub fn extract_exports(program: &Program) -> (r: Result<ModuleExports, String>)
    ensures
        r matches Ok(e) && exports_of(e, program.statements@),
{
    let stmts = &program.statements;
    let ghost s = stmts@;
    let mut exports = ModuleExports::new();
    let mut i: usize = 0;
    proof {
        assert(s.take(0) =~= Seq::<Stmt>::empty());
    }
    while i < stmts.len()
        invariant
            i <= s.len(),
            s == stmts@,
            exports_of(exports, s.take(i as int)),
            keys_distinct(exports.variables@),
            keys_distinct(exports.functions@),
            keys_distinct(exports.types@),
        decreases s.len() - i,
    {
        let ghost t = s.take(i + 1);
        let ghost u = s.take(i as int);
        proof {
            assert(t.drop_last() =~= u);
            assert(t.last() == s[i as int]);
            lemma_export_index_bounds(u, 1);
            lemma_export_index_bounds(u, 2);
            assert(exports_follow(exports.functions@, export_index(u, 1), function_ok(t))) by {
                assert forall|p: int| 0 <= p < exports.functions@.len() implies (#[trigger] exports.functions@[p]).0
                    == export_index(u, 1)[p].0 && (function_ok(t))(exports.functions@[p].1, export_index(u, 1)[p].1) by {
                    let j = export_index(u, 1)[p].1;
                    assert(t[j] == u[j]);
                    assert((function_ok(u))(exports.functions@[p].1, j));
                }
            }
            assert(exports_follow(exports.types@, export_index(u, 2), type_ok(t))) by {
                assert forall|p: int| 0 <= p < exports.types@.len() implies (#[trigger] exports.types@[p]).0
                    == export_index(u, 2)[p].0 && (type_ok(t))(exports.types@[p].1, export_index(u, 2)[p].1) by {
                    let j = export_index(u, 2)[p].1;
                    assert(t[j] == u[j]);
                    assert((type_ok(u))(exports.types@[p].1, j));
                }
            }
        }
        let stmt = &stmts[i];
        match &stmt.kind {
            StmtKind::Let { name, .. } => {
                proof {
                    lemma_insert_follows(exports.variables@, export_index(u, 0), variable_ok(), name@, Type::Unknown, i as int);
                }
                exports.variables.insert(copy_text(name.as_str()), Type::Unknown);
            },
            StmtKind::Function { name, params, .. } => {
                let sig = create_function_signature(params);
                proof {
                    lemma_insert_follows(exports.functions@, export_index(u, 1), function_ok(t), name@, sig, i as int);
                }
                exports.functions.insert(copy_text(name.as_str()), sig);
            },
            StmtKind::Struct { name, .. } | StmtKind::Enum { name, .. } => {
                let ty = match process_type_definition(stmt) {
                    Ok(ty) => ty,
                    Err(_) => Type::Unknown,
                };
                proof {
                    lemma_insert_follows(exports.types@, export_index(u, 2), type_ok(t), name@, ty, i as int);
                }
                exports.types.insert(copy_text(name.as_str()), ty);
            },
            _ => {},
        }
        i = i + 1;
        proof {
            assert(exports_of(exports, t));
        }
    }
    proof {
        assert(s.take(i as int) =~= s);
    }
    Ok(exports)
}

} // verus!
