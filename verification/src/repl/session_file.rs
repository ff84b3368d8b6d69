//! The session file: a JSON document that records, for each variable,
//! function and type of a session, the debug rendering of its value, with
//! the format version and the time it was written.
use vstd::prelude::*;
use crate::namemap::NameMap;
use crate::repl::session::{Session, check_session_version, session_version, version_mismatch_message};
use crate::namemap::keys_distinct;
use crate::runtime::closure::closure_json::{get_member, json_member, lemma_object_model, member_in};
use crate::runtime::closure::json::{
    JsonModel, JsonValue, json_plain, json_plain_at, json_pretty_reads_back, keys_increasing, lemma_sort_by_key_increasing,
    lemma_sort_by_key_map, map_snd, members_model, sort_by_key, sort_members, json_input, json_pretty_output, json_read, json_write_pretty};
use crate::runtime::closure::serialize::{debug_text, value_debug_text};
use crate::runtime::value::Value;
use crate::text::{concat, copy_text, text_lt};
use crate::types::{FunctionSignature, Type};

verus! {

/// The text that the debug rendering of a type produces.
pub uninterp spec fn type_debug(t: Type) -> Seq<char>;

/// The text that the debug rendering of a function signature produces.
pub uninterp spec fn signature_debug(s: FunctionSignature) -> Seq<char>;

/// Renders a type with its derived `Debug` format.
#[verifier::external_body]
fn type_debug_text(t: &Type) -> (s: String)
    ensures
        s@ == type_debug(*t),
{
    format!("{:?}", t)
}

/// Renders a function signature with its derived `Debug` format.
#[verifier::external_body]
fn signature_debug_text(sig: &FunctionSignature) -> (s: String)
    ensures
        s@ == signature_debug(*sig),
{
    format!("{:?}", sig)
}

/// The current time as `chrono::Utc::now().to_rfc3339()` renders it.
/// Nothing is stated of it: it depends on the clock.
#[verifier::external_body]
fn now_rfc3339() -> String {
    chrono::Utc::now().to_rfc3339()
}

/// A variable's entry: the debug rendering of its value, as a text.
pub open spec fn value_entry() -> spec_fn(Value) -> JsonModel {
    |v: Value| JsonModel::Text(debug_text(v))
}

/// A type's entry: its debug rendering, as a text.
pub open spec fn type_entry() -> spec_fn(Type) -> JsonModel {
    |t: Type| JsonModel::Text(type_debug(t))
}

/// A function's entry: the debug rendering of its signature, as a text.
pub open spec fn signature_entry() -> spec_fn(FunctionSignature) -> JsonModel {
    |f: FunctionSignature| JsonModel::Text(signature_debug(f))
}

/// The document a session file holds: the functions, the time of writing,
/// the types, the variables and the format version, in that order (that
/// of their names); the functions, types and variables as objects of debug
/// renderings sorted by name.
pub open spec fn session_doc(
    vars: Seq<(Seq<char>, Value)>,
    funcs: Seq<(Seq<char>, FunctionSignature)>,
    types: Seq<(Seq<char>, Type)>,
    timestamp: Seq<char>,
) -> JsonModel {
    JsonModel::Object(
        seq![
            ("functions"@, JsonModel::Object(sort_by_key(map_snd(funcs, signature_entry())))),
            ("timestamp"@, JsonModel::Text(timestamp)),
            ("types"@, JsonModel::Object(sort_by_key(map_snd(types, type_entry())))),
            ("variables"@, JsonModel::Object(sort_by_key(map_snd(vars, value_entry())))),
            ("version"@, JsonModel::Text(session_version())),
        ],
    )
}

/// What reading a session file gives: the parser's error, prefixed; for an
/// object, a check of its version member where that is a text, then
/// `Ok(true)`; for any other document `Ok(false)` (nothing recognized).
pub open spec fn session_read_result(content: Seq<char>) -> Result<bool, Seq<char>> {
    match json_input(content) {
        Err(e) => Err("JSON parse error: "@ + e),
        Ok(doc) => match doc {
            JsonModel::Object(_) => match json_member(doc, "version"@) {
                JsonModel::Text(v) => if v == session_version() {
                    Ok(true)
                } else {
                    Err(version_mismatch_message(v))
                },
                _ => Ok(true),
            },
            _ => Ok(false),
        },
    }
}

/// Whether `r` is what `out` says, with text as characters.
pub open spec fn result_matches(r: Result<String, String>, out: Result<Seq<char>, Seq<char>>) -> bool {
    match r {
        Ok(s) => out is Ok && out->Ok_0 == s@,
        Err(e) => out is Err && out->Err_0 == e@,
    }
}

fn variable_object(m: &NameMap<Value>) -> (r: Vec<(String, JsonValue)>)
    ensures
        members_model(r@) == sort_by_key(map_snd(m@, value_entry())),
{
    let mut out: Vec<(String, JsonValue)> = Vec::new();
    let mut i: usize = 0;
    while i < m.len()
        invariant
            i <= m@.len(),
            out@.len() == i,
            members_model(out@) == map_snd(m@.take(i as int), value_entry()),
        decreases m@.len() - i,
    {
        let ghost before = out@;
        let text = value_debug_text(m.value_at(i));
        out.push((copy_text(m.key_at(i).as_str()), JsonValue::Text(text)));
        proof {
            let f = value_entry();
            let n = (i + 1) as int;
            assert(f(m@[i as int].1) == JsonModel::Text(text@));
            assert forall|k: int| 0 <= k < n implies #[trigger] members_model(out@)[k] == map_snd(m@.take(n), f)[k] by {
                if k < i {
                    assert(out@[k] == before[k]);
                    assert(members_model(before)[k] == map_snd(m@.take(i as int), f)[k]);
                }
            }
            assert(members_model(out@) =~= map_snd(m@.take(n), f));
        }
        i = i + 1;
    }
    assert(m@.take(i as int) =~= m@);
    sort_members(out)
}

fn type_object(m: &NameMap<Type>) -> (r: Vec<(String, JsonValue)>)
    ensures
        members_model(r@) == sort_by_key(map_snd(m@, type_entry())),
{
    let mut out: Vec<(String, JsonValue)> = Vec::new();
    let mut i: usize = 0;
    while i < m.len()
        invariant
            i <= m@.len(),
            out@.len() == i,
            members_model(out@) == map_snd(m@.take(i as int), type_entry()),
        decreases m@.len() - i,
    {
        let ghost before = out@;
        let text = type_debug_text(m.value_at(i));
        out.push((copy_text(m.key_at(i).as_str()), JsonValue::Text(text)));
        proof {
            let f = type_entry();
            let n = (i + 1) as int;
            assert(f(m@[i as int].1) == JsonModel::Text(text@));
            assert forall|k: int| 0 <= k < n implies #[trigger] members_model(out@)[k] == map_snd(m@.take(n), f)[k] by {
                if k < i {
                    assert(out@[k] == before[k]);
                    assert(members_model(before)[k] == map_snd(m@.take(i as int), f)[k]);
                }
            }
            assert(members_model(out@) =~= map_snd(m@.take(n), f));
        }
        i = i + 1;
    }
    assert(m@.take(i as int) =~= m@);
    sort_members(out)
}

fn function_object(m: &NameMap<FunctionSignature>) -> (r: Vec<(String, JsonValue)>)
    ensures
        members_model(r@) == sort_by_key(map_snd(m@, signature_entry())),
{
    let mut out: Vec<(String, JsonValue)> = Vec::new();
    let mut i: usize = 0;
    while i < m.len()
        invariant
            i <= m@.len(),
            out@.len() == i,
            members_model(out@) == map_snd(m@.take(i as int), signature_entry()),
        decreases m@.len() - i,
    {
        let ghost before = out@;
        let text = signature_debug_text(m.value_at(i));
        out.push((copy_text(m.key_at(i).as_str()), JsonValue::Text(text)));
        proof {
            let f = signature_entry();
            let n = (i + 1) as int;
            assert(f(m@[i as int].1) == JsonModel::Text(text@));
            assert forall|k: int| 0 <= k < n implies #[trigger] members_model(out@)[k] == map_snd(m@.take(n), f)[k] by {
                if k < i {
                    assert(out@[k] == before[k]);
                    assert(members_model(before)[k] == map_snd(m@.take(i as int), f)[k]);
                }
            }
            assert(members_model(out@) =~= map_snd(m@.take(n), f));
        }
        i = i + 1;
    }
    assert(m@.take(i as int) =~= m@);
    sort_members(out)
}

/// An object of text entries sorted by distinct names is a plain document.
proof fn lemma_sorted_texts_plain<V>(s: Seq<(Seq<char>, V)>, g: spec_fn(V) -> JsonModel, depth: nat)
    requires
        keys_distinct(s),
        forall|v: V| #[trigger] g(v) is Text,
        depth > 0,
    ensures
        json_plain_at(JsonModel::Object(sort_by_key(map_snd(s, g))), depth),
{
    let m = map_snd(s, g);
    assert(keys_distinct(m)) by {
        assert forall|i: int, j: int| 0 <= i < m.len() && 0 <= j < m.len() && i != j implies #[trigger] m[i].0
            != #[trigger] m[j].0 by {
            assert(m[i].0 == s[i].0 && m[j].0 == s[j].0);
        }
    }
    lemma_sort_by_key_increasing(m);
    lemma_sort_by_key_map(s, g);
    let r = sort_by_key(m);
    let t = sort_by_key(s);
    assert forall|i: int| 0 <= i < r.len() implies json_plain_at(#[trigger] r[i].1, (depth - 1) as nat) by {
        assert(r[i].1 == g(t[i].1));
        assert(g(t[i].1) is Text);
    }
}

/// The session document is a plain document.
proof fn lemma_session_doc_plain(
    vars: Seq<(Seq<char>, Value)>,
    funcs: Seq<(Seq<char>, FunctionSignature)>,
    types: Seq<(Seq<char>, Type)>,
    timestamp: Seq<char>,
)
    requires
        keys_distinct(vars),
        keys_distinct(funcs),
        keys_distinct(types),
    ensures
        json_plain(session_doc(vars, funcs, types, timestamp)),
{
    let doc = session_doc(vars, funcs, types, timestamp);
    let ms = doc->Object_0;
    lemma_sorted_texts_plain(funcs, signature_entry(), 99);
    lemma_sorted_texts_plain(types, type_entry(), 99);
    lemma_sorted_texts_plain(vars, value_entry(), 99);
    reveal_strlit("functions");
    reveal_strlit("timestamp");
    reveal_strlit("types");
    reveal_strlit("variables");
    reveal_strlit("version");
    reveal_with_fuel(text_lt, 3);
    assert(keys_increasing(ms));
    assert forall|i: int| 0 <= i < ms.len() implies json_plain_at(#[trigger] ms[i].1, 99) by {
        if i == 1 || i == 4 {
        }
    }
}

/// What reading a session file gives, and that a plain document written by
/// the pretty printer reads back as written.
pub open spec fn session_read_outcome(content: Seq<char>, r: Result<bool, String>) -> bool {
    &&& json_pretty_reads_back(content)
    &&& match session_read_result(content) {
        Ok(b) => r == Ok::<bool, String>(b),
        Err(e) => r matches Err(m) && m@ == e,
    }
}

/// A session file written for a session reads back: its text is accepted,
/// as a session file of this version.
pub proof fn lemma_session_save_then_load(
    session: Session,
    timestamp: Seq<char>,
    text: Seq<char>,
    r: Result<bool, String>,
)
    requires
        keys_distinct(session.vars()),
        keys_distinct(session.funcs()),
        keys_distinct(session.type_defs()),
        json_pretty_output(session_doc(session.vars(), session.funcs(), session.type_defs(), timestamp))
            == Ok::<Seq<char>, Seq<char>>(text),
        session_read_outcome(text, r),
    ensures
        r == Ok::<bool, String>(true),
{
    let doc = session_doc(session.vars(), session.funcs(), session.type_defs(), timestamp);
    lemma_session_doc_plain(session.vars(), session.funcs(), session.type_defs(), timestamp);
    assert(json_plain(doc) && json_pretty_output(doc) is Ok && json_pretty_output(doc)->Ok_0 == text);
    assert(json_input(text) == Ok::<JsonModel, Seq<char>>(doc));
    reveal_strlit("functions");
    reveal_strlit("timestamp");
    reveal_strlit("types");
    reveal_strlit("variables");
    reveal_strlit("version");
    reveal_with_fuel(member_in, 6);
    assert(json_member(doc, "version"@) == JsonModel::Text(session_version()));
}

impl Session {
    /// The text of the session file written at `timestamp`: the session
    /// document written by serde_json's pretty printer, or its error.
    pub fn serialize_session(&self, timestamp: &str) -> (r: Result<String, String>)
        ensures
            result_matches(r, json_pretty_output(session_doc(self.vars(), self.funcs(), self.type_defs(), timestamp@))),
    {
        let vars = variable_object(self.variables());
        let types = type_object(self.types());
        let funcs = function_object(self.functions());
        proof {
            lemma_object_model(vars);
            lemma_object_model(types);
            lemma_object_model(funcs);
        }
        let mut members: Vec<(String, JsonValue)> = Vec::new();
        members.push(("functions".to_string(), JsonValue::Object(funcs)));
        members.push(("timestamp".to_string(), JsonValue::Text(copy_text(timestamp))));
        members.push(("types".to_string(), JsonValue::Object(types)));
        members.push(("variables".to_string(), JsonValue::Object(vars)));
        members.push(("version".to_string(), JsonValue::Text("0.5.0-alpha".to_string())));
        let doc = JsonValue::Object(members);
        proof {
            reveal_strlit("variables");
            reveal_strlit("types");
            reveal_strlit("functions");
            reveal_strlit("version");
            reveal_strlit("timestamp");
            reveal_strlit("0.5.0-alpha");
            lemma_object_model(members);
            let want = session_doc(self.vars(), self.funcs(), self.type_defs(), timestamp@);
            assert(members_model(members@) =~= want->Object_0);
        }
        json_write_pretty(&doc)
    }

    /// The text of the session file written now.
    pub fn serialize_session_now(&self) -> (r: Result<String, String>)
        ensures
            exists|t: Seq<char>|
                result_matches(r, json_pretty_output(#[trigger] session_doc(self.vars(), self.funcs(), self.type_defs(), t))),
    {
        let now = now_rfc3339();
        let r = self.serialize_session(now.as_str());
        proof {
            let t = now@;
            assert(result_matches(r, json_pretty_output(session_doc(self.vars(), self.funcs(), self.type_defs(), t))));
        }
        r
    }

    /// Reads a session file's text: refuses text that is not JSON and a
    /// file of another format version; `Ok(true)` when the document is an
    /// object (a session file), `Ok(false)` for any other document.
    pub fn deserialize_session(&self, content: &str) -> (r: Result<bool, String>)
        ensures
            session_read_outcome(content@, r),
    {
        let read = json_read(content);
        proof {
            assert forall|doc: JsonModel|
                json_plain(doc) && #[trigger] json_pretty_output(doc) is Ok && json_pretty_output(doc)->Ok_0 == content@
                implies json_input(content@) is Ok && json_input(content@)->Ok_0 == doc by {
                assert(read is Ok);
            }
        }
        match read {
            Err(e) => {
                proof {
                    reveal_strlit("JSON parse error: ");
                }
                Err(concat("JSON parse error: ", e.as_str()))
            },
            Ok(doc) => {
                match &doc {
                    JsonValue::Object(_) => {},
                    _ => {
                        return Ok(false);
                    },
                }
                proof {
                    reveal_strlit("version");
                }
                match get_member(&doc, "version") {
                    Some(JsonValue::Text(v)) => {
                        match check_session_version(Some(v.as_str())) {
                            Ok(()) => Ok(true),
                            Err(m) => Err(m),
                        }
                    },
                    _ => Ok(true),
                }
            },
        }
    }
}

} // verus!
