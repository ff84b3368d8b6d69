//! JSON documents for the JSON closure format, written and read with
//! serde_json, and the order of object members.
use vstd::prelude::*;
use crate::namemap::{has_key, keys_distinct};
use crate::text::{text_less, text_lt};
use serde_json::Value as SerdeValue;

verus! {

#[verifier::external_type_specification]
#[verifier::external_body]
pub struct ExJsonValue(SerdeValue);

/// A JSON document as this library builds and reads it.
#[derive(Debug)]
pub enum JsonValue {
    Null,
    Bool(bool),
    /// A number that fits an `i64`
    Int(i64),
    /// Any other number, as serde_json renders it
    OtherNumber(String),
    Text(String),
    List(Vec<JsonValue>),
    /// The members of an object, in order
    Object(Vec<(String, JsonValue)>),
}

/// What a JSON document is, with text as characters.
pub enum JsonModel {
    Null,
    Bool(bool),
    Int(i64),
    OtherNumber(Seq<char>),
    Text(Seq<char>),
    List(Seq<JsonModel>),
    Object(Seq<(Seq<char>, JsonModel)>),
}

impl JsonValue {
    pub open spec fn model(self) -> JsonModel
        decreases self,
    {
        match self {
            JsonValue::Null => JsonModel::Null,
            JsonValue::Bool(b) => JsonModel::Bool(b),
            JsonValue::Int(i) => JsonModel::Int(i),
            JsonValue::OtherNumber(t) => JsonModel::OtherNumber(t@),
            JsonValue::Text(s) => JsonModel::Text(s@),
            JsonValue::List(items) => JsonModel::List(
                Seq::new(
                    items@.len(),
                    |i: int|
                        if 0 <= i < items@.len() {
                            items@[i].model()
                        } else {
                            JsonModel::Null
                        },
                ),
            ),
            JsonValue::Object(ms) => JsonModel::Object(
                Seq::new(
                    ms@.len(),
                    |i: int|
                        if 0 <= i < ms@.len() {
                            (ms@[i].0@, ms@[i].1.model())
                        } else {
                            (Seq::<char>::empty(), JsonModel::Null)
                        },
                ),
            ),
        }
    }
}

/// The members of an object, each name as characters and each value by its
/// model.
pub open spec fn members_model(ms: Seq<(String, JsonValue)>) -> Seq<(Seq<char>, JsonModel)> {
    Seq::new(ms.len(), |i: int| (ms[i].0@, ms[i].1.model()))
}

/// What `serde_json::to_string` gives for a document: its text, or the
/// message of the writer's error.
pub uninterp spec fn json_output(doc: JsonModel) -> Result<Seq<char>, Seq<char>>;

/// What `serde_json::from_str` gives for a text: the document read, or the
/// message of the parser's error.
pub uninterp spec fn json_input(text: Seq<char>) -> Result<JsonModel, Seq<char>>;

/// Each name comes strictly before the next in the order of `str`.
pub open spec fn keys_increasing<T>(ms: Seq<(Seq<char>, T)>) -> bool {
    forall|i: int, j: int| 0 <= i < j < ms.len() ==> text_lt(#[trigger] ms[i].0, #[trigger] ms[j].0)
}

/// A document that reads back as written: integer numbers only, object
/// members in increasing order of name, nested at most `depth` deep.
pub open spec fn json_plain_at(doc: JsonModel, depth: nat) -> bool
    decreases depth,
{
    match doc {
        JsonModel::OtherNumber(_) => false,
        JsonModel::List(items) => depth > 0 && forall|i: int|
            0 <= i < items.len() ==> json_plain_at(#[trigger] items[i], (depth - 1) as nat),
        JsonModel::Object(ms) => depth > 0 && keys_increasing(ms) && forall|i: int|
            0 <= i < ms.len() ==> json_plain_at(#[trigger] ms[i].1, (depth - 1) as nat),
        _ => true,
    }
}

/// A document that reads back as written, nested at most 100 deep (the
/// reader refuses 128 levels).
pub open spec fn json_plain(doc: JsonModel) -> bool {
    json_plain_at(doc, 100)
}

/// Every plain document written by the pretty printer as `text` reads back
/// from it.
pub open spec fn json_pretty_reads_back(text: Seq<char>) -> bool {
    forall|doc: JsonModel|
        json_plain(doc) && #[trigger] json_pretty_output(doc) is Ok && json_pretty_output(doc)->Ok_0 == text
            ==> json_input(text) is Ok && json_input(text)->Ok_0 == doc
}

/// Every plain document written as `text` reads back from it.
pub open spec fn json_reads_back(text: Seq<char>) -> bool {
    forall|doc: JsonModel|
        json_plain(doc) && #[trigger] json_output(doc) is Ok && json_output(doc)->Ok_0 == text ==> json_input(text)
            is Ok && json_input(text)->Ok_0 == doc
}

/// Converts a document to a `serde_json::Value`, variant by variant; an
/// object's members are collected into serde_json's map, which keeps them
/// sorted by name (a repeated name keeps its last value).
#[verifier::external_body]
pub(crate) fn to_serde(doc: &JsonValue) -> SerdeValue {
    match doc {
        JsonValue::Null => SerdeValue::Null,
        JsonValue::Bool(b) => SerdeValue::Bool(*b),
        JsonValue::Int(i) => SerdeValue::from(*i),
        JsonValue::OtherNumber(t) => t.parse::<serde_json::Number>().map(SerdeValue::Number).unwrap_or(
            SerdeValue::Null,
        ),
        JsonValue::Text(s) => SerdeValue::String(s.clone()),
        JsonValue::List(items) => SerdeValue::Array(items.iter().map(to_serde).collect()),
        JsonValue::Object(ms) => SerdeValue::Object(ms.iter().map(|(k, v)| (k.clone(), to_serde(v))).collect()),
    }
}

/// Converts a `serde_json::Value` to a document, variant by variant: a
/// number is an `Int` when `as_i64` gives one, else its rendering.
#[verifier::external_body]
fn from_serde(v: &SerdeValue) -> JsonValue {
    match v {
        SerdeValue::Null => JsonValue::Null,
        SerdeValue::Bool(b) => JsonValue::Bool(*b),
        SerdeValue::Number(n) => n.as_i64().map(JsonValue::Int).unwrap_or(JsonValue::OtherNumber(n.to_string())),
        SerdeValue::String(s) => JsonValue::Text(s.clone()),
        SerdeValue::Array(items) => JsonValue::List(items.iter().map(from_serde).collect()),
        SerdeValue::Object(m) => JsonValue::Object(m.iter().map(|(k, x)| (k.clone(), from_serde(x))).collect()),
    }
}

/// Writes a document with `serde_json::to_string`: the text (never empty:
/// the shortest is a one-digit number), or the rendering of the error.
#[verifier::external_body]
pub(crate) fn json_write(doc: &JsonValue) -> (r: Result<String, String>)
    ensures
        r matches Ok(s) ==> json_output(doc.model()) is Ok && json_output(doc.model())->Ok_0 == s@,
        r matches Ok(s) ==> s@.len() > 0,
        r matches Err(e) ==> json_output(doc.model()) is Err && json_output(doc.model())->Err_0 == e@,
{
    serde_json::to_string(&to_serde(doc)).map_err(|e| e.to_string())
}

/// What `serde_json::to_string_pretty` gives for a document: its text, or
/// the message of the writer's error.
pub uninterp spec fn json_pretty_output(doc: JsonModel) -> Result<Seq<char>, Seq<char>>;

/// Writes a document with `serde_json::to_string_pretty`: the text, or the
/// rendering of the error.
#[verifier::external_body]
pub(crate) fn json_write_pretty(doc: &JsonValue) -> (r: Result<String, String>)
    ensures
        r matches Ok(s) ==> json_pretty_output(doc.model()) is Ok && json_pretty_output(doc.model())->Ok_0 == s@,
        r matches Err(e) ==> json_pretty_output(doc.model()) is Err && json_pretty_output(doc.model())->Err_0 == e@,
{
    serde_json::to_string_pretty(&to_serde(doc)).map_err(|e| e.to_string())
}

/// Reads a document with `serde_json::from_str`: the document, or the
/// rendering of the error. The text that serde_json writes for a plain
/// document, compact or pretty, reads back as that document.
#[verifier::external_body]
pub(crate) fn json_read(text: &str) -> (r: Result<JsonValue, String>)
    ensures
        r matches Ok(v) ==> json_input(text@) is Ok && json_input(text@)->Ok_0 == v.model(),
        r matches Err(e) ==> json_input(text@) is Err && json_input(text@)->Err_0 == e@,
        r matches Ok(v) ==> forall|doc: JsonModel|
            json_plain(doc) && #[trigger] json_output(doc) is Ok && json_output(doc)->Ok_0 == text@ ==> v.model() == doc,
        (exists|doc: JsonModel| json_plain(doc) && #[trigger] json_output(doc) is Ok && json_output(doc)->Ok_0 == text@)
            ==> r is Ok,
        r matches Ok(v) ==> forall|doc: JsonModel|
            json_plain(doc) && #[trigger] json_pretty_output(doc) is Ok && json_pretty_output(doc)->Ok_0 == text@ ==> v.model()
                == doc,
        (exists|doc: JsonModel|
            json_plain(doc) && #[trigger] json_pretty_output(doc) is Ok && json_pretty_output(doc)->Ok_0 == text@) ==> r is Ok,
{
    match serde_json::from_str::<SerdeValue>(text) {
        Ok(v) => Ok(from_serde(&v)),
        Err(e) => Err(e.to_string()),
    }
}

// ---------------------------------------------------------------------
// Members sorted by name
// ---------------------------------------------------------------------

/// `p` inserted before the first entry whose name does not come before its
/// own.
pub open spec fn insert_by_key<V>(s: Seq<(Seq<char>, V)>, p: (Seq<char>, V)) -> Seq<(Seq<char>, V)>
    decreases s.len(),
{
    if s.len() == 0 {
        seq![p]
    } else if text_lt(s[0].0, p.0) {
        seq![s[0]] + insert_by_key(s.drop_first(), p)
    } else {
        seq![p] + s
    }
}

/// The entries sorted by name (insertion sort; equal names keep the later
/// one first).
pub open spec fn sort_by_key<V>(s: Seq<(Seq<char>, V)>) -> Seq<(Seq<char>, V)>
    decreases s.len(),
{
    if s.len() == 0 {
        s
    } else {
        insert_by_key(sort_by_key(s.drop_last()), s.last())
    }
}

/// Each value replaced by its image under `f`, names kept.
pub open spec fn map_snd<V, W>(s: Seq<(Seq<char>, V)>, f: spec_fn(V) -> W) -> Seq<(Seq<char>, W)> {
    Seq::new(s.len(), |i: int| (s[i].0, f(s[i].1)))
}

/// Two different texts are ordered one way or the other.
pub proof fn lemma_text_lt_total(a: Seq<char>, b: Seq<char>)
    requires
        a != b,
    ensures
        text_lt(a, b) || text_lt(b, a),
    decreases a.len(),
{
    if a.len() > 0 && b.len() > 0 && a[0] == b[0] {
        if a.drop_first() == b.drop_first() {
            assert(a =~= seq![a[0]] + a.drop_first());
            assert(b =~= seq![b[0]] + b.drop_first());
        }
        lemma_text_lt_total(a.drop_first(), b.drop_first());
    } else if a.len() == 0 && b.len() == 0 {
        assert(a =~= b);
    } else if a.len() > 0 && b.len() > 0 {
        vstd::utf8::char_u32_cast(a[0], a[0] as u32);
        vstd::utf8::char_u32_cast(b[0], b[0] as u32);
    }
}

/// No text comes before itself.
pub proof fn lemma_text_lt_irreflexive(a: Seq<char>)
    ensures
        !text_lt(a, a),
    decreases a.len(),
{
    if a.len() > 0 {
        lemma_text_lt_irreflexive(a.drop_first());
    }
}

/// Inserting at the first position whose name does not come before the new
/// one.
pub proof fn lemma_insert_by_key_at<V>(s: Seq<(Seq<char>, V)>, p: (Seq<char>, V), j: int)
    requires
        0 <= j <= s.len(),
        forall|k: int| 0 <= k < j ==> text_lt(#[trigger] s[k].0, p.0),
        j < s.len() ==> !text_lt(s[j].0, p.0),
    ensures
        insert_by_key(s, p) == s.insert(j, p),
    decreases s.len(),
{
    if s.len() == 0 {
        assert(s.insert(j, p) =~= seq![p]);
    } else if j == 0 {
        assert(s.insert(0, p) =~= seq![p] + s);
    } else {
        let t = s.drop_first();
        assert(text_lt(s[0].0, p.0));
        assert forall|k: int| 0 <= k < j - 1 implies text_lt(#[trigger] t[k].0, p.0) by {
            assert(t[k] == s[k + 1]);
        }
        lemma_insert_by_key_at(t, p, j - 1);
        assert(seq![s[0]] + t.insert(j - 1, p) =~= s.insert(j, p));
    }
}

/// Inserting into entries in increasing order of name a name they lack
/// keeps the order and adds that name.
pub proof fn lemma_insert_by_key_increasing<V>(s: Seq<(Seq<char>, V)>, p: (Seq<char>, V))
    requires
        keys_increasing(s),
        !has_key(s, p.0),
    ensures
        keys_increasing(insert_by_key(s, p)),
        insert_by_key(s, p).len() == s.len() + 1,
        forall|k: Seq<char>| #[trigger] has_key(insert_by_key(s, p), k) == (has_key(s, k) || k == p.0),
    decreases s.len(),
{
    let r = insert_by_key(s, p);
    if s.len() == 0 {
        assert forall|k: Seq<char>| #[trigger] has_key(r, k) == (has_key(s, k) || k == p.0) by {
            if k == p.0 {
                assert(r[0].0 == k);
            }
        }
    } else if text_lt(s[0].0, p.0) {
        let t = s.drop_first();
        assert forall|k: Seq<char>| has_key(t, k) implies #[trigger] has_key(s, k) by {
            let i = choose|i: int| 0 <= i < t.len() && #[trigger] t[i].0 == k;
            assert(s[i + 1].0 == k);
        }
        assert(!has_key(t, p.0));
        assert(keys_increasing(t)) by {
            assert forall|i: int, j: int| 0 <= i < j < t.len() implies text_lt(#[trigger] t[i].0, #[trigger] t[j].0) by {
                assert(t[i] == s[i + 1] && t[j] == s[j + 1]);
            }
        }
        lemma_insert_by_key_increasing(t, p);
        let u = insert_by_key(t, p);
        assert(r =~= seq![s[0]] + u);
        assert forall|i: int| 0 <= i < u.len() implies text_lt(s[0].0, #[trigger] u[i].0) by {
            assert(has_key(u, u[i].0));
            if u[i].0 != p.0 {
                assert(has_key(t, u[i].0));
                let m = choose|m: int| 0 <= m < t.len() && #[trigger] t[m].0 == u[i].0;
                assert(s[m + 1].0 == u[i].0);
            }
        }
        assert forall|i: int, j: int| 0 <= i < j < r.len() implies text_lt(#[trigger] r[i].0, #[trigger] r[j].0) by {
            if i > 0 {
                assert(r[i] == u[i - 1] && r[j] == u[j - 1]);
            } else {
                assert(r[j] == u[j - 1]);
            }
        }
        assert forall|k: Seq<char>| #[trigger] has_key(r, k) == (has_key(s, k) || k == p.0) by {
            if has_key(r, k) {
                let i = choose|i: int| 0 <= i < r.len() && #[trigger] r[i].0 == k;
                if i > 0 {
                    assert(u[i - 1].0 == k);
                    assert(has_key(u, k));
                }
            }
            if has_key(s, k) {
                let i = choose|i: int| 0 <= i < s.len() && #[trigger] s[i].0 == k;
                if i > 0 {
                    assert(t[i - 1].0 == k);
                    assert(has_key(t, k));
                    assert(has_key(u, k));
                    let m = choose|m: int| 0 <= m < u.len() && #[trigger] u[m].0 == k;
                    assert(r[m + 1].0 == k);
                } else {
                    assert(r[0].0 == k);
                }
            }
            if k == p.0 {
                assert(has_key(u, k));
                let m = choose|m: int| 0 <= m < u.len() && #[trigger] u[m].0 == k;
                assert(r[m + 1].0 == k);
            }
        }
    } else {
        assert(r =~= seq![p] + s);
        assert(p.0 != s[0].0) by {
            if p.0 == s[0].0 {
                assert(has_key(s, p.0));
            }
        }
        lemma_text_lt_total(p.0, s[0].0);
        assert forall|i: int, j: int| 0 <= i < j < r.len() implies text_lt(#[trigger] r[i].0, #[trigger] r[j].0) by {
            if i > 0 {
                assert(r[i] == s[i - 1] && r[j] == s[j - 1]);
            } else {
                assert(r[j] == s[j - 1]);
                if j > 1 {
                    assert(text_lt(s[0].0, s[j - 1].0));
                    crate::text::lemma_text_lt_transitive(p.0, s[0].0, s[j - 1].0);
                }
            }
        }
        assert forall|k: Seq<char>| #[trigger] has_key(r, k) == (has_key(s, k) || k == p.0) by {
            if has_key(r, k) {
                let i = choose|i: int| 0 <= i < r.len() && #[trigger] r[i].0 == k;
                if i > 0 {
                    assert(s[i - 1].0 == k);
                }
            }
            if has_key(s, k) {
                let i = choose|i: int| 0 <= i < s.len() && #[trigger] s[i].0 == k;
                assert(r[i + 1].0 == k);
            }
            if k == p.0 {
                assert(r[0].0 == k);
            }
        }
    }
}

/// Sorting entries with distinct names puts them in increasing order of
/// name and keeps their names.
pub proof fn lemma_sort_by_key_increasing<V>(s: Seq<(Seq<char>, V)>)
    requires
        keys_distinct(s),
    ensures
        keys_increasing(sort_by_key(s)),
        sort_by_key(s).len() == s.len(),
        forall|k: Seq<char>| #[trigger] has_key(sort_by_key(s), k) == has_key(s, k),
    decreases s.len(),
{
    if s.len() > 0 {
        let t = s.drop_last();
        assert(keys_distinct(t)) by {
            assert forall|i: int, j: int| 0 <= i < t.len() && 0 <= j < t.len() && i != j implies #[trigger] t[i].0
                != #[trigger] t[j].0 by {
                assert(t[i] == s[i] && t[j] == s[j]);
            }
        }
        lemma_sort_by_key_increasing(t);
        assert(!has_key(t, s.last().0)) by {
            if has_key(t, s.last().0) {
                let i = choose|i: int| 0 <= i < t.len() && #[trigger] t[i].0 == s.last().0;
                assert(s[i].0 == s[s.len() - 1].0);
            }
        }
        lemma_insert_by_key_increasing(sort_by_key(t), s.last());
        assert forall|k: Seq<char>| #[trigger] has_key(sort_by_key(s), k) == has_key(s, k) by {
            if has_key(t, k) {
                let i = choose|i: int| 0 <= i < t.len() && #[trigger] t[i].0 == k;
                assert(s[i].0 == k);
            }
            if has_key(s, k) {
                let i = choose|i: int| 0 <= i < s.len() && #[trigger] s[i].0 == k;
                if i < s.len() - 1 {
                    assert(t[i].0 == k);
                }
            }
        }
    }
}

/// Mapping values commutes with inserting by name.
pub proof fn lemma_insert_by_key_map<V, W>(s: Seq<(Seq<char>, V)>, p: (Seq<char>, V), f: spec_fn(V) -> W)
    ensures
        insert_by_key(map_snd(s, f), (p.0, f(p.1))) == map_snd(insert_by_key(s, p), f),
    decreases s.len(),
{
    let m = map_snd(s, f);
    if s.len() == 0 {
        assert(map_snd(insert_by_key(s, p), f) =~= seq![(p.0, f(p.1))]);
    } else if text_lt(s[0].0, p.0) {
        lemma_insert_by_key_map(s.drop_first(), p, f);
        assert(m.drop_first() =~= map_snd(s.drop_first(), f));
        assert(map_snd(insert_by_key(s, p), f) =~= seq![m[0]] + map_snd(insert_by_key(s.drop_first(), p), f));
    } else {
        assert(map_snd(insert_by_key(s, p), f) =~= seq![(p.0, f(p.1))] + m);
    }
}

/// Mapping values commutes with sorting by name.
pub proof fn lemma_sort_by_key_map<V, W>(s: Seq<(Seq<char>, V)>, f: spec_fn(V) -> W)
    ensures
        sort_by_key(map_snd(s, f)) == map_snd(sort_by_key(s), f),
    decreases s.len(),
{
    let m = map_snd(s, f);
    if s.len() == 0 {
        assert(map_snd(s, f) =~= s.map_values(|e: (Seq<char>, V)| (e.0, f(e.1))));
        assert(sort_by_key(m) =~= map_snd(sort_by_key(s), f));
    } else {
        lemma_sort_by_key_map(s.drop_last(), f);
        assert(m.drop_last() =~= map_snd(s.drop_last(), f));
        lemma_insert_by_key_map(sort_by_key(s.drop_last()), s.last(), f);
    }
}

/// Sorts object members by name (stable for all but equal names, as
/// `sort_by_key` says).
pub fn sort_members(ms: Vec<(String, JsonValue)>) -> (r: Vec<(String, JsonValue)>)
    ensures
        members_model(r@) == sort_by_key(members_model(ms@)),
{
    let ghost input = members_model(ms@);
    let mut rest = ms;
    let mut out: Vec<(String, JsonValue)> = Vec::new();
    let ghost mut t: int = 0;
    assert(input.subrange(0, 0) =~= Seq::<(Seq<char>, JsonModel)>::empty());
    assert(members_model(rest@) =~= input.subrange(0, input.len() as int));
    while rest.len() > 0
        invariant
            0 <= t <= input.len(),
            members_model(rest@) == input.subrange(t, input.len() as int),
            members_model(out@) == sort_by_key(input.subrange(0, t)),
        decreases rest@.len(),
    {
        let ghost old_rest = rest@;
        assert(members_model(old_rest).len() == old_rest.len());
        let x = rest.remove(0);
        proof {
            assert(members_model(old_rest)[0] == input.subrange(t, input.len() as int)[0]);
            assert forall|i: int| 0 <= i < rest@.len() implies #[trigger] members_model(rest@)[i] == input[t + 1 + i] by {
                assert(rest@[i] == old_rest[i + 1]);
                assert(members_model(old_rest)[i + 1] == input.subrange(t, input.len() as int)[i + 1]);
            }
            assert(members_model(rest@) =~= input.subrange(t + 1, input.len() as int));
        }
        let mut j: usize = 0;
        while j < out.len() && text_less(out[j].0.as_str(), x.0.as_str())
            invariant
                j <= out@.len(),
                forall|k: int| 0 <= k < j ==> text_lt(#[trigger] members_model(out@)[k].0, x.0@),
            decreases out@.len() - j,
        {
            j = j + 1;
        }
        let ghost before = members_model(out@);
        let ghost p = (x.0@, x.1.model());
        proof {
            lemma_insert_by_key_at(before, p, j as int);
            assert(input.subrange(0, t + 1).drop_last() =~= input.subrange(0, t));
            assert(x == old_rest[0]);
            assert(input.subrange(0, t + 1).last() == p);
        }
        out.insert(j, x);
        proof {
            assert(members_model(out@) =~= before.insert(j as int, p));
            t = t + 1;
        }
    }
    assert(input.subrange(0, t) =~= input);
    out
}

} // verus!
