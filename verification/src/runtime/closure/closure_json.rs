//! The JSON closure format: a document with the closure's name, parameters,
//! capture mode and (optionally) captured values, members sorted by name.
use vstd::prelude::*;
use vstd::utf8::{encode_utf8, decode_utf8, valid_utf8};
use crate::error::{Error, ErrorKind};
use crate::namemap::{NameMap, insert_all_model, insert_model, keys_distinct};
use crate::runtime::closure::capture_storage::CaptureStorage;
use crate::runtime::closure::json::{
    JsonModel, JsonValue, json_input, json_output, json_plain, json_plain_at, json_read, json_reads_back, json_write,
    keys_increasing, lemma_sort_by_key_increasing, lemma_sort_by_key_map, lemma_text_lt_irreflexive, map_snd,
    members_model, sort_by_key, sort_members,
};
use crate::runtime::closure::serialize::{
    ClosureParts, captures_model, debug_text, invalid_utf8_message, lemma_captures_model_insert, utf8_to_string,
    value_debug_text,
};
use crate::runtime::value::{Value, ValueModel};
use crate::text::{concat, copy_text, strings_view, text_eq, text_lt};

verus! {

/// The JSON value written for a captured value (a 32-bit float has none:
/// see `has_float`).
pub open spec fn value_json(v: Value) -> JsonModel {
    match v {
        Value::Null => JsonModel::Null,
        Value::Bool(b) => JsonModel::Bool(b),
        Value::I32(i) => JsonModel::Int(i as i64),
        Value::String(s) => JsonModel::Text(s@),
        _ => JsonModel::Text(debug_text(v)),
    }
}

/// Whether some captured value is a 32-bit float.
pub open spec fn has_float(caps: Seq<(Seq<char>, Value)>) -> bool {
    exists|i: int| 0 <= i < caps.len() && #[trigger] caps[i].1 is F32
}

/// The message of the error for a 32-bit float in the JSON format.
pub open spec fn float_message() -> Seq<char> {
    "JSON encoding of 32-bit floating-point values is not supported"@
}

/// The captured values as JSON members, in their order.
pub open spec fn json_caps(caps: Seq<(Seq<char>, Value)>) -> Seq<(Seq<char>, JsonModel)> {
    map_snd(caps, |v: Value| value_json(v))
}

/// The parameters as a JSON list of texts.
pub open spec fn json_params(params: Seq<Seq<char>>) -> JsonModel {
    JsonModel::List(Seq::new(params.len(), |i: int| JsonModel::Text(params[i])))
}

/// The document written for a closure: `captured_vars` (when captured
/// values are included, sorted by name), `captures_by_ref`, `function_id`,
/// `is_optimized` (for an optimized closure) and `parameters`, in this order.
pub open spec fn closure_doc(
    id: Seq<char>,
    params: Seq<Seq<char>>,
    by_ref: bool,
    caps: Seq<(Seq<char>, Value)>,
    include_captures: bool,
    optimized: bool,
) -> JsonModel {
    let head: Seq<(Seq<char>, JsonModel)> = if include_captures {
        seq![("captured_vars"@, JsonModel::Object(sort_by_key(json_caps(caps))))]
    } else {
        Seq::empty()
    };
    let flag: Seq<(Seq<char>, JsonModel)> = if optimized {
        seq![("is_optimized"@, JsonModel::Bool(true))]
    } else {
        Seq::empty()
    };
    JsonModel::Object(
        head + seq![("captures_by_ref"@, JsonModel::Bool(by_ref)), ("function_id"@, JsonModel::Text(id))] + flag
            + seq![("parameters"@, json_params(params))],
    )
}

/// The bytes of a closure in the JSON format, or the error: a 32-bit float
/// among the captured values written, or the writer's error.
pub open spec fn closure_json(
    id: Seq<char>,
    params: Seq<Seq<char>>,
    by_ref: bool,
    caps: Seq<(Seq<char>, Value)>,
    include_captures: bool,
    optimized: bool,
) -> Result<Seq<u8>, Seq<char>> {
    if include_captures && has_float(caps) {
        Err(float_message())
    } else {
        match json_output(closure_doc(id, params, by_ref, caps, include_captures, optimized)) {
            Ok(t) => Ok(encode_utf8(t)),
            Err(e) => Err("JSON serialization failed: "@ + e),
        }
    }
}

/// The JSON value of a captured value other than a 32-bit float.
fn value_to_json(v: &Value) -> (j: JsonValue)
    requires
        !(v is F32),
    ensures
        j.model() == value_json(*v),
{
    match v {
        Value::Null => JsonValue::Null,
        Value::Bool(b) => JsonValue::Bool(*b),
        Value::I32(i) => JsonValue::Int(*i as i64),
        Value::String(s) => JsonValue::Text(copy_text(s.as_str())),
        Value::F32(_) => JsonValue::Null,
        _ => JsonValue::Text(value_debug_text(v)),
    }
}

/// The captured values of a map as JSON members, unless one is a 32-bit
/// float.
pub(crate) fn map_json_members(caps: &NameMap<Value>) -> (r: Option<Vec<(String, JsonValue)>>)
    ensures
        has_float(caps@) ==> r is None,
        !has_float(caps@) ==> (r matches Some(v) && members_model(v@) == json_caps(caps@)),
{
    let n = caps.len();
    let mut out: Vec<(String, JsonValue)> = Vec::new();
    let mut i: usize = 0;
    while i < n
        invariant
            i <= n,
            n == caps@.len(),
            forall|k: int| 0 <= k < i ==> !(#[trigger] caps@[k].1 is F32),
            out@.len() == i,
            members_model(out@) == json_caps(caps@.subrange(0, i as int)),
        decreases n - i,
    {
        let v = caps.value_at(i);
        if let Value::F32(_) = v {
            return None;
        }
        let j = value_to_json(v);
        let ghost before = out@;
        out.push((copy_text(caps.key_at(i).as_str()), j));
        proof {
            assert forall|k: int| 0 <= k < i + 1 implies #[trigger] members_model(out@)[k] == json_caps(
                caps@.subrange(0, i + 1),
            )[k] by {
                if k < i {
                    assert(out@[k] == before[k]);
                    assert(members_model(before)[k] == json_caps(caps@.subrange(0, i as int))[k]);
                }
            }
            assert(members_model(out@) =~= json_caps(caps@.subrange(0, i + 1)));
        }
        i = i + 1;
    }
    assert(caps@.subrange(0, n as int) =~= caps@);
    Some(out)
}

/// The captured values of a capture storage as JSON members, unless one is
/// a 32-bit float.
pub(crate) fn storage_json_members(caps: &CaptureStorage) -> (r: Option<Vec<(String, JsonValue)>>)
    ensures
        has_float(caps@) ==> r is None,
        !has_float(caps@) ==> (r matches Some(v) && members_model(v@) == json_caps(caps@)),
{
    let n = caps.len();
    let mut out: Vec<(String, JsonValue)> = Vec::new();
    let mut i: usize = 0;
    while i < n
        invariant
            i <= n,
            n == caps@.len(),
            forall|k: int| 0 <= k < i ==> !(#[trigger] caps@[k].1 is F32),
            out@.len() == i,
            members_model(out@) == json_caps(caps@.subrange(0, i as int)),
        decreases n - i,
    {
        let v = caps.value_at(i);
        if let Value::F32(_) = v {
            return None;
        }
        let j = value_to_json(v);
        let ghost before = out@;
        out.push((copy_text(caps.key_at(i).as_str()), j));
        proof {
            assert forall|k: int| 0 <= k < i + 1 implies #[trigger] members_model(out@)[k] == json_caps(
                caps@.subrange(0, i + 1),
            )[k] by {
                if k < i {
                    assert(out@[k] == before[k]);
                    assert(members_model(before)[k] == json_caps(caps@.subrange(0, i as int))[k]);
                }
            }
            assert(members_model(out@) =~= json_caps(caps@.subrange(0, i + 1)));
        }
        i = i + 1;
    }
    assert(caps@.subrange(0, n as int) =~= caps@);
    Some(out)
}

/// The JSON list of the parameters.
fn params_to_json(params: &[String]) -> (j: JsonValue)
    ensures
        j.model() == json_params(strings_view(params@)),
{
    let mut items: Vec<JsonValue> = Vec::new();
    let mut i: usize = 0;
    while i < params.len()
        invariant
            i <= params@.len(),
            items@.len() == i,
            forall|k: int| 0 <= k < i ==> (#[trigger] items@[k]).model() == JsonModel::Text(params@[k]@),
        decreases params@.len() - i,
    {
        items.push(JsonValue::Text(copy_text(params[i].as_str())));
        i = i + 1;
    }
    let j = JsonValue::List(items);
    assert(j.model() =~= json_params(strings_view(params@))) by {
        assert(strings_view(params@).len() == params@.len());
        if let JsonModel::List(s) = j.model() {
            assert(s =~= Seq::new(params@.len(), |k: int| JsonModel::Text(strings_view(params@)[k])));
        }
    }
    j
}

/// Encodes a closure in the JSON format, given its captured values as JSON
/// members (when they are included).
pub(crate) fn encode_closure_json(
    function_id: &str,
    parameters: &[String],
    captures_by_ref: bool,
    members: Vec<(String, JsonValue)>,
    include_captures: bool,
    optimized: bool,
    Ghost(caps): Ghost<Seq<(Seq<char>, Value)>>,
) -> (r: Result<Vec<u8>, Error>)
    requires
        !(include_captures && has_float(caps)),
        include_captures ==> members_model(members@) == json_caps(caps),
    ensures
        match closure_json(function_id@, strings_view(parameters@), captures_by_ref, caps, include_captures, optimized) {
            Ok(d) => r matches Ok(v) && v@ == d,
            Err(m) => r matches Err(e) && e.kind == ErrorKind::RuntimeError && e.message@ == m,
        },
        r matches Ok(v) ==> v@.len() > 0,
{
    let ghost doc = closure_doc(function_id@, strings_view(parameters@), captures_by_ref, caps, include_captures, optimized);
    let mut top: Vec<(String, JsonValue)> = Vec::new();
    let ghost mut expect: Seq<(Seq<char>, JsonModel)> = Seq::empty();
    assert(members_model(top@) =~= expect);
    if include_captures {
        let sorted = sort_members(members);
        let entry = JsonValue::Object(sorted);
        assert(entry.model() == JsonModel::Object(sort_by_key(json_caps(caps)))) by {
            if let JsonModel::Object(u) = entry.model() {
                assert(u =~= members_model(sorted@));
            }
        }
        top.push((copy_text("captured_vars"), entry));
        proof {
            expect = expect.push(("captured_vars"@, JsonModel::Object(sort_by_key(json_caps(caps)))));
        }
        assert(members_model(top@) =~= expect);
    }
    let ghost e1 = expect;
    top.push((copy_text("captures_by_ref"), JsonValue::Bool(captures_by_ref)));
    proof {
        expect = expect.push(("captures_by_ref"@, JsonModel::Bool(captures_by_ref)));
        assert forall|k: int| 0 <= k < e1.len() implies #[trigger] members_model(top@)[k] == expect[k] by {
            assert(members_model(top@)[k] == members_model(top@.drop_last())[k]);
        }
    }
    assert(members_model(top@) =~= expect);
    top.push((copy_text("function_id"), JsonValue::Text(copy_text(function_id))));
    proof {
        let e2 = expect;
        expect = expect.push(("function_id"@, JsonModel::Text(function_id@)));
        assert forall|k: int| 0 <= k < e2.len() implies #[trigger] members_model(top@)[k] == expect[k] by {
            assert(members_model(top@)[k] == members_model(top@.drop_last())[k]);
        }
    }
    assert(members_model(top@) =~= expect);
    if optimized {
        top.push((copy_text("is_optimized"), JsonValue::Bool(true)));
        proof {
            let e3 = expect;
            expect = expect.push(("is_optimized"@, JsonModel::Bool(true)));
            assert forall|k: int| 0 <= k < e3.len() implies #[trigger] members_model(top@)[k] == expect[k] by {
                assert(members_model(top@)[k] == members_model(top@.drop_last())[k]);
            }
        }
        assert(members_model(top@) =~= expect);
    }
    top.push((copy_text("parameters"), params_to_json(parameters)));
    proof {
        let e4 = expect;
        expect = expect.push(("parameters"@, json_params(strings_view(parameters@))));
        assert forall|k: int| 0 <= k < e4.len() implies #[trigger] members_model(top@)[k] == expect[k] by {
            assert(members_model(top@)[k] == members_model(top@.drop_last())[k]);
        }
    }
    assert(members_model(top@) =~= expect);
    let document = JsonValue::Object(top);
    assert(document.model() == doc) by {
        if let JsonModel::Object(u) = document.model() {
            assert(u =~= members_model(top@));
        }
        if let JsonModel::Object(t) = doc {
            assert(t =~= expect);
        }
    }
    match json_write(&document) {
        Ok(text) => {
            assert(encode_utf8(text@).len() > 0) by {
                reveal_with_fuel(encode_utf8, 2);
            }
            let bytes = text.as_str().as_bytes();
            Ok(vstd::slice::slice_to_vec(bytes))
        },
        Err(e) => Err(Error::with_message(ErrorKind::RuntimeError, concat("JSON serialization failed: ", e.as_str()))),
    }
}

// ---------------------------------------------------------------------
// Reading the JSON format
// ---------------------------------------------------------------------

/// The value of the first member named `key`, or null.
pub open spec fn member_in(ms: Seq<(Seq<char>, JsonModel)>, key: Seq<char>) -> JsonModel
    decreases ms.len(),
{
    if ms.len() == 0 {
        JsonModel::Null
    } else if ms[0].0 == key {
        ms[0].1
    } else {
        member_in(ms.drop_first(), key)
    }
}

/// The value of a document's member named `key` (null when the document is
/// not an object or has no such member).
pub open spec fn json_member(doc: JsonModel, key: Seq<char>) -> JsonModel {
    match doc {
        JsonModel::Object(ms) => member_in(ms, key),
        _ => JsonModel::Null,
    }
}

/// A text value, or the empty text for any other value.
pub open spec fn text_or_empty(j: JsonModel) -> Seq<char> {
    match j {
        JsonModel::Text(t) => t,
        _ => Seq::empty(),
    }
}

/// The message of the error for a number that is not an `i64`.
pub open spec fn number_message(t: Seq<char>) -> Seq<char> {
    "Unsupported JSON number: "@ + t
}

/// The value read from a JSON value: an integer is cut to 32 bits, a list
/// or an object reads as null, and a number that is not an `i64` is refused.
pub open spec fn json_value_model(j: JsonModel) -> Result<ValueModel, Seq<char>> {
    match j {
        JsonModel::Null => Ok(ValueModel::Null),
        JsonModel::Bool(b) => Ok(ValueModel::Bool(b)),
        JsonModel::Int(i) => Ok(ValueModel::I32(i as i32)),
        JsonModel::OtherNumber(t) => Err(number_message(t)),
        JsonModel::Text(s) => Ok(ValueModel::Str(s)),
        _ => Ok(ValueModel::Null),
    }
}

/// The captured values read from the members of an object, in order; the
/// first refused value gives the error.
pub open spec fn json_captures(ms: Seq<(Seq<char>, JsonModel)>) -> Result<Seq<(Seq<char>, ValueModel)>, Seq<char>>
    decreases ms.len(),
{
    if ms.len() == 0 {
        Ok(Seq::empty())
    } else {
        match json_captures(ms.drop_last()) {
            Err(m) => Err(m),
            Ok(cs) => match json_value_model(ms.last().1) {
                Ok(v) => Ok(cs.push((ms.last().0, v))),
                Err(m) => Err(m),
            },
        }
    }
}

/// The parts of a closure read from a JSON document: a text `function_id`
/// and a list `parameters` are required; `captures_by_ref` is false unless
/// it is `true`; `captured_vars` gives no captures unless it is an object.
pub open spec fn closure_parts_json(doc: JsonModel) -> Result<ClosureParts, Seq<char>> {
    match json_member(doc, "function_id"@) {
        JsonModel::Text(id) => match json_member(doc, "parameters"@) {
            JsonModel::List(items) => {
                let caps = match json_member(doc, "captured_vars"@) {
                    JsonModel::Object(ms) => json_captures(ms),
                    _ => Ok(Seq::empty()),
                };
                let by_ref = match json_member(doc, "captures_by_ref"@) {
                    JsonModel::Bool(b) => b,
                    _ => false,
                };
                match caps {
                    Ok(cs) => Ok(
                        ClosureParts {
                            id,
                            params: Seq::new(items.len(), |i: int| text_or_empty(items[i])),
                            by_ref,
                            captures: cs,
                        },
                    ),
                    Err(m) => Err(m),
                }
            },
            _ => Err("Invalid parameters"@),
        },
        _ => Err("Missing function_id"@),
    }
}

/// Reads a closure in the JSON format: UTF-8 text, a JSON document, then
/// its parts.
pub open spec fn read_closure_json(d: Seq<u8>) -> Result<ClosureParts, Seq<char>> {
    if !valid_utf8(d) {
        Err(invalid_utf8_message(d))
    } else {
        match json_input(decode_utf8(d)) {
            Err(e) => Err("JSON parse error: "@ + e),
            Ok(doc) => closure_parts_json(doc),
        }
    }
}

/// The first member named `key` is at position `i` (or there is none when
/// `i` is the length).
pub proof fn lemma_member_in_at(ms: Seq<(Seq<char>, JsonModel)>, key: Seq<char>, i: int)
    requires
        0 <= i <= ms.len(),
        forall|k: int| 0 <= k < i ==> (#[trigger] ms[k]).0 != key,
        i < ms.len() ==> ms[i].0 == key,
    ensures
        member_in(ms, key) == (if i < ms.len() { ms[i].1 } else { JsonModel::Null }),
    decreases ms.len(),
{
    if ms.len() > 0 && i > 0 {
        let t = ms.drop_first();
        assert(ms[0].0 != key);
        assert forall|k: int| 0 <= k < i - 1 implies (#[trigger] t[k]).0 != key by {
            assert(t[k] == ms[k + 1]);
        }
        lemma_member_in_at(t, key, i - 1);
    }
}

/// The members of an object value, by model.
pub(crate) proof fn lemma_object_model(ms: Vec<(String, JsonValue)>)
    ensures
        JsonValue::Object(ms).model() == JsonModel::Object(members_model(ms@)),
{
    if let JsonModel::Object(u) = JsonValue::Object(ms).model() {
        assert(u =~= members_model(ms@));
    }
}

/// The value of the first member named `key` of an object.
fn find_member<'a>(ms: &'a Vec<(String, JsonValue)>, key: &str) -> (r: Option<&'a JsonValue>)
    ensures
        match r {
            Some(j) => j.model() == member_in(members_model(ms@), key@),
            None => member_in(members_model(ms@), key@) == JsonModel::Null,
        },
{
    let ghost s = members_model(ms@);
    let mut i: usize = 0;
    while i < ms.len()
        invariant
            i <= ms@.len(),
            s == members_model(ms@),
            forall|k: int| 0 <= k < i ==> (#[trigger] s[k]).0 != key@,
        decreases ms@.len() - i,
    {
        if text_eq(ms[i].0.as_str(), key) {
            proof {
                lemma_member_in_at(s, key@, i as int);
            }
            return Some(&ms[i].1);
        }
        i = i + 1;
    }
    proof {
        lemma_member_in_at(s, key@, i as int);
    }
    None
}

/// The value of a document's member named `key`, if it is an object that
/// has one.
pub(crate) fn get_member<'a>(doc: &'a JsonValue, key: &str) -> (r: Option<&'a JsonValue>)
    ensures
        match r {
            Some(j) => j.model() == json_member(doc.model(), key@),
            None => json_member(doc.model(), key@) == JsonModel::Null,
        },
{
    match doc {
        JsonValue::Object(ms) => {
            proof {
                lemma_object_model(*ms);
            }
            find_member(ms, key)
        },
        _ => None,
    }
}

/// The value read from a JSON value (see `json_value_model`).
fn json_to_value(j: &JsonValue) -> (r: Result<Value, Error>)
    ensures
        match json_value_model(j.model()) {
            Ok(m) => r matches Ok(v) && v.model() == m,
            Err(msg) => r matches Err(e) && e.kind == ErrorKind::RuntimeError && e.message@ == msg,
        },
{
    match j {
        JsonValue::Null => Ok(Value::Null),
        JsonValue::Bool(b) => Ok(Value::Bool(*b)),
        JsonValue::Int(i) => Ok(Value::I32(*i as i32)),
        JsonValue::OtherNumber(t) => Err(
            Error::with_message(ErrorKind::RuntimeError, concat("Unsupported JSON number: ", t.as_str())),
        ),
        JsonValue::Text(s) => Ok(Value::String(copy_text(s.as_str()))),
        _ => Ok(Value::Null),
    }
}

/// The captured values read from the members of an object, into a map.
fn json_captures_exec(ms: &Vec<(String, JsonValue)>) -> (r: Result<NameMap<Value>, Error>)
    ensures
        match json_captures(members_model(ms@)) {
            Ok(cs) => r matches Ok(m) && captures_model(m@) == insert_all_model(
                Seq::<(Seq<char>, ValueModel)>::empty(),
                cs,
            ),
            Err(msg) => r matches Err(e) && e.kind == ErrorKind::RuntimeError && e.message@ == msg,
        },
{
    let ghost s = members_model(ms@);
    let mut map: NameMap<Value> = NameMap::new();
    let ghost mut raw: Seq<(Seq<char>, ValueModel)> = Seq::empty();
    assert(captures_model(map@) =~= Seq::<(Seq<char>, ValueModel)>::empty());
    assert(s.subrange(0, 0) =~= Seq::<(Seq<char>, JsonModel)>::empty());
    let mut i: usize = 0;
    while i < ms.len()
        invariant
            i <= ms@.len(),
            s == members_model(ms@),
            json_captures(s.subrange(0, i as int)) == Ok::<Seq<(Seq<char>, ValueModel)>, Seq<char>>(raw),
            captures_model(map@) == insert_all_model(Seq::<(Seq<char>, ValueModel)>::empty(), raw),
            keys_distinct(map@),
        decreases ms@.len() - i,
    {
        assert(s.subrange(0, i + 1).drop_last() =~= s.subrange(0, i as int));
        assert(s.subrange(0, i + 1).last() == s[i as int]);
        let value = match json_to_value(&ms[i].1) {
            Ok(v) => v,
            Err(e) => {
                proof {
                    lemma_json_captures_err(s, i as int + 1);
                }
                return Err(e);
            },
        };
        let name = copy_text(ms[i].0.as_str());
        let ghost before = map@;
        proof {
            lemma_captures_model_insert(before, name@, value);
        }
        map.insert(name, value);
        proof {
            let p = (s[i as int].0, value.model());
            assert(raw.push(p).drop_last() =~= raw);
            raw = raw.push(p);
        }
        i = i + 1;
    }
    assert(s.subrange(0, i as int) =~= s);
    Ok(map)
}

/// An error in the first `n` members is the error of them all.
proof fn lemma_json_captures_err(s: Seq<(Seq<char>, JsonModel)>, n: int)
    requires
        0 <= n <= s.len(),
        json_captures(s.subrange(0, n)) is Err,
    ensures
        json_captures(s) == json_captures(s.subrange(0, n)),
    decreases s.len() - n,
{
    if n < s.len() {
        assert(s.subrange(0, n + 1).drop_last() =~= s.subrange(0, n));
        lemma_json_captures_err(s, n + 1);
    } else {
        assert(s.subrange(0, n) =~= s);
    }
}

/// The parameters read from a JSON list (non-texts read as empty texts).
fn params_from_json(items: &Vec<JsonValue>) -> (r: Vec<String>)
    ensures
        strings_view(r@) == Seq::new(items@.len(), |i: int| text_or_empty(items@[i].model())),
{
    let mut out: Vec<String> = Vec::new();
    let mut i: usize = 0;
    while i < items.len()
        invariant
            i <= items@.len(),
            out@.len() == i,
            forall|k: int| 0 <= k < i ==> (#[trigger] out@[k])@ == text_or_empty(items@[k].model()),
        decreases items@.len() - i,
    {
        let t = match &items[i] {
            JsonValue::Text(s) => copy_text(s.as_str()),
            _ => String::new(),
        };
        out.push(t);
        i = i + 1;
    }
    assert(strings_view(out@) =~= Seq::new(items@.len(), |k: int| text_or_empty(items@[k].model())));
    out
}

/// Decodes a closure in the JSON format. A plain document written as the
/// text reads back from it.
pub(crate) fn decode_closure_json(data: &[u8]) -> (r: Result<(String, Vec<String>, bool, NameMap<Value>), Error>)
    ensures
        match read_closure_json(data@) {
            Ok(p) => r matches Ok(t) && t.0@ == p.id && strings_view(t.1@) == p.params && t.2 == p.by_ref
                && captures_model(t.3@) == insert_all_model(Seq::<(Seq<char>, ValueModel)>::empty(), p.captures),
            Err(m) => r matches Err(e) && e.kind == ErrorKind::RuntimeError && e.message@ == m,
        },
        valid_utf8(data@) ==> json_reads_back(decode_utf8(data@)),
{
    let text = match utf8_to_string(data) {
        Ok(s) => s,
        Err(t) => {
            return Err(Error::with_message(ErrorKind::RuntimeError, concat("Invalid UTF-8: ", t.as_str())));
        },
    };
    let doc = match json_read(text.as_str()) {
        Ok(d) => d,
        Err(e) => {
            return Err(Error::with_message(ErrorKind::RuntimeError, concat("JSON parse error: ", e.as_str())));
        },
    };
    proof {
        reveal_strlit("function_id");
        reveal_strlit("parameters");
        reveal_strlit("captures_by_ref");
        reveal_strlit("captured_vars");
    }
    let function_id = match get_member(&doc, "function_id") {
        Some(JsonValue::Text(s)) => copy_text(s.as_str()),
        _ => {
            return Err(Error::new(ErrorKind::RuntimeError, "Missing function_id"));
        },
    };
    let parameters = match get_member(&doc, "parameters") {
        Some(JsonValue::List(items)) => params_from_json(items),
        _ => {
            return Err(Error::new(ErrorKind::RuntimeError, "Invalid parameters"));
        },
    };
    let captures_by_ref = match get_member(&doc, "captures_by_ref") {
        Some(JsonValue::Bool(b)) => *b,
        _ => false,
    };
    let captured_vars = match get_member(&doc, "captured_vars") {
        Some(JsonValue::Object(ms)) => {
            proof {
                lemma_object_model(*ms);
            }
            json_captures_exec(ms)?
        },
        _ => {
            let m: NameMap<Value> = NameMap::new();
            assert(captures_model(m@) =~= Seq::<(Seq<char>, ValueModel)>::empty());
            m
        },
    };
    Ok((function_id, parameters, captures_by_ref, captured_vars))
}

// ---------------------------------------------------------------------
// What a written closure reads back as
// ---------------------------------------------------------------------

/// A captured value as it reads back from the JSON format: a closure value
/// as its debug text.
pub open spec fn json_read_back(v: Value) -> ValueModel {
    match v {
        Value::Null => ValueModel::Null,
        Value::Bool(b) => ValueModel::Bool(b),
        Value::I32(i) => ValueModel::I32(i),
        Value::F32(f) => ValueModel::F32(f),
        Value::String(s) => ValueModel::Str(s@),
        _ => ValueModel::Str(debug_text(v)),
    }
}

/// The value read from a JSON value other than a number out of `i64` range.
pub open spec fn scalar_model(j: JsonModel) -> ValueModel {
    match j {
        JsonModel::Bool(b) => ValueModel::Bool(b),
        JsonModel::Int(i) => ValueModel::I32(i as i32),
        JsonModel::Text(s) => ValueModel::Str(s),
        _ => ValueModel::Null,
    }
}

/// The captured values of a closure written in the JSON format as they
/// read back: sorted by name, closure values as their debug text, none when
/// they were left out.
pub open spec fn json_expected_captures(caps: Seq<(Seq<char>, Value)>, include_captures: bool) -> Seq<
    (Seq<char>, ValueModel),
> {
    if include_captures {
        sort_by_key(map_snd(caps, |v: Value| json_read_back(v)))
    } else {
        Seq::empty()
    }
}

/// Entries in increasing order of name have distinct names.
pub proof fn lemma_increasing_distinct<T>(s: Seq<(Seq<char>, T)>)
    requires
        keys_increasing(s),
    ensures
        keys_distinct(s),
{
    assert forall|i: int, j: int| 0 <= i < s.len() && 0 <= j < s.len() && i != j implies #[trigger] s[i].0 != #[trigger] s[j].0 by {
        if i < j {
            lemma_text_lt_irreflexive(s[i].0);
        } else {
            lemma_text_lt_irreflexive(s[j].0);
        }
    }
}

/// Members whose values are all scalars read as the values' scalar models.
proof fn lemma_json_captures_scalars(ms: Seq<(Seq<char>, JsonModel)>)
    requires
        forall|i: int| 0 <= i < ms.len() ==> !(#[trigger] ms[i].1 is OtherNumber),
    ensures
        json_captures(ms) == Ok::<Seq<(Seq<char>, ValueModel)>, Seq<char>>(map_snd(ms, |j: JsonModel| scalar_model(j))),
    decreases ms.len(),
{
    let f = |j: JsonModel| scalar_model(j);
    if ms.len() == 0 {
        assert(map_snd(ms, f) =~= Seq::<(Seq<char>, ValueModel)>::empty());
    } else {
        let t = ms.drop_last();
        assert forall|i: int| 0 <= i < t.len() implies !(#[trigger] t[i].1 is OtherNumber) by {
            assert(t[i] == ms[i]);
        }
        lemma_json_captures_scalars(t);
        assert(map_snd(t, f).push((ms.last().0, f(ms.last().1))) =~= map_snd(ms, f));
        assert(json_value_model(ms.last().1) == Ok::<ValueModel, Seq<char>>(scalar_model(ms.last().1)));
    }
}

/// The names of the document's members, in order.
proof fn lemma_key_order()
    ensures
        text_lt("captured_vars"@, "captures_by_ref"@),
        text_lt("captured_vars"@, "function_id"@),
        text_lt("captured_vars"@, "is_optimized"@),
        text_lt("captured_vars"@, "parameters"@),
        text_lt("captures_by_ref"@, "function_id"@),
        text_lt("captures_by_ref"@, "is_optimized"@),
        text_lt("captures_by_ref"@, "parameters"@),
        text_lt("function_id"@, "is_optimized"@),
        text_lt("function_id"@, "parameters"@),
        text_lt("is_optimized"@, "parameters"@),
        "captured_vars"@.len() == 13,
        "captures_by_ref"@.len() == 15,
        "function_id"@.len() == 11,
        "is_optimized"@.len() == 12,
        "parameters"@.len() == 10,
{
    reveal_strlit("captured_vars");
    reveal_strlit("captures_by_ref");
    reveal_strlit("function_id");
    reveal_strlit("is_optimized");
    reveal_strlit("parameters");
    reveal_with_fuel(text_lt, 9);
}

/// Sorted JSON members of captured values are the sorted values' JSON
/// values.
proof fn lemma_sorted_json_caps(caps: Seq<(Seq<char>, Value)>)
    ensures
        sort_by_key(json_caps(caps)) == map_snd(sort_by_key(caps), |v: Value| value_json(v)),
{
    lemma_sort_by_key_map(caps, |v: Value| value_json(v));
}

/// The document written for a closure with distinct names and no 32-bit
/// float among the values written reads back as written.
pub proof fn lemma_closure_doc_plain(
    id: Seq<char>,
    params: Seq<Seq<char>>,
    by_ref: bool,
    caps: Seq<(Seq<char>, Value)>,
    include_captures: bool,
    optimized: bool,
)
    requires
        keys_distinct(caps),
    ensures
        json_plain(closure_doc(id, params, by_ref, caps, include_captures, optimized)),
{
    let doc = closure_doc(id, params, by_ref, caps, include_captures, optimized);
    lemma_key_order();
    let jc = json_caps(caps);
    assert(keys_distinct(jc)) by {
        assert forall|i: int, j: int| 0 <= i < jc.len() && 0 <= j < jc.len() && i != j implies #[trigger] jc[i].0
            != #[trigger] jc[j].0 by {
            assert(jc[i].0 == caps[i].0 && jc[j].0 == caps[j].0);
        }
    }
    lemma_sort_by_key_increasing(jc);
    lemma_sorted_json_caps(caps);
    let sorted = sort_by_key(jc);
    let vals = sort_by_key(caps);
    assert(sorted.len() == vals.len());
    reveal_with_fuel(json_plain_at, 3);
    assert(json_plain_at(JsonModel::Object(sorted), 99)) by {
        assert forall|i: int| 0 <= i < sorted.len() implies json_plain_at(#[trigger] sorted[i].1, 98) by {
            assert(sorted[i].1 == value_json(vals[i].1));
        }
    }
    assert(json_plain_at(json_params(params), 99));
    if let JsonModel::Object(top) = doc {
        assert(keys_increasing(top));
        assert forall|i: int| 0 <= i < top.len() implies json_plain_at(#[trigger] top[i].1, 99) by {}
    }
}

/// The parts read from the document written for a closure with distinct
/// names and no 32-bit float among the values written.
pub proof fn lemma_closure_doc_parts(
    id: Seq<char>,
    params: Seq<Seq<char>>,
    by_ref: bool,
    caps: Seq<(Seq<char>, Value)>,
    include_captures: bool,
    optimized: bool,
)
    requires
        keys_distinct(caps),
        !(include_captures && has_float(caps)),
    ensures
        closure_parts_json(closure_doc(id, params, by_ref, caps, include_captures, optimized)) == Ok::<
            ClosureParts,
            Seq<char>,
        >(ClosureParts { id, params, by_ref, captures: json_expected_captures(caps, include_captures) }),
{
    let doc = closure_doc(id, params, by_ref, caps, include_captures, optimized);
    lemma_key_order();
    let off: int = if include_captures { 1 } else { 0 };
    if let JsonModel::Object(top) = doc {
        let n = top.len();
        assert(top[off].0 == "captures_by_ref"@);
        assert(top[off + 1].0 == "function_id"@);
        assert(top[n - 1].0 == "parameters"@);
        lemma_member_in_at(top, "captures_by_ref"@, off);
        lemma_member_in_at(top, "function_id"@, off + 1);
        lemma_member_in_at(top, "parameters"@, n - 1);
        if include_captures {
            lemma_member_in_at(top, "captured_vars"@, 0);
        } else {
            lemma_member_in_at(top, "captured_vars"@, n as int);
        }
        assert(json_member(doc, "function_id"@) == JsonModel::Text(id));
        assert(json_member(doc, "captures_by_ref"@) == JsonModel::Bool(by_ref));
        assert(json_member(doc, "parameters"@) == json_params(params));
        if let JsonModel::List(items) = json_params(params) {
            assert(Seq::new(items.len(), |i: int| text_or_empty(items[i])) =~= params);
        }
        if include_captures {
            let jc = json_caps(caps);
            lemma_sorted_json_caps(caps);
            let sorted = sort_by_key(jc);
            let vals = sort_by_key(caps);
            lemma_sort_by_key_increasing(caps);
            assert forall|i: int| 0 <= i < sorted.len() implies !(#[trigger] sorted[i].1 is OtherNumber) by {
                assert(sorted[i].1 == value_json(vals[i].1));
            }
            lemma_json_captures_scalars(sorted);
            lemma_sort_by_key_map(caps, |v: Value| json_read_back(v));
            assert(!has_float(caps));
            let g = |v: Value| v is F32;
            let h = |v: Value| false;
            assert(map_snd(caps, g) =~= map_snd(caps, h));
            lemma_sort_by_key_map(caps, g);
            lemma_sort_by_key_map(caps, h);
            assert forall|i: int| 0 <= i < vals.len() implies !(#[trigger] vals[i].1 is F32) by {
                assert(map_snd(vals, g)[i].1 == map_snd(vals, h)[i].1);
            }
            assert(map_snd(sorted, |j: JsonModel| scalar_model(j)) =~= map_snd(vals, |v: Value| json_read_back(v))) by {
                assert forall|i: int| 0 <= i < vals.len() implies scalar_model(#[trigger] sorted[i].1) == json_read_back(
                    vals[i].1,
                ) by {
                    assert(sorted[i].1 == value_json(vals[i].1));
                }
            }
        }
    }
}

} // verus!
