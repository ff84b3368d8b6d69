//! Closure serialization: a binary format, a compact byte format and JSON,
//! with metadata and size limits.
use vstd::prelude::*;
use vstd::bytes::{spec_u32_to_le_bytes, spec_u32_from_le_bytes, u32_to_le_bytes, u32_from_le_bytes, lemma_auto_spec_u32_to_from_le_bytes};
use vstd::slice::{slice_to_vec, slice_subrange};
use vstd::utf8::{encode_utf8, decode_utf8, valid_utf8, encode_utf8_decode_utf8, encode_utf8_valid_utf8};
use crate::error::{Error, ErrorKind};
use crate::namemap::{NameMap, lookup, insert_model, insert_all_model, keys_distinct, has_key, lemma_insert_all_of_distinct};
use crate::idmap::id_lookup;
use crate::runtime::closure::original::Closure;
use crate::runtime::closure::capture_storage::CaptureStorage;
use crate::runtime::closure::optimized::{OptimizedClosure, function_label};
use crate::runtime::closure::id_cache::{FunctionIdCache, interned};
use crate::runtime::value::{Value, ValueModel};
use crate::text::{concat, concat4, copy_text, decimal, usize_to_text, strings_view};
use crate::runtime::closure::json::json_reads_back;
use crate::runtime::closure::closure_json::{
    closure_json, decode_closure_json, encode_closure_json, has_float, map_json_members, read_closure_json,
    storage_json_members,
};

verus! {

// ---------------------------------------------------------------------
// The binary format
// ---------------------------------------------------------------------

/// The text that the debug rendering of a value produces.
pub uninterp spec fn debug_text(v: Value) -> Seq<char>;

/// Renders a value with its derived `Debug` format.
#[verifier::external_body]
pub(crate) fn value_debug_text(v: &Value) -> (s: String)
    ensures
        s@ == debug_text(*v),
{
    format!("{:?}", v)
}

/// A length written as a 32-bit little-endian count (truncated to 32 bits).
pub open spec fn u32_bytes(n: int) -> Seq<u8> {
    spec_u32_to_le_bytes(n as u32)
}

/// A string: its UTF-8 byte count as a 32-bit little-endian number, then
/// its UTF-8 bytes.
pub open spec fn str_bin(s: Seq<char>) -> Seq<u8> {
    u32_bytes(encode_utf8(s).len() as int) + encode_utf8(s)
}

/// A list of strings written one after the other.
pub open spec fn strs_bin(ps: Seq<Seq<char>>) -> Seq<u8>
    decreases ps.len(),
{
    if ps.len() == 0 {
        Seq::empty()
    } else {
        strs_bin(ps.drop_last()) + str_bin(ps.last())
    }
}

/// A value: a type byte, then its payload. Values other than null, booleans,
/// 32-bit numbers and strings are written as their debug text.
pub open spec fn value_bin(v: Value) -> Seq<u8> {
    match v {
        Value::Null => seq![0u8],
        Value::Bool(b) => seq![1u8, if b { 1u8 } else { 0u8 }],
        Value::I32(i) => seq![2u8] + spec_u32_to_le_bytes(i as u32),
        Value::F32(f) => seq![3u8] + spec_u32_to_le_bytes(f),
        Value::String(s) => seq![4u8] + str_bin(s@),
        _ => seq![255u8] + str_bin(debug_text(v)),
    }
}

/// Captured variables: each name followed by its value.
pub open spec fn captures_bin(cs: Seq<(Seq<char>, Value)>) -> Seq<u8>
    decreases cs.len(),
{
    if cs.len() == 0 {
        Seq::empty()
    } else {
        captures_bin(cs.drop_last()) + str_bin(cs.last().0) + value_bin(cs.last().1)
    }
}

/// A closure in the binary format: function name, parameter count and
/// names, capture mode byte, then the capture count and captures (a count
/// of zero when captured values are not included).
pub open spec fn closure_bin(
    id: Seq<char>,
    params: Seq<Seq<char>>,
    by_ref: bool,
    caps: Seq<(Seq<char>, Value)>,
    include_captures: bool,
) -> Seq<u8> {
    str_bin(id) + u32_bytes(params.len() as int) + strs_bin(params) + seq![if by_ref { 1u8 } else { 0u8 }] + if include_captures {
        u32_bytes(caps.len() as int) + captures_bin(caps)
    } else {
        u32_bytes(0)
    }
}

/// What reading a piece of the input gives: the piece and the position
/// after it, or the message of the failure.
pub type Read<T> = Result<(T, int), Seq<char>>;

pub open spec fn read_u32(d: Seq<u8>, c: int) -> Read<u32> {
    if c + 4 > d.len() {
        Err("Not enough data for u32"@)
    } else {
        Ok((spec_u32_from_le_bytes(d.subrange(c, c + 4)), c + 4))
    }
}

pub open spec fn read_bool(d: Seq<u8>, c: int) -> Read<bool> {
    if c >= d.len() {
        Err("Not enough data for bool"@)
    } else {
        Ok((d[c] != 0, c + 1))
    }
}

/// The message `String::from_utf8` gives for invalid UTF-8.
pub uninterp spec fn utf8_error_text(bytes: Seq<u8>) -> Seq<char>;

/// The message of the error for invalid UTF-8.
pub open spec fn invalid_utf8_message(bytes: Seq<u8>) -> Seq<char> {
    "Invalid UTF-8: "@ + utf8_error_text(bytes)
}

pub open spec fn read_string(d: Seq<u8>, c: int) -> Read<Seq<char>> {
    match read_u32(d, c) {
        Err(e) => Err(e),
        Ok((n, c1)) => if c1 + n > d.len() {
            Err("Invalid string length"@)
        } else if valid_utf8(d.subrange(c1, c1 + n)) {
            Ok((decode_utf8(d.subrange(c1, c1 + n)), c1 + n))
        } else {
            Err(invalid_utf8_message(d.subrange(c1, c1 + n)))
        },
    }
}

pub open spec fn read_strings(d: Seq<u8>, c: int, n: nat) -> Read<Seq<Seq<char>>>
    decreases n,
{
    if n == 0 {
        Ok((Seq::empty(), c))
    } else {
        match read_strings(d, c, (n - 1) as nat) {
            Err(e) => Err(e),
            Ok((ps, c1)) => match read_string(d, c1) {
                Err(e) => Err(e),
                Ok((p, c2)) => Ok((ps.push(p), c2)),
            },
        }
    }
}

/// Reads a value in the binary format; debug text of other values reads
/// back as null.
pub open spec fn read_value(d: Seq<u8>, c: int) -> Read<ValueModel> {
    if c >= d.len() {
        Err("Not enough data for value type"@)
    } else {
        let t = d[c];
        let c1 = c + 1;
        if t == 0 {
            Ok((ValueModel::Null, c1))
        } else if t == 1 {
            match read_bool(d, c1) {
                Err(e) => Err(e),
                Ok((b, c2)) => Ok((ValueModel::Bool(b), c2)),
            }
        } else if t == 2 {
            if c1 + 4 > d.len() {
                Err("Not enough data for i32"@)
            } else {
                Ok((ValueModel::I32(spec_u32_from_le_bytes(d.subrange(c1, c1 + 4)) as i32), c1 + 4))
            }
        } else if t == 3 {
            if c1 + 4 > d.len() {
                Err("Not enough data for f32"@)
            } else {
                Ok((ValueModel::F32(spec_u32_from_le_bytes(d.subrange(c1, c1 + 4))), c1 + 4))
            }
        } else if t == 4 {
            match read_string(d, c1) {
                Err(e) => Err(e),
                Ok((s, c2)) => Ok((ValueModel::Str(s), c2)),
            }
        } else if t == 255 {
            match read_string(d, c1) {
                Err(e) => Err(e),
                Ok((_, c2)) => Ok((ValueModel::Null, c2)),
            }
        } else {
            Err("Unknown value type"@)
        }
    }
}

/// Reads `n` captures, in order.
pub open spec fn read_captures(d: Seq<u8>, c: int, n: nat) -> Read<Seq<(Seq<char>, ValueModel)>>
    decreases n,
{
    if n == 0 {
        Ok((Seq::empty(), c))
    } else {
        match read_captures(d, c, (n - 1) as nat) {
            Err(e) => Err(e),
            Ok((cs, c1)) => match read_string(d, c1) {
                Err(e) => Err(e),
                Ok((name, c2)) => match read_value(d, c2) {
                    Err(e) => Err(e),
                    Ok((v, c3)) => Ok((cs.push((name, v)), c3)),
                },
            },
        }
    }
}

/// The parts of a closure read back from bytes: function name, parameters,
/// capture mode and the captures in the order they were read.
pub struct ClosureParts {
    pub id: Seq<char>,
    pub params: Seq<Seq<char>>,
    pub by_ref: bool,
    pub captures: Seq<(Seq<char>, ValueModel)>,
}

/// Reads a closure in the binary format. Bytes after the captures are
/// ignored.
pub open spec fn read_closure_bin(d: Seq<u8>) -> Result<ClosureParts, Seq<char>> {
    match read_string(d, 0) {
        Err(e) => Err(e),
        Ok((id, c1)) => match read_u32(d, c1) {
            Err(e) => Err(e),
            Ok((np, c2)) => match read_strings(d, c2, np as nat) {
                Err(e) => Err(e),
                Ok((params, c3)) => match read_bool(d, c3) {
                    Err(e) => Err(e),
                    Ok((by_ref, c4)) => match read_u32(d, c4) {
                        Err(e) => Err(e),
                        Ok((nc, c5)) => match read_captures(d, c5, nc as nat) {
                            Err(e) => Err(e),
                            Ok((caps, _)) => Ok(ClosureParts { id, params, by_ref, captures: caps }),
                        },
                    },
                },
            },
        },
    }
}

/// The model of each captured value.
pub open spec fn captures_model(s: Seq<(Seq<char>, Value)>) -> Seq<(Seq<char>, ValueModel)> {
    s.map_values(|e: (Seq<char>, Value)| (e.0, e.1.model()))
}

// ---------------------------------------------------------------------
// Executable helpers for the binary format
// ---------------------------------------------------------------------

fn write_u32(buffer: &mut Vec<u8>, value: u32)
    ensures
        final(buffer)@ == old(buffer)@ + spec_u32_to_le_bytes(value),
{
    let mut b = u32_to_le_bytes(value);
    buffer.append(&mut b);
}

fn write_string(buffer: &mut Vec<u8>, s: &str)
    ensures
        final(buffer)@ == old(buffer)@ + str_bin(s@),
{
    let bytes = s.as_bytes();
    write_u32(buffer, bytes.len() as u32);
    let mut b = slice_to_vec(bytes);
    buffer.append(&mut b);
    assert(buffer@ =~= old(buffer)@ + str_bin(s@));
}

fn write_bool(buffer: &mut Vec<u8>, value: bool)
    ensures
        final(buffer)@ == old(buffer)@.push(if value { 1u8 } else { 0u8 }),
{
    buffer.push(if value { 1 } else { 0 });
}

fn serialize_value_binary(buffer: &mut Vec<u8>, value: &Value)
    ensures
        final(buffer)@ == old(buffer)@ + value_bin(*value),
{
    let ghost start = buffer@;
    match value {
        Value::Null => buffer.push(0),
        Value::Bool(b) => {
            buffer.push(1);
            buffer.push(if *b { 1 } else { 0 });
        },
        Value::I32(i) => {
            buffer.push(2);
            write_u32(buffer, *i as u32);
        },
        Value::F32(f) => {
            buffer.push(3);
            write_u32(buffer, *f);
        },
        Value::String(s) => {
            buffer.push(4);
            write_string(buffer, s.as_str());
        },
        _ => {
            // Other values are written as their debug text
            buffer.push(255);
            let text = value_debug_text(value);
            write_string(buffer, text.as_str());
        },
    }
    assert(buffer@ =~= start + value_bin(*value));
}

/// Decodes UTF-8 bytes into a string.
#[verifier::external_body]
pub(crate) fn utf8_to_string(bytes: &[u8]) -> (r: Result<String, String>)
    ensures
        r is Ok <==> valid_utf8(bytes@),
        r matches Ok(s) ==> s@ == decode_utf8(bytes@),
        r matches Err(t) ==> t@ == utf8_error_text(bytes@),
{
    match String::from_utf8(bytes.to_vec()) {
        Ok(s) => Ok(s),
        Err(e) => Err(e.utf8_error().to_string()),
    }
}

fn runtime_error(message: &str) -> (e: Error)
    ensures
        e.kind == ErrorKind::RuntimeError,
        e.message@ == message@,
{
    Error::new(ErrorKind::RuntimeError, message)
}

fn read_u32_exec(data: &[u8], cursor: &mut usize) -> (r: Result<u32, Error>)
    requires
        *old(cursor) <= data@.len(),
    ensures
        match read_u32(data@, *old(cursor) as int) {
            Ok((v, c)) => r == Ok::<u32, Error>(v) && *final(cursor) == c,
            Err(m) => r matches Err(e) && e.kind == ErrorKind::RuntimeError && e.message@ == m,
        },
        *final(cursor) <= data@.len(),
{
    if data.len() - *cursor < 4 {
        proof {
            reveal_strlit("Not enough data for u32");
        }
        return Err(runtime_error("Not enough data for u32"));
    }
    let b = slice_subrange(data, *cursor, *cursor + 4);
    let v = u32_from_le_bytes(b);
    *cursor = *cursor + 4;
    Ok(v)
}

fn read_bool_exec(data: &[u8], cursor: &mut usize) -> (r: Result<bool, Error>)
    requires
        *old(cursor) <= data@.len(),
    ensures
        match read_bool(data@, *old(cursor) as int) {
            Ok((v, c)) => r == Ok::<bool, Error>(v) && *final(cursor) == c,
            Err(m) => r matches Err(e) && e.kind == ErrorKind::RuntimeError && e.message@ == m,
        },
        *final(cursor) <= data@.len(),
{
    if *cursor >= data.len() {
        proof {
            reveal_strlit("Not enough data for bool");
        }
        return Err(runtime_error("Not enough data for bool"));
    }
    let v = data[*cursor] != 0;
    *cursor = *cursor + 1;
    Ok(v)
}

fn read_string_exec(data: &[u8], cursor: &mut usize) -> (r: Result<String, Error>)
    requires
        *old(cursor) <= data@.len(),
    ensures
        match read_string(data@, *old(cursor) as int) {
            Ok((v, c)) => r matches Ok(s) && s@ == v && *final(cursor) == c,
            Err(m) => r matches Err(e) && e.kind == ErrorKind::RuntimeError && e.message@ == m,
        },
        *final(cursor) <= data@.len(),
{
    let len = read_u32_exec(data, cursor)?;
    let len = len as usize;
    if data.len() - *cursor < len {
        proof {
            reveal_strlit("Invalid string length");
        }
        return Err(runtime_error("Invalid string length"));
    }
    let bytes = slice_subrange(data, *cursor, *cursor + len);
    *cursor = *cursor + len;
    match utf8_to_string(bytes) {
        Ok(s) => Ok(s),
        Err(t) => {
            proof {
                reveal_strlit("Invalid UTF-8: ");
            }
            Err(Error::with_message(ErrorKind::RuntimeError, concat("Invalid UTF-8: ", t.as_str())))
        },
    }
}

fn deserialize_value_binary(data: &[u8], cursor: &mut usize) -> (r: Result<Value, Error>)
    requires
        *old(cursor) <= data@.len(),
    ensures
        match read_value(data@, *old(cursor) as int) {
            Ok((v, c)) => r matches Ok(x) && x.model() == v && *final(cursor) == c,
            Err(m) => r matches Err(e) && e.kind == ErrorKind::RuntimeError && e.message@ == m,
        },
        *final(cursor) <= data@.len(),
{
    if *cursor >= data.len() {
        proof {
            reveal_strlit("Not enough data for value type");
        }
        return Err(runtime_error("Not enough data for value type"));
    }
    let value_type = data[*cursor];
    *cursor = *cursor + 1;
    if value_type == 0 {
        Ok(Value::Null)
    } else if value_type == 1 {
        let b = read_bool_exec(data, cursor)?;
        Ok(Value::Bool(b))
    } else if value_type == 2 {
        if data.len() - *cursor < 4 {
            proof {
                reveal_strlit("Not enough data for i32");
            }
            return Err(runtime_error("Not enough data for i32"));
        }
        let b = slice_subrange(data, *cursor, *cursor + 4);
        let v = u32_from_le_bytes(b);
        *cursor = *cursor + 4;
        Ok(Value::I32(v as i32))
    } else if value_type == 3 {
        if data.len() - *cursor < 4 {
            proof {
                reveal_strlit("Not enough data for f32");
            }
            return Err(runtime_error("Not enough data for f32"));
        }
        let b = slice_subrange(data, *cursor, *cursor + 4);
        let v = u32_from_le_bytes(b);
        *cursor = *cursor + 4;
        Ok(Value::F32(v))
    } else if value_type == 4 {
        let s = read_string_exec(data, cursor)?;
        Ok(Value::String(s))
    } else if value_type == 255 {
        // Values written as debug text read back as null
        let _text = read_string_exec(data, cursor)?;
        Ok(Value::Null)
    } else {
        proof {
            reveal_strlit("Unknown value type");
        }
        Err(runtime_error("Unknown value type"))
    }
}


// ---------------------------------------------------------------------
// Lemmas about reading sequences
// ---------------------------------------------------------------------

proof fn lemma_read_strings_err(d: Seq<u8>, c: int, k: nat, n: nat)
    requires
        k <= n,
        read_strings(d, c, k) is Err,
    ensures
        read_strings(d, c, n) == read_strings(d, c, k),
    decreases n,
{
    if n > k {
        lemma_read_strings_err(d, c, k, (n - 1) as nat);
    }
}

proof fn lemma_read_captures_err(d: Seq<u8>, c: int, k: nat, n: nat)
    requires
        k <= n,
        read_captures(d, c, k) is Err,
    ensures
        read_captures(d, c, n) == read_captures(d, c, k),
    decreases n,
{
    if n > k {
        lemma_read_captures_err(d, c, k, (n - 1) as nat);
    }
}

/// Storing into a map and then taking value models is the same as storing
/// the model into the map of models.
pub proof fn lemma_captures_model_insert(s: Seq<(Seq<char>, Value)>, k: Seq<char>, v: Value)
    requires
        keys_distinct(s),
    ensures
        captures_model(insert_model(s, k, v)) == insert_model(captures_model(s), k, v.model()),
        keys_distinct(captures_model(s)),
{
    let m = captures_model(s);
    assert forall|i: int| 0 <= i < m.len() implies #[trigger] m[i].0 == s[i].0 by {}
    assert(keys_distinct(m)) by {
        assert forall|a: int, b: int| 0 <= a < m.len() && 0 <= b < m.len() && a != b implies #[trigger] m[a].0 != #[trigger] m[b].0 by {
            assert(m[a].0 == s[a].0);
            assert(m[b].0 == s[b].0);
        }
    }
    if has_key(s, k) {
        let i = crate::namemap::key_index(s, k);
        crate::namemap::lemma_key_index(m, k, i);
        assert(captures_model(insert_model(s, k, v)) =~= insert_model(m, k, v.model()));
    } else {
        if has_key(m, k) {
            let j = choose|j: int| 0 <= j < m.len() && #[trigger] m[j].0 == k;
            assert(s[j].0 == k);
        }
        assert(captures_model(insert_model(s, k, v)) =~= insert_model(m, k, v.model()));
    }
}

// ---------------------------------------------------------------------
// Binary encoding and decoding of closures
// ---------------------------------------------------------------------

/// Writes the parameters' names.
fn write_params(buffer: &mut Vec<u8>, params: &[String])
    ensures
        final(buffer)@ == old(buffer)@ + strs_bin(strings_view(params@)),
{
    let ghost start = buffer@;
    let ghost ps = strings_view(params@);
    let mut i: usize = 0;
    while i < params.len()
        invariant
            i <= params@.len(),
            ps == strings_view(params@),
            buffer@ == start + strs_bin(ps.subrange(0, i as int)),
        decreases params@.len() - i,
    {
        write_string(buffer, params[i].as_str());
        assert(ps.subrange(0, i + 1).drop_last() =~= ps.subrange(0, i as int));
        assert(buffer@ =~= start + strs_bin(ps.subrange(0, i + 1)));
        i = i + 1;
    }
    assert(ps.subrange(0, params@.len() as int) =~= ps);
}

/// Writes the captures held by a map, in its order.
fn write_captures(buffer: &mut Vec<u8>, caps: &NameMap<Value>)
    ensures
        final(buffer)@ == old(buffer)@ + captures_bin(caps@),
{
    let ghost start = buffer@;
    let n = caps.len();
    let mut i: usize = 0;
    while i < n
        invariant
            i <= n,
            n == caps@.len(),
            buffer@ == start + captures_bin(caps@.subrange(0, i as int)),
        decreases n - i,
    {
        write_string(buffer, caps.key_at(i).as_str());
        serialize_value_binary(buffer, caps.value_at(i));
        assert(caps@.subrange(0, i + 1).drop_last() =~= caps@.subrange(0, i as int));
        assert(buffer@ =~= start + captures_bin(caps@.subrange(0, i + 1)));
        i = i + 1;
    }
    assert(caps@.subrange(0, n as int) =~= caps@);
}

/// Writes the captures held by a capture storage, in its order.
fn write_storage_captures(buffer: &mut Vec<u8>, caps: &CaptureStorage)
    ensures
        final(buffer)@ == old(buffer)@ + captures_bin(caps@),
{
    let ghost start = buffer@;
    let n = caps.len();
    let mut i: usize = 0;
    while i < n
        invariant
            i <= n,
            n == caps@.len(),
            buffer@ == start + captures_bin(caps@.subrange(0, i as int)),
        decreases n - i,
    {
        write_string(buffer, caps.key_at(i).as_str());
        serialize_value_binary(buffer, caps.value_at(i));
        assert(caps@.subrange(0, i + 1).drop_last() =~= caps@.subrange(0, i as int));
        assert(buffer@ =~= start + captures_bin(caps@.subrange(0, i + 1)));
        i = i + 1;
    }
    assert(caps@.subrange(0, n as int) =~= caps@);
}

/// Reads `count` strings.
fn read_strings_exec(data: &[u8], cursor: &mut usize, count: u32) -> (r: Result<Vec<String>, Error>)
    requires
        *old(cursor) <= data@.len(),
    ensures
        match read_strings(data@, *old(cursor) as int, count as nat) {
            Ok((ps, c)) => r matches Ok(v) && strings_view(v@) == ps && *final(cursor) == c,
            Err(m) => r matches Err(e) && e.kind == ErrorKind::RuntimeError && e.message@ == m,
        },
        *final(cursor) <= data@.len(),
{
    let ghost c0 = *cursor as int;
    let mut out: Vec<String> = Vec::new();
    assert(strings_view(out@) =~= Seq::<Seq<char>>::empty());
    let mut i: u32 = 0;
    while i < count
        invariant
            i <= count,
            *cursor <= data@.len(),
            c0 == *old(cursor) as int,
            read_strings(data@, c0, i as nat) == Ok::<(Seq<Seq<char>>, int), Seq<char>>((strings_view(out@), *cursor as int)),
        decreases count - i,
    {
        let ghost before = out@;
        let ghost cb = *cursor as int;
        match read_string_exec(data, cursor) {
            Ok(s) => {
                out.push(s);
                assert(strings_view(out@) =~= strings_view(before).push(s@));
            },
            Err(e) => {
                proof {
                    assert(read_string(data@, cb) is Err);
                    assert(read_strings(data@, c0, (i + 1) as nat) == Err::<(Seq<Seq<char>>, int), Seq<char>>(e.message@));
                    lemma_read_strings_err(data@, c0, (i + 1) as nat, count as nat);

                }
                return Err(e);
            },
        }
        i = i + 1;
    }
    Ok(out)
}

/// Reads `count` captures into a map (a later capture of the same name
/// replaces an earlier one).
fn read_captures_exec(data: &[u8], cursor: &mut usize, count: u32) -> (r: Result<NameMap<Value>, Error>)
    requires
        *old(cursor) <= data@.len(),
    ensures
        match read_captures(data@, *old(cursor) as int, count as nat) {
            Ok((cs, c)) => r matches Ok(m) && captures_model(m@) == insert_all_model(
                Seq::<(Seq<char>, ValueModel)>::empty(),
                cs,
            ) && *final(cursor) == c,
            Err(msg) => r matches Err(e) && e.kind == ErrorKind::RuntimeError && e.message@ == msg,
        },
        *final(cursor) <= data@.len(),
{
    let ghost c0 = *cursor as int;
    let mut map: NameMap<Value> = NameMap::new();
    let ghost mut raw: Seq<(Seq<char>, ValueModel)> = Seq::empty();
    proof {
        assert(captures_model(map@) =~= Seq::<(Seq<char>, ValueModel)>::empty());
    }
    let mut i: u32 = 0;
    while i < count
        invariant
            i <= count,
            *cursor <= data@.len(),
            c0 == *old(cursor) as int,
            read_captures(data@, c0, i as nat) == Ok::<(Seq<(Seq<char>, ValueModel)>, int), Seq<char>>((raw, *cursor as int)),
            captures_model(map@) == insert_all_model(Seq::<(Seq<char>, ValueModel)>::empty(), raw),
            keys_distinct(map@),
        decreases count - i,
    {
        let ghost cb = *cursor as int;
        let name = match read_string_exec(data, cursor) {
            Ok(s) => s,
            Err(e) => {
                proof {
                    assert(read_string(data@, cb) is Err);
                    assert(read_captures(data@, c0, (i + 1) as nat) == Err::<(Seq<(Seq<char>, ValueModel)>, int), Seq<char>>(e.message@));
                    lemma_read_captures_err(data@, c0, (i + 1) as nat, count as nat);
                }
                return Err(e);
            },
        };
        let ghost cn = *cursor as int;
        let value = match deserialize_value_binary(data, cursor) {
            Ok(v) => v,
            Err(e) => {
                proof {
                    assert(read_value(data@, cn) is Err);
                    assert(read_captures(data@, c0, (i + 1) as nat) == Err::<(Seq<(Seq<char>, ValueModel)>, int), Seq<char>>(e.message@));
                    lemma_read_captures_err(data@, c0, (i + 1) as nat, count as nat);
                }
                return Err(e);
            },
        };
        let ghost before = map@;
        let ghost old_raw = raw;
        proof {
            lemma_captures_model_insert(before, name@, value);
            raw = raw.push((name@, value.model()));
            assert(raw.drop_last() =~= old_raw);
        }
        map.insert(name, value);
        i = i + 1;
    }
    Ok(map)
}


/// A closure read back from bytes has the parts that were read: its name,
/// parameters and mode, and the captures stored in read order.
pub open spec fn closure_has_parts(c: Closure, p: ClosureParts) -> bool {
    &&& c.function_id@ == p.id
    &&& strings_view(c.parameters@) == p.params
    &&& c.captures_by_ref == p.by_ref
    &&& captures_model(c.captured_vars@) == insert_all_model(Seq::<(Seq<char>, ValueModel)>::empty(), p.captures)
}

/// Encodes a closure in the binary format, given its captures already
/// encoded.
fn encode_closure_binary(
    function_id: &str,
    parameters: &[String],
    captures_by_ref: bool,
    capture_count: usize,
    capture_bytes: &[u8],
    include_captured_values: bool,
    Ghost(caps): Ghost<Seq<(Seq<char>, Value)>>,
) -> (b: Vec<u8>)
    requires
        capture_count == caps.len(),
        capture_bytes@ == captures_bin(caps),
    ensures
        b@ == closure_bin(function_id@, strings_view(parameters@), captures_by_ref, caps, include_captured_values),
{
    let mut buffer: Vec<u8> = Vec::new();
    // Function ID
    write_string(&mut buffer, function_id);
    // Parameters
    write_u32(&mut buffer, parameters.len() as u32);
    write_params(&mut buffer, parameters);
    // Captures flag
    write_bool(&mut buffer, captures_by_ref);
    // Captured variables if configured
    if include_captured_values {
        write_u32(&mut buffer, capture_count as u32);
        let mut b = slice_to_vec(capture_bytes);
        buffer.append(&mut b);
    } else {
        write_u32(&mut buffer, 0);
    }
    assert(buffer@ =~= closure_bin(function_id@, strings_view(parameters@), captures_by_ref, caps, include_captured_values));
    buffer
}

/// Decodes a closure in the binary format.
fn decode_closure_binary(data: &[u8]) -> (r: Result<(String, Vec<String>, bool, NameMap<Value>), Error>)
    ensures
        match read_closure_bin(data@) {
            Ok(p) => r matches Ok(t) && t.0@ == p.id && strings_view(t.1@) == p.params && t.2 == p.by_ref
                && captures_model(t.3@) == insert_all_model(Seq::<(Seq<char>, ValueModel)>::empty(), p.captures),
            Err(m) => r matches Err(e) && e.kind == ErrorKind::RuntimeError && e.message@ == m,
        },
{
    let mut cursor: usize = 0;
    let function_id = read_string_exec(data, &mut cursor)?;
    let param_count = read_u32_exec(data, &mut cursor)?;
    let parameters = read_strings_exec(data, &mut cursor, param_count)?;
    let captures_by_ref = read_bool_exec(data, &mut cursor)?;
    let capture_count = read_u32_exec(data, &mut cursor)?;
    let captured_vars = read_captures_exec(data, &mut cursor, capture_count)?;
    Ok((function_id, parameters, captures_by_ref, captured_vars))
}

// ---------------------------------------------------------------------
// The compact format
// ---------------------------------------------------------------------

/// A string with a one-byte length (truncated to 8 bits) before its UTF-8
/// bytes.
pub open spec fn compact_str(s: Seq<char>) -> Seq<u8> {
    seq![encode_utf8(s).len() as u8] + encode_utf8(s)
}

pub open spec fn compact_strs(ps: Seq<Seq<char>>) -> Seq<u8>
    decreases ps.len(),
{
    if ps.len() == 0 {
        Seq::empty()
    } else {
        compact_strs(ps.drop_last()) + compact_str(ps.last())
    }
}

/// A value in the compact format; values other than null, booleans, 32-bit
/// numbers and strings are written as the single marker byte 255.
pub open spec fn compact_value(v: Value) -> Seq<u8> {
    match v {
        Value::Null => seq![0u8],
        Value::Bool(b) => seq![1u8, if b { 1u8 } else { 0u8 }],
        Value::I32(i) => seq![2u8] + spec_u32_to_le_bytes(i as u32),
        Value::F32(f) => seq![3u8] + spec_u32_to_le_bytes(f),
        Value::String(s) => seq![4u8] + compact_str(s@),
        _ => seq![255u8],
    }
}

pub open spec fn compact_caps(cs: Seq<(Seq<char>, Value)>) -> Seq<u8>
    decreases cs.len(),
{
    if cs.len() == 0 {
        Seq::empty()
    } else {
        compact_caps(cs.drop_last()) + compact_str(cs.last().0) + compact_value(cs.last().1)
    }
}

/// The flags byte: 1 for capture by reference, 2 when captured values are
/// included, 4 for an optimized closure.
pub open spec fn compact_flags(by_ref: bool, with_values: bool, optimized: bool) -> u8 {
    ((if by_ref { 1int } else { 0int }) + (if with_values { 2int } else { 0int }) + (if optimized { 4int } else { 0int })) as u8
}

/// A closure in the compact format.
pub open spec fn closure_compact(
    id: Seq<char>,
    params: Seq<Seq<char>>,
    by_ref: bool,
    caps: Seq<(Seq<char>, Value)>,
    include_captures: bool,
    optimized: bool,
) -> Seq<u8> {
    seq![compact_flags(by_ref, include_captures, optimized)] + compact_str(id) + seq![params.len() as u8] + compact_strs(params)
        + if include_captures {
        seq![caps.len() as u8] + compact_caps(caps)
    } else {
        Seq::empty()
    }
}

/// Reads a string with a one-byte length at `c`.
pub open spec fn read_short_string(
    d: Seq<u8>,
    c: int,
    truncated: Seq<char>,
    invalid: Seq<char>,
    utf8_prefix: Seq<char>,
) -> Read<Seq<char>> {
    if c >= d.len() {
        Err(truncated)
    } else {
        let n = d[c] as int;
        let c1 = c + 1;
        if c1 + n > d.len() {
            Err(invalid)
        } else if valid_utf8(d.subrange(c1, c1 + n)) {
            Ok((decode_utf8(d.subrange(c1, c1 + n)), c1 + n))
        } else {
            Err(utf8_prefix + utf8_error_text(d.subrange(c1, c1 + n)))
        }
    }
}

pub open spec fn read_compact_params(d: Seq<u8>, c: int, n: nat) -> Read<Seq<Seq<char>>>
    decreases n,
{
    if n == 0 {
        Ok((Seq::empty(), c))
    } else {
        match read_compact_params(d, c, (n - 1) as nat) {
            Err(e) => Err(e),
            Ok((ps, c1)) => match read_short_string(
                d,
                c1,
                "Truncated parameter data"@,
                "Invalid parameter data"@,
                "Invalid parameter UTF-8: "@,
            ) {
                Err(e) => Err(e),
                Ok((p, c2)) => Ok((ps.push(p), c2)),
            },
        }
    }
}

pub open spec fn read_value_compact(d: Seq<u8>, c: int) -> Read<ValueModel> {
    if c >= d.len() {
        Err("Not enough data for value type"@)
    } else {
        let t = d[c];
        let c1 = c + 1;
        if t == 0 {
            Ok((ValueModel::Null, c1))
        } else if t == 1 {
            if c1 >= d.len() {
                Err("Not enough data for bool"@)
            } else {
                Ok((ValueModel::Bool(d[c1] != 0), c1 + 1))
            }
        } else if t == 2 {
            if c1 + 4 > d.len() {
                Err("Not enough data for i32"@)
            } else {
                Ok((ValueModel::I32(spec_u32_from_le_bytes(d.subrange(c1, c1 + 4)) as i32), c1 + 4))
            }
        } else if t == 3 {
            if c1 + 4 > d.len() {
                Err("Not enough data for f32"@)
            } else {
                Ok((ValueModel::F32(spec_u32_from_le_bytes(d.subrange(c1, c1 + 4))), c1 + 4))
            }
        } else if t == 4 {
            match read_short_string(d, c1, "Not enough data for string length"@, "Not enough data for string"@, "Invalid UTF-8: "@) {
                Err(e) => Err(e),
                Ok((s, c2)) => Ok((ValueModel::Str(s), c2)),
            }
        } else if t == 255 {
            Ok((ValueModel::Null, c1))
        } else {
            Err("Unknown value type"@)
        }
    }
}

pub open spec fn read_compact_captures(d: Seq<u8>, c: int, n: nat) -> Read<Seq<(Seq<char>, ValueModel)>>
    decreases n,
{
    if n == 0 {
        Ok((Seq::empty(), c))
    } else {
        match read_compact_captures(d, c, (n - 1) as nat) {
            Err(e) => Err(e),
            Ok((cs, c1)) => match read_short_string(
                d,
                c1,
                "Truncated capture name"@,
                "Invalid capture name"@,
                "Invalid capture name UTF-8: "@,
            ) {
                Err(e) => Err(e),
                Ok((name, c2)) => match read_value_compact(d, c2) {
                    Err(e) => Err(e),
                    Ok((v, c3)) => Ok((cs.push((name, v)), c3)),
                },
            },
        }
    }
}

/// Reads a closure in the compact format (the optimized flag is ignored;
/// bytes after the captures are ignored).
pub open spec fn read_closure_compact(d: Seq<u8>) -> Result<ClosureParts, Seq<char>> {
    if d.len() == 0 {
        Err("Empty compact data"@)
    } else {
        let flags = d[0];
        let by_ref = (flags & 1u8) != 0;
        let with_values = (flags & 2u8) != 0;
        match read_short_string(d, 1, "Invalid compact data"@, "Invalid compact data"@, "Invalid UTF-8: "@) {
            Err(e) => Err(e),
            Ok((id, c1)) => if c1 >= d.len() {
                Err("Truncated compact data"@)
            } else {
                match read_compact_params(d, c1 + 1, d[c1] as nat) {
                    Err(e) => Err(e),
                    Ok((params, c2)) => if !with_values {
                        Ok(ClosureParts { id, params, by_ref, captures: Seq::empty() })
                    } else if c2 >= d.len() {
                        Err("Truncated capture data"@)
                    } else {
                        match read_compact_captures(d, c2 + 1, d[c2] as nat) {
                            Err(e) => Err(e),
                            Ok((caps, _)) => Ok(ClosureParts { id, params, by_ref, captures: caps }),
                        }
                    },
                }
            },
        }
    }
}

fn write_short_string(buffer: &mut Vec<u8>, s: &str)
    ensures
        final(buffer)@ == old(buffer)@ + compact_str(s@),
{
    let bytes = s.as_bytes();
    buffer.push(bytes.len() as u8);
    let mut b = slice_to_vec(bytes);
    buffer.append(&mut b);
    assert(buffer@ =~= old(buffer)@ + compact_str(s@));
}

fn serialize_value_compact(buffer: &mut Vec<u8>, value: &Value)
    ensures
        final(buffer)@ == old(buffer)@ + compact_value(*value),
{
    let ghost start = buffer@;
    match value {
        Value::Null => buffer.push(0),
        Value::Bool(b) => {
            buffer.push(1);
            buffer.push(if *b { 1 } else { 0 });
        },
        Value::I32(i) => {
            buffer.push(2);
            write_u32(buffer, *i as u32);
        },
        Value::F32(f) => {
            buffer.push(3);
            write_u32(buffer, *f);
        },
        Value::String(s) => {
            buffer.push(4);
            write_short_string(buffer, s.as_str());
        },
        _ => {
            // Complex type marker
            buffer.push(255);
        },
    }
    assert(buffer@ =~= start + compact_value(*value));
}

/// Writes captures held by a map in the compact format.
fn write_compact_captures(buffer: &mut Vec<u8>, captures: &NameMap<Value>)
    ensures
        final(buffer)@ == old(buffer)@ + compact_caps(captures@),
{
    let ghost mid2 = buffer@;
    let n = captures.len();
    let mut j: usize = 0;
    while j < n
        invariant
            j <= n,
            n == captures@.len(),
            buffer@ == mid2 + compact_caps(captures@.subrange(0, j as int)),
        decreases n - j,
    {
        write_short_string(buffer, captures.key_at(j).as_str());
        serialize_value_compact(buffer, captures.value_at(j));
        assert(captures@.subrange(0, j + 1).drop_last() =~= captures@.subrange(0, j as int));
        assert(buffer@ =~= mid2 + compact_caps(captures@.subrange(0, j + 1)));
        j = j + 1;
    }
    assert(captures@.subrange(0, n as int) =~= captures@);
}

/// Writes captures held by a capture storage in the compact format.
fn write_compact_storage_captures(buffer: &mut Vec<u8>, captures: &CaptureStorage)
    ensures
        final(buffer)@ == old(buffer)@ + compact_caps(captures@),
{
    let ghost mid2 = buffer@;
    let n = captures.len();
    let mut j: usize = 0;
    while j < n
        invariant
            j <= n,
            n == captures@.len(),
            buffer@ == mid2 + compact_caps(captures@.subrange(0, j as int)),
        decreases n - j,
    {
        write_short_string(buffer, captures.key_at(j).as_str());
        serialize_value_compact(buffer, captures.value_at(j));
        assert(captures@.subrange(0, j + 1).drop_last() =~= captures@.subrange(0, j as int));
        assert(buffer@ =~= mid2 + compact_caps(captures@.subrange(0, j + 1)));
        j = j + 1;
    }
    assert(captures@.subrange(0, n as int) =~= captures@);
}

/// Encodes a closure in the compact format, given its captures already
/// encoded.
fn encode_closure_compact(
    function_id: &str,
    parameters: &[String],
    captures_by_ref: bool,
    capture_count: usize,
    capture_bytes: &[u8],
    include_captured_values: bool,
    optimized: bool,
    Ghost(caps): Ghost<Seq<(Seq<char>, Value)>>,
) -> (b: Vec<u8>)
    requires
        capture_count == caps.len(),
        capture_bytes@ == compact_caps(caps),
    ensures
        b@ == closure_compact(
            function_id@,
            strings_view(parameters@),
            captures_by_ref,
            caps,
            include_captured_values,
            optimized,
        ),
{
    let mut buffer: Vec<u8> = Vec::new();
    // Version and flags byte
    let mut flags: u8 = 0;
    if captures_by_ref {
        flags = flags + 1;
    }
    if include_captured_values {
        flags = flags + 2;
    }
    if optimized {
        flags = flags + 4;
    }
    buffer.push(flags);
    // Function ID (length-prefixed)
    write_short_string(&mut buffer, function_id);
    // Parameters (count + length-prefixed strings)
    buffer.push(parameters.len() as u8);
    let ghost mid = buffer@;
    let ghost ps = strings_view(parameters@);
    let mut i: usize = 0;
    while i < parameters.len()
        invariant
            i <= parameters@.len(),
            ps == strings_view(parameters@),
            buffer@ == mid + compact_strs(ps.subrange(0, i as int)),
        decreases parameters@.len() - i,
    {
        write_short_string(&mut buffer, parameters[i].as_str());
        assert(ps.subrange(0, i + 1).drop_last() =~= ps.subrange(0, i as int));
        assert(buffer@ =~= mid + compact_strs(ps.subrange(0, i + 1)));
        i = i + 1;
    }
    assert(ps.subrange(0, parameters@.len() as int) =~= ps);
    // Captured variables (if included)
    if include_captured_values {
        buffer.push(capture_count as u8);
        let mut b = slice_to_vec(capture_bytes);
        buffer.append(&mut b);
    }
    assert(buffer@ =~= closure_compact(
        function_id@,
        strings_view(parameters@),
        captures_by_ref,
        caps,
        include_captured_values,
        optimized,
    ));
    buffer
}

fn read_short_string_exec(
    data: &[u8],
    cursor: &mut usize,
    truncated: &str,
    invalid: &str,
    utf8_prefix: &str,
) -> (r: Result<String, Error>)
    requires
        *old(cursor) <= data@.len(),
    ensures
        match read_short_string(data@, *old(cursor) as int, truncated@, invalid@, utf8_prefix@) {
            Ok((v, c)) => r matches Ok(s) && s@ == v && *final(cursor) == c,
            Err(m) => r matches Err(e) && e.kind == ErrorKind::RuntimeError && e.message@ == m,
        },
        *final(cursor) <= data@.len(),
{
    if *cursor >= data.len() {
        return Err(runtime_error(truncated));
    }
    let len = data[*cursor] as usize;
    *cursor = *cursor + 1;
    if data.len() - *cursor < len {
        return Err(runtime_error(invalid));
    }
    let bytes = slice_subrange(data, *cursor, *cursor + len);
    *cursor = *cursor + len;
    match utf8_to_string(bytes) {
        Ok(s) => Ok(s),
        Err(t) => Err(Error::with_message(ErrorKind::RuntimeError, concat(utf8_prefix, t.as_str()))),
    }
}

proof fn lemma_read_compact_params_err(d: Seq<u8>, c: int, k: nat, n: nat)
    requires
        k <= n,
        read_compact_params(d, c, k) is Err,
    ensures
        read_compact_params(d, c, n) == read_compact_params(d, c, k),
    decreases n,
{
    if n > k {
        lemma_read_compact_params_err(d, c, k, (n - 1) as nat);
    }
}

proof fn lemma_read_compact_captures_err(d: Seq<u8>, c: int, k: nat, n: nat)
    requires
        k <= n,
        read_compact_captures(d, c, k) is Err,
    ensures
        read_compact_captures(d, c, n) == read_compact_captures(d, c, k),
    decreases n,
{
    if n > k {
        lemma_read_compact_captures_err(d, c, k, (n - 1) as nat);
    }
}

fn deserialize_value_compact(data: &[u8], cursor: &mut usize) -> (r: Result<Value, Error>)
    requires
        *old(cursor) <= data@.len(),
    ensures
        match read_value_compact(data@, *old(cursor) as int) {
            Ok((v, c)) => r matches Ok(x) && x.model() == v && *final(cursor) == c,
            Err(m) => r matches Err(e) && e.kind == ErrorKind::RuntimeError && e.message@ == m,
        },
        *final(cursor) <= data@.len(),
{
    if *cursor >= data.len() {
        proof {
            reveal_strlit("Not enough data for value type");
        }
        return Err(runtime_error("Not enough data for value type"));
    }
    let value_type = data[*cursor];
    *cursor = *cursor + 1;
    if value_type == 0 {
        Ok(Value::Null)
    } else if value_type == 1 {
        if *cursor >= data.len() {
            proof {
                reveal_strlit("Not enough data for bool");
            }
            return Err(runtime_error("Not enough data for bool"));
        }
        let b = data[*cursor] != 0;
        *cursor = *cursor + 1;
        Ok(Value::Bool(b))
    } else if value_type == 2 {
        if data.len() - *cursor < 4 {
            proof {
                reveal_strlit("Not enough data for i32");
            }
            return Err(runtime_error("Not enough data for i32"));
        }
        let b = slice_subrange(data, *cursor, *cursor + 4);
        let v = u32_from_le_bytes(b);
        *cursor = *cursor + 4;
        Ok(Value::I32(v as i32))
    } else if value_type == 3 {
        if data.len() - *cursor < 4 {
            proof {
                reveal_strlit("Not enough data for f32");
            }
            return Err(runtime_error("Not enough data for f32"));
        }
        let b = slice_subrange(data, *cursor, *cursor + 4);
        let v = u32_from_le_bytes(b);
        *cursor = *cursor + 4;
        Ok(Value::F32(v))
    } else if value_type == 4 {
        let s = read_short_string_exec(
            data,
            cursor,
            "Not enough data for string length",
            "Not enough data for string",
            "Invalid UTF-8: ",
        )?;
        Ok(Value::String(s))
    } else if value_type == 255 {
        // Complex value - reads back as null
        Ok(Value::Null)
    } else {
        proof {
            reveal_strlit("Unknown value type");
        }
        Err(runtime_error("Unknown value type"))
    }
}

/// Decodes a closure in the compact format. A single byte of input is not
/// accepted (the function name's length byte would be missing).
#[verifier::loop_isolation(false)]
fn decode_closure_compact(data: &[u8]) -> (r: Result<(String, Vec<String>, bool, NameMap<Value>), Error>)
    requires
        data@.len() != 1,
    ensures
        match read_closure_compact(data@) {
            Ok(p) => r matches Ok(t) && t.0@ == p.id && strings_view(t.1@) == p.params && t.2 == p.by_ref
                && captures_model(t.3@) == insert_all_model(Seq::<(Seq<char>, ValueModel)>::empty(), p.captures),
            Err(m) => r matches Err(e) && e.kind == ErrorKind::RuntimeError && e.message@ == m,
        },
{
    if data.len() == 0 {
        proof {
            reveal_strlit("Empty compact data");
        }
        return Err(runtime_error("Empty compact data"));
    }
    let mut cursor: usize = 0;
    // Read flags
    let flags = data[cursor];
    cursor = cursor + 1;
    let captures_by_ref = (flags & 0x01) != 0;
    let has_captured_values = (flags & 0x02) != 0;
    // Read function ID
    let function_id = read_short_string_exec(
        data,
        &mut cursor,
        "Invalid compact data",
        "Invalid compact data",
        "Invalid UTF-8: ",
    )?;
    // Read parameters
    if cursor >= data.len() {
        proof {
            reveal_strlit("Truncated compact data");
        }
        return Err(runtime_error("Truncated compact data"));
    }
    let param_count = data[cursor];
    cursor = cursor + 1;
    let ghost c0 = cursor as int;
    let mut parameters: Vec<String> = Vec::new();
    assert(strings_view(parameters@) =~= Seq::<Seq<char>>::empty());
    let mut i: u8 = 0;
    while i < param_count
        invariant
            i <= param_count,
            cursor <= data@.len(),
            read_compact_params(data@, c0, i as nat) == Ok::<(Seq<Seq<char>>, int), Seq<char>>((strings_view(parameters@), cursor as int)),
        decreases param_count - i,
    {
        let ghost before = parameters@;
        let ghost cb = cursor as int;
        match read_short_string_exec(
            data,
            &mut cursor,
            "Truncated parameter data",
            "Invalid parameter data",
            "Invalid parameter UTF-8: ",
        ) {
            Ok(p) => {
                parameters.push(p);
                assert(strings_view(parameters@) =~= strings_view(before).push(p@));
            },
            Err(e) => {
                proof {
                    reveal_strlit("Truncated parameter data");
                    reveal_strlit("Invalid parameter data");
                    reveal_strlit("Invalid parameter UTF-8: ");
                    assert(read_compact_params(data@, c0, (i + 1) as nat) == Err::<(Seq<Seq<char>>, int), Seq<char>>(e.message@));
                    lemma_read_compact_params_err(data@, c0, (i + 1) as nat, param_count as nat);
                }
                return Err(e);
            },
        }
        i = i + 1;
    }
    proof {
        reveal_strlit("Truncated parameter data");
        reveal_strlit("Invalid parameter data");
        reveal_strlit("Invalid parameter UTF-8: ");
        reveal_strlit("Invalid compact data");
        reveal_strlit("Invalid UTF-8: ");
        assert((flags & 1u8) != 0 == captures_by_ref);
        assert((flags & 2u8) != 0 == has_captured_values);
    }
    // Read captured variables
    let mut captured_vars: NameMap<Value> = NameMap::new();
    if has_captured_values {
        if cursor >= data.len() {
            proof {
                reveal_strlit("Truncated capture data");
            }
            return Err(runtime_error("Truncated capture data"));
        }
        let capture_count = data[cursor];
        cursor = cursor + 1;
        let ghost c1 = cursor as int;
        let ghost mut raw: Seq<(Seq<char>, ValueModel)> = Seq::empty();
        proof {
            assert(captures_model(captured_vars@) =~= Seq::<(Seq<char>, ValueModel)>::empty());
        }
        let mut j: u8 = 0;
        while j < capture_count
            invariant
                j <= capture_count,
                cursor <= data@.len(),
                read_compact_captures(data@, c1, j as nat) == Ok::<(Seq<(Seq<char>, ValueModel)>, int), Seq<char>>((raw, cursor as int)),
                captures_model(captured_vars@) == insert_all_model(Seq::<(Seq<char>, ValueModel)>::empty(), raw),
                keys_distinct(captured_vars@),
            decreases capture_count - j,
        {
            let ghost cb = cursor as int;
            let name = match read_short_string_exec(
                data,
                &mut cursor,
                "Truncated capture name",
                "Invalid capture name",
                "Invalid capture name UTF-8: ",
            ) {
                Ok(s) => s,
                Err(e) => {
                    proof {
                        reveal_strlit("Truncated capture name");
                        reveal_strlit("Invalid capture name");
                        reveal_strlit("Invalid capture name UTF-8: ");
                        assert(read_compact_captures(data@, c1, (j + 1) as nat) == Err::<(Seq<(Seq<char>, ValueModel)>, int), Seq<char>>(e.message@));
                        lemma_read_compact_captures_err(data@, c1, (j + 1) as nat, capture_count as nat);
                    }
                    return Err(e);
                },
            };
            let ghost cn = cursor as int;
            let value = match deserialize_value_compact(data, &mut cursor) {
                Ok(v) => v,
                Err(e) => {
                    proof {
                        reveal_strlit("Truncated capture name");
                        reveal_strlit("Invalid capture name");
                        reveal_strlit("Invalid capture name UTF-8: ");
                        assert(read_compact_captures(data@, c1, (j + 1) as nat) == Err::<(Seq<(Seq<char>, ValueModel)>, int), Seq<char>>(e.message@));
                        lemma_read_compact_captures_err(data@, c1, (j + 1) as nat, capture_count as nat);
                    }
                    return Err(e);
                },
            };
            let ghost before = captured_vars@;
            let ghost old_raw = raw;
            proof {
                reveal_strlit("Truncated capture name");
                reveal_strlit("Invalid capture name");
                reveal_strlit("Invalid capture name UTF-8: ");
                lemma_captures_model_insert(before, name@, value);
                raw = raw.push((name@, value.model()));
                assert(raw.drop_last() =~= old_raw);
            }
            captured_vars.insert(name, value);
            j = j + 1;
        }
    } else {
        proof {
            assert(captures_model(captured_vars@) =~= Seq::<(Seq<char>, ValueModel)>::empty());
        }
    }
    Ok((function_id, parameters, captures_by_ref, captured_vars))
}

// ---------------------------------------------------------------------
// Serialized closures, metadata and the serializer
// ---------------------------------------------------------------------

/// Serialization format for closures
#[derive(Debug, Clone, Copy, PartialEq, Eq, Structural)]
pub enum SerializationFormat {
    /// Binary format for performance
    Binary,
    /// JSON format for interoperability
    Json,
    /// Custom compact format optimized for closures
    Compact,
}

/// Metadata about a serialized closure
#[derive(Debug, Clone)]
pub struct ClosureMetadata {
    /// Function ID
    pub function_id: String,
    /// Parameter count
    pub param_count: usize,
    /// Number of captured variables
    pub capture_count: usize,
    /// Whether captures are by reference
    pub captures_by_ref: bool,
    /// Serialization timestamp
    pub timestamp: u64,
    /// Version of the serialization format
    pub version: u8,
    /// Whether this is an optimized closure
    pub is_optimized: bool,
}

/// Serialized closure data
#[derive(Debug, Clone)]
pub struct SerializedClosure {
    /// Serialization format used
    pub format: SerializationFormat,
    /// The serialized data
    pub data: Vec<u8>,
    /// Metadata about the closure
    pub metadata: ClosureMetadata,
}

/// Configuration for closure serialization
#[derive(Debug, Clone)]
pub struct SerializationConfig {
    /// Include captured variable values in serialization
    pub include_captured_values: bool,
    /// Compress the serialized data
    pub compress: bool,
    /// Maximum size limit for serialized data (bytes)
    pub max_size_bytes: usize,
    /// Include debug information
    pub include_debug_info: bool,
    /// Validate deserialized closures
    pub validate_on_deserialize: bool,
}

impl Default for SerializationConfig {
    /// Captured values included, compression on, a 1 MiB limit, no debug
    /// information, validation on.
    fn default() -> (c: Self)
        ensures
            c.include_captured_values,
            c.compress,
            c.max_size_bytes == 1048576,
            !c.include_debug_info,
            c.validate_on_deserialize,
    {
        SerializationConfig {
            include_captured_values: true,
            compress: true,
            max_size_bytes: 1048576,
            include_debug_info: false,
            validate_on_deserialize: true,
        }
    }
}

/// The bytes of a closure in the binary or the compact format (the JSON
/// format has no byte-level description here).
pub open spec fn closure_bytes(
    format: SerializationFormat,
    include_captures: bool,
    id: Seq<char>,
    params: Seq<Seq<char>>,
    by_ref: bool,
    caps: Seq<(Seq<char>, Value)>,
    optimized: bool,
) -> Seq<u8> {
    if format == SerializationFormat::Compact {
        closure_compact(id, params, by_ref, caps, include_captures, optimized)
    } else {
        closure_bin(id, params, by_ref, caps, include_captures)
    }
}

/// Reads a closure back in any of the formats.
pub open spec fn read_closure_bytes(format: SerializationFormat, d: Seq<u8>) -> Result<ClosureParts, Seq<char>> {
    match format {
        SerializationFormat::Compact => read_closure_compact(d),
        SerializationFormat::Json => read_closure_json(d),
        SerializationFormat::Binary => read_closure_bin(d),
    }
}

/// The bytes of a closure in any of the formats, or the error of the JSON
/// format.
pub open spec fn closure_data(
    format: SerializationFormat,
    include_captures: bool,
    id: Seq<char>,
    params: Seq<Seq<char>>,
    by_ref: bool,
    caps: Seq<(Seq<char>, Value)>,
    optimized: bool,
) -> Result<Seq<u8>, Seq<char>> {
    if format == SerializationFormat::Json {
        closure_json(id, params, by_ref, caps, include_captures, optimized)
    } else {
        Ok(closure_bytes(format, include_captures, id, params, by_ref, caps, optimized))
    }
}

/// Data in the JSON format that is UTF-8 text from which every plain
/// document written as that text reads back.
pub open spec fn json_text_reads_back(format: SerializationFormat, d: Seq<u8>) -> bool {
    format == SerializationFormat::Json && valid_utf8(d) ==> json_reads_back(decode_utf8(d))
}

/// The message of the error for data over the size limit.
pub open spec fn size_limit_message(optimized: bool, size: nat, limit: nat) -> Seq<char> {
    (if optimized { "Serialized optimized closure exceeds size limit: "@ } else { "Serialized closure exceeds size limit: "@ })
        + decimal(size) + " > "@ + decimal(limit) + " bytes"@
}

/// The message of the error for a format version this library cannot read.
pub open spec fn version_message(version: u8) -> Seq<char> {
    "Unsupported serialization version: "@ + decimal(version as nat)
}

/// The message of the error for reading a plain closure as an optimized one.
pub open spec fn not_optimized_message() -> Seq<char> {
    "Cannot deserialize non-optimized closure as optimized closure"@
}

/// What validation rejects: empty data, then a version above 1.
pub open spec fn validation_error(validate: bool, data_len: nat, version: u8) -> Option<Seq<char>> {
    if !validate {
        None
    } else if data_len == 0 {
        Some("Empty serialized data"@)
    } else if version > 1 {
        Some(version_message(version))
    } else {
        None
    }
}

/// Whether a read of a closure in `format` ends in a panic of the index
/// operation: one byte of compact data has no length byte for the name.
pub open spec fn compact_read_panics(format: SerializationFormat, data_len: nat) -> bool {
    format == SerializationFormat::Compact && data_len == 1
}

/// The metadata recorded for a closure with these parts.
pub open spec fn metadata_matches(
    m: ClosureMetadata,
    id: Seq<char>,
    param_count: nat,
    capture_count: nat,
    by_ref: bool,
    optimized: bool,
) -> bool {
    &&& m.function_id@ == id
    &&& m.param_count == param_count
    &&& m.capture_count == capture_count
    &&& m.captures_by_ref == by_ref
    &&& m.version == 1
    &&& m.is_optimized == optimized
}

/// What serializing a closure with these parts gives, for a format and a
/// configuration: the JSON error, the size-limit error, or the encoded
/// bytes with their metadata.
pub open spec fn serialization_result(
    format: SerializationFormat,
    include_captures: bool,
    max_size: nat,
    id: Seq<char>,
    params: Seq<Seq<char>>,
    by_ref: bool,
    caps: Seq<(Seq<char>, Value)>,
    optimized: bool,
    r: Result<SerializedClosure, Error>,
) -> bool {
    match closure_data(format, include_captures, id, params, by_ref, caps, optimized) {
        Err(m) => r matches Err(e) && e.kind == ErrorKind::RuntimeError && e.message@ == m,
        Ok(data) => if data.len() > max_size {
            r matches Err(e) && e.kind == ErrorKind::RuntimeError && e.message@ == size_limit_message(
                optimized,
                data.len(),
                max_size,
            )
        } else {
            r matches Ok(s) && s.format == format && s.data@ == data && metadata_matches(
                s.metadata,
                id,
                params.len(),
                caps.len(),
                by_ref,
                optimized,
            ) && (format == SerializationFormat::Json ==> data.len() > 0)
        },
    }
}

/// What reading a serialized closure gives: the validation error, the JSON
/// error, the read error, or a closure with the parts read.
pub open spec fn closure_read_result(validate: bool, serialized: SerializedClosure, r: Result<Closure, Error>) -> bool {
    match validation_error(validate, serialized.data@.len(), serialized.metadata.version) {
        Some(m) => r matches Err(e) && e.kind == ErrorKind::RuntimeError && e.message@ == m,
        None => json_text_reads_back(serialized.format, serialized.data@) && match read_closure_bytes(
            serialized.format,
            serialized.data@,
        ) {
            Ok(p) => r matches Ok(c) && closure_has_parts(c, p),
            Err(m) => r matches Err(e) && e.kind == ErrorKind::RuntimeError && e.message@ == m,
        },
    }
}

/// An optimized closure read back from bytes has the parts that were read,
/// its function name interned from `before` into `after`.
pub open spec fn optimized_has_parts(
    c: OptimizedClosure,
    p: ClosureParts,
    before: FunctionIdCache,
    after: FunctionIdCache,
) -> bool {
    &&& interned(before, after, p.id, c.function_id.spec_id())
    &&& strings_view(c.parameters@) == p.params
    &&& c.captures_by_ref == p.by_ref
    &&& captures_model(c.captured_vars@) == insert_all_model(Seq::<(Seq<char>, ValueModel)>::empty(), p.captures)
}

/// The error, if any, that comes before an optimized closure is read.
pub open spec fn optimized_read_error(validate: bool, serialized: SerializedClosure) -> Option<Seq<char>> {
    match validation_error(validate, serialized.data@.len(), serialized.metadata.version) {
        Some(m) => Some(m),
        None => if !serialized.metadata.is_optimized {
            Some(not_optimized_message())
        } else {
            None
        },
    }
}

/// What reading a serialized optimized closure gives; the cache changes
/// only when a closure is returned.
pub open spec fn optimized_read_result(
    validate: bool,
    serialized: SerializedClosure,
    cache_before: FunctionIdCache,
    cache_after: FunctionIdCache,
    r: Result<OptimizedClosure, Error>,
) -> bool {
    match optimized_read_error(validate, serialized) {
        Some(m) => r matches Err(e) && e.kind == ErrorKind::RuntimeError && e.message@ == m && cache_after == cache_before,
        None => json_text_reads_back(serialized.format, serialized.data@) && match read_closure_bytes(
            serialized.format,
            serialized.data@,
        ) {
            Ok(p) => r matches Ok(c) && optimized_has_parts(c, p, cache_before, cache_after),
            Err(m) => r matches Err(e) && e.kind == ErrorKind::RuntimeError && e.message@ == m && cache_after
                == cache_before,
        },
    }
}

/// The seconds since the Unix epoch on the system clock (zero if the clock
/// is before the epoch).
#[verifier::external_body]
fn current_timestamp() -> u64 {
    std::time::SystemTime::now().duration_since(std::time::UNIX_EPOCH).unwrap_or_default().as_secs()
}

/// The text of a size-limit error.
fn size_limit_error(optimized: bool, size: usize, limit: usize) -> (e: Error)
    ensures
        e.kind == ErrorKind::RuntimeError,
        e.message@ == size_limit_message(optimized, size as nat, limit as nat),
{
    let head = if optimized {
        "Serialized optimized closure exceeds size limit: "
    } else {
        "Serialized closure exceeds size limit: "
    };
    let a = usize_to_text(size);
    let b = usize_to_text(limit);
    let msg = concat4(head, a.as_str(), " > ", b.as_str());
    let msg = concat(msg.as_str(), " bytes");
    proof {
        reveal_strlit("Serialized optimized closure exceeds size limit: ");
        reveal_strlit("Serialized closure exceeds size limit: ");
        reveal_strlit(" > ");
        reveal_strlit(" bytes");
    }
    Error::with_message(ErrorKind::RuntimeError, msg)
}

/// The error that validation gives, if any.
fn validate_serialized_data(validate: bool, serialized: &SerializedClosure) -> (r: Result<(), Error>)
    ensures
        match validation_error(validate, serialized.data@.len(), serialized.metadata.version) {
            Some(m) => r matches Err(e) && e.kind == ErrorKind::RuntimeError && e.message@ == m,
            None => r is Ok,
        },
{
    if !validate {
        return Ok(());
    }
    if serialized.data.len() == 0 {
        proof {
            reveal_strlit("Empty serialized data");
        }
        return Err(runtime_error("Empty serialized data"));
    }
    if serialized.metadata.version > 1 {
        let v = usize_to_text(serialized.metadata.version as usize);
        proof {
            reveal_strlit("Unsupported serialization version: ");
        }
        let msg = concat("Unsupported serialization version: ", v.as_str());
        return Err(Error::with_message(ErrorKind::RuntimeError, msg));
    }
    Ok(())
}

/// The name recorded for an optimized closure: its interned name, or "#N".
fn function_label_text(id: u32, cache: &FunctionIdCache) -> (s: String)
    ensures
        s@ == function_label(*cache, id),
{
    match cache.get_string(id) {
        Some(name) => name,
        None => {
            let n = usize_to_text(id as usize);
            proof {
                reveal_strlit("#");
            }
            concat("#", n.as_str())
        },
    }
}

/// Closure serializer with different format support
pub struct ClosureSerializer {
    /// Default serialization format
    default_format: SerializationFormat,
    /// Configuration options
    config: SerializationConfig,
}

impl ClosureSerializer {
    /// The format this serializer writes.
    pub closed spec fn format(&self) -> SerializationFormat {
        self.default_format
    }

    /// The configuration of this serializer.
    pub closed spec fn settings(&self) -> SerializationConfig {
        self.config
    }

    /// Create a new closure serializer
    pub fn new(format: SerializationFormat) -> (s: Self)
        ensures
            s.format() == format,
            s.settings().include_captured_values,
            s.settings().compress,
            s.settings().max_size_bytes == 1048576,
            !s.settings().include_debug_info,
            s.settings().validate_on_deserialize,
    {
        ClosureSerializer { default_format: format, config: SerializationConfig::default() }
    }

    /// Create a serializer with custom configuration
    pub fn with_config(format: SerializationFormat, config: SerializationConfig) -> (s: Self)
        ensures
            s.format() == format,
            s.settings() == config,
    {
        ClosureSerializer { default_format: format, config }
    }

    /// Wraps encoded data with its metadata, refusing data over the size
    /// limit.
    pub fn seal(&self, data: Vec<u8>, metadata: ClosureMetadata) -> (r: Result<SerializedClosure, Error>)
        ensures
            data@.len() > self.settings().max_size_bytes ==> (r matches Err(e) && e.kind == ErrorKind::RuntimeError
                && e.message@ == size_limit_message(metadata.is_optimized, data@.len(), self.settings().max_size_bytes as nat)),
            data@.len() <= self.settings().max_size_bytes ==> (r matches Ok(s) && s.format == self.format()
                && s.data@ == data@ && s.metadata == metadata),
    {
        if data.len() > self.config.max_size_bytes {
            return Err(size_limit_error(metadata.is_optimized, data.len(), self.config.max_size_bytes));
        }
        Ok(SerializedClosure { format: self.default_format, data, metadata })
    }

    /// The bytes of a closure in this serializer's format.
    fn closure_data(&self, closure: &Closure) -> (d: Vec<u8>)
        ensures
            d@ == closure_bytes(
                self.format(),
                self.settings().include_captured_values,
                closure.function_id@,
                strings_view(closure.parameters@),
                closure.captures_by_ref,
                closure.captured_vars@,
                false,
            ),
    {
        let with_values = self.config.include_captured_values;
        let mut caps: Vec<u8> = Vec::new();
        if self.default_format == SerializationFormat::Compact {
            write_compact_captures(&mut caps, &closure.captured_vars);
            encode_closure_compact(
                closure.function_id.as_str(),
                closure.parameters.as_slice(),
                closure.captures_by_ref,
                closure.captured_vars.len(),
                caps.as_slice(),
                with_values,
                false,
                Ghost(closure.captured_vars@),
            )
        } else {
            write_captures(&mut caps, &closure.captured_vars);
            encode_closure_binary(
                closure.function_id.as_str(),
                closure.parameters.as_slice(),
                closure.captures_by_ref,
                closure.captured_vars.len(),
                caps.as_slice(),
                with_values,
                Ghost(closure.captured_vars@),
            )
        }
    }

    /// The bytes of an optimized closure in this serializer's format.
    fn optimized_closure_data(&self, closure: &OptimizedClosure, cache: &FunctionIdCache) -> (d: Vec<u8>)
        ensures
            d@ == closure_bytes(
                self.format(),
                self.settings().include_captured_values,
                function_label(*cache, closure.function_id.spec_id()),
                strings_view(closure.parameters@),
                closure.captures_by_ref,
                closure.captured_vars@,
                true,
            ),
    {
        let with_values = self.config.include_captured_values;
        let name = function_label_text(closure.function_id.id(), cache);
        let mut caps: Vec<u8> = Vec::new();
        if self.default_format == SerializationFormat::Compact {
            write_compact_storage_captures(&mut caps, &closure.captured_vars);
            encode_closure_compact(
                name.as_str(),
                closure.parameters.as_slice(),
                closure.captures_by_ref,
                closure.captured_vars.len(),
                caps.as_slice(),
                with_values,
                true,
                Ghost(closure.captured_vars@),
            )
        } else {
            write_storage_captures(&mut caps, &closure.captured_vars);
            encode_closure_binary(
                name.as_str(),
                closure.parameters.as_slice(),
                closure.captures_by_ref,
                closure.captured_vars.len(),
                caps.as_slice(),
                with_values,
                Ghost(closure.captured_vars@),
            )
        }
    }

    /// Serialize a closure
    pub fn serialize_closure(&self, closure: &Closure) -> (r: Result<SerializedClosure, Error>)
        ensures
            serialization_result(
                self.format(),
                self.settings().include_captured_values,
                self.settings().max_size_bytes as nat,
                closure.function_id@,
                strings_view(closure.parameters@),
                closure.captures_by_ref,
                closure.captured_vars@,
                false,
                r,
            ),
    {
        let metadata = ClosureMetadata {
            function_id: copy_text(closure.function_id.as_str()),
            param_count: closure.parameters.len(),
            capture_count: closure.captured_vars.len(),
            captures_by_ref: closure.captures_by_ref,
            timestamp: current_timestamp(),
            version: 1,
            is_optimized: false,
        };
        let data = if self.default_format == SerializationFormat::Json {
            let with_values = self.config.include_captured_values;
            let members = if with_values {
                match map_json_members(&closure.captured_vars) {
                    Some(m) => m,
                    None => {
                        proof {
                            reveal_strlit("JSON encoding of 32-bit floating-point values is not supported");
                        }
                        return Err(runtime_error("JSON encoding of 32-bit floating-point values is not supported"));
                    },
                }
            } else {
                Vec::new()
            };
            encode_closure_json(
                closure.function_id.as_str(),
                closure.parameters.as_slice(),
                closure.captures_by_ref,
                members,
                with_values,
                false,
                Ghost(closure.captured_vars@),
            )?
        } else {
            self.closure_data(closure)
        };
        self.seal(data, metadata)
    }

    /// Serialize an optimized closure, naming its function from `cache`
    pub fn serialize_optimized_closure(
        &self,
        closure: &OptimizedClosure,
        cache: &FunctionIdCache,
    ) -> (r: Result<SerializedClosure, Error>)
        ensures
            serialization_result(
                self.format(),
                self.settings().include_captured_values,
                self.settings().max_size_bytes as nat,
                function_label(*cache, closure.function_id.spec_id()),
                strings_view(closure.parameters@),
                closure.captures_by_ref,
                closure.captured_vars@,
                true,
                r,
            ),
    {
        let metadata = ClosureMetadata {
            function_id: function_label_text(closure.function_id.id(), cache),
            param_count: closure.parameters.len(),
            capture_count: closure.captured_vars.len(),
            captures_by_ref: closure.captures_by_ref,
            timestamp: current_timestamp(),
            version: 1,
            is_optimized: true,
        };
        let data = if self.default_format == SerializationFormat::Json {
            let with_values = self.config.include_captured_values;
            let members = if with_values {
                match storage_json_members(&closure.captured_vars) {
                    Some(m) => m,
                    None => {
                        proof {
                            reveal_strlit("JSON encoding of 32-bit floating-point values is not supported");
                        }
                        return Err(runtime_error("JSON encoding of 32-bit floating-point values is not supported"));
                    },
                }
            } else {
                Vec::new()
            };
            let name = function_label_text(closure.function_id.id(), cache);
            encode_closure_json(
                name.as_str(),
                closure.parameters.as_slice(),
                closure.captures_by_ref,
                members,
                with_values,
                true,
                Ghost(closure.captured_vars@),
            )?
        } else {
            self.optimized_closure_data(closure, cache)
        };
        self.seal(data, metadata)
    }
    /// Deserialize into a closure
    pub fn deserialize_closure(&self, serialized: &SerializedClosure) -> (r: Result<Closure, Error>)
        requires
            validation_error(self.settings().validate_on_deserialize, serialized.data@.len(), serialized.metadata.version)
                is None ==> !compact_read_panics(serialized.format, serialized.data@.len()),
        ensures
            closure_read_result(self.settings().validate_on_deserialize, *serialized, r),
    {
        validate_serialized_data(self.config.validate_on_deserialize, serialized)?;
        let parts = match serialized.format {
            SerializationFormat::Json => decode_closure_json(serialized.data.as_slice()),
            SerializationFormat::Binary => decode_closure_binary(serialized.data.as_slice()),
            SerializationFormat::Compact => decode_closure_compact(serialized.data.as_slice()),
        };
        let (function_id, parameters, captures_by_ref, captured_vars) = parts?;
        if captures_by_ref {
            Ok(Closure::new_by_ref(function_id, parameters, captured_vars))
        } else {
            Ok(Closure::new(function_id, parameters, captured_vars))
        }
    }

    /// Deserialize into an optimized closure, interning its function name in
    /// `cache`
    pub fn deserialize_optimized_closure(
        &self,
        serialized: &SerializedClosure,
        cache: &mut FunctionIdCache,
    ) -> (r: Result<OptimizedClosure, Error>)
        requires
            old(cache).wf(),
            optimized_read_error(self.settings().validate_on_deserialize, *serialized) is None ==> !compact_read_panics(
                serialized.format,
                serialized.data@.len(),
            ),
        ensures
            final(cache).wf(),
            optimized_read_result(self.settings().validate_on_deserialize, *serialized, *old(cache), *final(cache), r),
    {
        validate_serialized_data(self.config.validate_on_deserialize, serialized)?;
        if !serialized.metadata.is_optimized {
            proof {
                reveal_strlit("Cannot deserialize non-optimized closure as optimized closure");
            }
            return Err(runtime_error("Cannot deserialize non-optimized closure as optimized closure"));
        }
        let parts = match serialized.format {
            SerializationFormat::Json => decode_closure_json(serialized.data.as_slice()),
            SerializationFormat::Binary => decode_closure_binary(serialized.data.as_slice()),
            SerializationFormat::Compact => decode_closure_compact(serialized.data.as_slice()),
        };
        let (function_id, parameters, captures_by_ref, captured_vars) = parts?;
        let ghost caps = captured_vars@;
        let pairs = captured_vars.into_pairs();
        proof {
            lemma_insert_all_of_distinct(caps);
        }
        if captures_by_ref {
            Ok(OptimizedClosure::new_by_ref(function_id, parameters, pairs, cache))
        } else {
            Ok(OptimizedClosure::new(function_id, parameters, pairs, cache))
        }
    }
}

/// Serialize a closure in the binary format with the default configuration
pub fn serialize_closure_binary(closure: &Closure) -> (r: Result<SerializedClosure, Error>)
    ensures
        serialization_result(
            SerializationFormat::Binary,
            true,
            1048576,
            closure.function_id@,
            strings_view(closure.parameters@),
            closure.captures_by_ref,
            closure.captured_vars@,
            false,
            r,
        ),
{
    let serializer = ClosureSerializer::new(SerializationFormat::Binary);
    serializer.serialize_closure(closure)
}

/// Serialize a closure in the JSON format with the default configuration
pub fn serialize_closure_json(closure: &Closure) -> (r: Result<SerializedClosure, Error>)
    ensures
        serialization_result(
            SerializationFormat::Json,
            true,
            1048576,
            closure.function_id@,
            strings_view(closure.parameters@),
            closure.captures_by_ref,
            closure.captured_vars@,
            false,
            r,
        ),
{
    let serializer = ClosureSerializer::new(SerializationFormat::Json);
    serializer.serialize_closure(closure)
}

/// Serialize a closure in the compact format with the default configuration
pub fn serialize_closure_compact(closure: &Closure) -> (r: Result<SerializedClosure, Error>)
    ensures
        serialization_result(
            SerializationFormat::Compact,
            true,
            1048576,
            closure.function_id@,
            strings_view(closure.parameters@),
            closure.captures_by_ref,
            closure.captured_vars@,
            false,
            r,
        ),
{
    let serializer = ClosureSerializer::new(SerializationFormat::Compact);
    serializer.serialize_closure(closure)
}

/// Deserialize a closure in its recorded format with the default
/// configuration
pub fn deserialize_closure(serialized: &SerializedClosure) -> (r: Result<Closure, Error>)
    requires
        validation_error(true, serialized.data@.len(), serialized.metadata.version) is None ==> !compact_read_panics(
            serialized.format,
            serialized.data@.len(),
        ),
    ensures
        closure_read_result(true, *serialized, r),
{
    let serializer = ClosureSerializer::new(serialized.format);
    serializer.deserialize_closure(serialized)
}

/// Serialize an optimized closure in the binary format with the default
/// configuration
pub fn serialize_optimized_closure_binary(
    closure: &OptimizedClosure,
    cache: &FunctionIdCache,
) -> (r: Result<SerializedClosure, Error>)
    ensures
        serialization_result(
            SerializationFormat::Binary,
            true,
            1048576,
            function_label(*cache, closure.function_id.spec_id()),
            strings_view(closure.parameters@),
            closure.captures_by_ref,
            closure.captured_vars@,
            true,
            r,
        ),
{
    let serializer = ClosureSerializer::new(SerializationFormat::Binary);
    serializer.serialize_optimized_closure(closure, cache)
}

/// Deserialize an optimized closure in its recorded format with the default
/// configuration
pub fn deserialize_optimized_closure(
    serialized: &SerializedClosure,
    cache: &mut FunctionIdCache,
) -> (r: Result<OptimizedClosure, Error>)
    requires
        old(cache).wf(),
        optimized_read_error(true, *serialized) is None ==> !compact_read_panics(
            serialized.format,
            serialized.data@.len(),
        ),
    ensures
        final(cache).wf(),
        optimized_read_result(true, *serialized, *old(cache), *final(cache), r),
{
    let serializer = ClosureSerializer::new(serialized.format);
    serializer.deserialize_optimized_closure(serialized, cache)
}

} // verus!
