//! What reading back a serialized closure gives: the closure's name,
//! parameters, capture mode and captured values (closure values read back
//! as null in the byte formats, as their debug text in JSON).
use vstd::prelude::*;
use vstd::bytes::{spec_u32_to_le_bytes, spec_u32_from_le_bytes, lemma_auto_spec_u32_to_from_le_bytes};
use vstd::utf8::{encode_utf8, decode_utf8, valid_utf8, encode_utf8_decode_utf8, encode_utf8_valid_utf8};
use crate::error::Error;
use crate::namemap::{keys_distinct, insert_all_model, lemma_insert_all_of_distinct, lookup};
use crate::idmap::id_lookup;
use crate::runtime::closure::id_cache::FunctionIdCache;
use crate::runtime::closure::optimized::{OptimizedClosure, function_label};
use crate::runtime::closure::original::Closure;
use crate::runtime::closure::serialize::{
    ClosureParts, SerializationConfig, SerializationFormat, SerializedClosure, closure_bytes, read_closure_bytes,
    optimized_read_result, captures_bin, captures_model, closure_bin,
    closure_has_parts, closure_read_result, compact_caps, compact_flags, compact_str, compact_strs,
    compact_value, closure_compact, debug_text, read_captures, read_closure_bin, read_closure_compact,
    read_compact_captures, read_compact_params, read_short_string, read_string, read_strings, read_u32,
    read_value, read_value_compact, serialization_result, str_bin, strs_bin, u32_bytes, value_bin,
};
use crate::runtime::value::{Value, ValueModel};
use crate::text::strings_view;
use crate::runtime::closure::json::{json_output, lemma_sort_by_key_increasing, map_snd};
use crate::runtime::closure::closure_json::{
    closure_doc, json_expected_captures, json_read_back, lemma_closure_doc_parts, lemma_closure_doc_plain,
    lemma_increasing_distinct,
};

verus! {

/// A value as it reads back: closure values become null.
pub open spec fn read_back(v: Value) -> ValueModel {
    if v.spec_is_closure() {
        ValueModel::Null
    } else {
        v.model()
    }
}

/// Captured variables as they read back.
pub open spec fn captures_read_back(cs: Seq<(Seq<char>, Value)>) -> Seq<(Seq<char>, ValueModel)> {
    cs.map_values(|e: (Seq<char>, Value)| (e.0, read_back(e.1)))
}

/// A string whose UTF-8 byte count fits in `bound`.
pub open spec fn text_fits(s: Seq<char>, bound: int) -> bool {
    encode_utf8(s).len() < bound
}

/// A value whose written text fits in `bound` bytes.
pub open spec fn value_fits(v: Value, bound: int, compact: bool) -> bool {
    match v {
        Value::String(s) => text_fits(s@, bound),
        Value::Closure(_) => compact || text_fits(debug_text(v), bound),
        Value::OptimizedClosure(_) => compact || text_fits(debug_text(v), bound),
        _ => true,
    }
}

/// Every length the format writes fits its length field: 32 bits in the
/// binary format, 8 bits in the compact format.
pub open spec fn countable(
    id: Seq<char>,
    params: Seq<Seq<char>>,
    caps: Seq<(Seq<char>, Value)>,
    bound: int,
    compact: bool,
) -> bool {
    &&& text_fits(id, bound)
    &&& params.len() < bound
    &&& forall|i: int| 0 <= i < params.len() ==> text_fits(#[trigger] params[i], bound)
    &&& caps.len() < bound
    &&& forall|i: int| 0 <= i < caps.len() ==> text_fits((#[trigger] caps[i]).0, bound) && value_fits(caps[i].1, bound, compact)
}

/// `d` holds `piece` at position `c`.
pub open spec fn holds_at(d: Seq<u8>, c: int, piece: Seq<u8>) -> bool {
    &&& 0 <= c
    &&& c + piece.len() <= d.len()
    &&& d.subrange(c, c + piece.len()) == piece
}

proof fn lemma_holds_split(d: Seq<u8>, c: int, a: Seq<u8>, b: Seq<u8>)
    requires
        holds_at(d, c, a + b),
    ensures
        holds_at(d, c, a),
        holds_at(d, c + a.len(), b),
{
    let w = d.subrange(c, c + (a + b).len());
    assert forall|i: int| 0 <= i < a.len() implies d.subrange(c, c + a.len())[i] == a[i] by {
        assert(w[i] == (a + b)[i]);
    }
    assert(d.subrange(c, c + a.len()) =~= a);
    assert forall|i: int| 0 <= i < b.len() implies d.subrange(c + a.len(), c + a.len() + b.len())[i] == b[i] by {
        assert(w[a.len() + i] == (a + b)[a.len() + i]);
    }
    assert(d.subrange(c + a.len(), c + a.len() + b.len()) =~= b);
}

proof fn lemma_holds_byte(d: Seq<u8>, c: int, piece: Seq<u8>, i: int)
    requires
        holds_at(d, c, piece),
        0 <= i < piece.len(),
    ensures
        d[c + i] == piece[i],
{
    assert(d.subrange(c, c + piece.len())[i] == piece[i]);
}

proof fn lemma_read_u32_at(d: Seq<u8>, c: int, x: u32)
    requires
        holds_at(d, c, spec_u32_to_le_bytes(x)),
    ensures
        read_u32(d, c) == Ok::<(u32, int), Seq<char>>((x, c + 4)),
{
    lemma_auto_spec_u32_to_from_le_bytes();
}

proof fn lemma_read_string_at(d: Seq<u8>, c: int, s: Seq<char>)
    requires
        holds_at(d, c, str_bin(s)),
        text_fits(s, 0x1_0000_0000),
    ensures
        read_string(d, c) == Ok::<(Seq<char>, int), Seq<char>>((s, c + str_bin(s).len())),
{
    lemma_auto_spec_u32_to_from_le_bytes();
    let e = encode_utf8(s);
    let n = e.len() as u32;
    assert(n as int == e.len());
    assert(u32_bytes(e.len() as int) == spec_u32_to_le_bytes(n));
    lemma_holds_split(d, c, u32_bytes(e.len() as int), e);
    lemma_read_u32_at(d, c, n);
    encode_utf8_valid_utf8(s);
    encode_utf8_decode_utf8(s);
}

proof fn lemma_read_strings_at(d: Seq<u8>, c: int, ps: Seq<Seq<char>>)
    requires
        holds_at(d, c, strs_bin(ps)),
        forall|i: int| 0 <= i < ps.len() ==> text_fits(#[trigger] ps[i], 0x1_0000_0000),
    ensures
        read_strings(d, c, ps.len()) == Ok::<(Seq<Seq<char>>, int), Seq<char>>((ps, c + strs_bin(ps).len())),
    decreases ps.len(),
{
    if ps.len() == 0 {
        assert(ps =~= Seq::<Seq<char>>::empty());
    } else {
        let init = ps.drop_last();
        lemma_holds_split(d, c, strs_bin(init), str_bin(ps.last()));
        assert forall|i: int| 0 <= i < init.len() implies text_fits(#[trigger] init[i], 0x1_0000_0000) by {
            assert(init[i] == ps[i]);
        }
        lemma_read_strings_at(d, c, init);
        assert(text_fits(ps[ps.len() - 1], 0x1_0000_0000));
        lemma_read_string_at(d, c + strs_bin(init).len(), ps.last());
        assert(init.push(ps.last()) =~= ps);
    }
}

proof fn lemma_read_value_at(d: Seq<u8>, c: int, v: Value)
    requires
        holds_at(d, c, value_bin(v)),
        value_fits(v, 0x1_0000_0000, false),
    ensures
        read_value(d, c) == Ok::<(ValueModel, int), Seq<char>>((read_back(v), c + value_bin(v).len())),
{
    lemma_auto_spec_u32_to_from_le_bytes();
    lemma_holds_byte(d, c, value_bin(v), 0);
    match v {
        Value::Null => {},
        Value::Bool(b) => {
            lemma_holds_byte(d, c, value_bin(v), 1);
        },
        Value::I32(i) => {
            lemma_holds_split(d, c, seq![2u8], spec_u32_to_le_bytes(i as u32));
            assert((i as u32) as i32 == i) by (bit_vector);
        },
        Value::F32(f) => {
            lemma_holds_split(d, c, seq![3u8], spec_u32_to_le_bytes(f));
        },
        Value::String(s) => {
            lemma_holds_split(d, c, seq![4u8], str_bin(s@));
            lemma_read_string_at(d, c + 1, s@);
        },
        _ => {
            lemma_holds_split(d, c, seq![255u8], str_bin(debug_text(v)));
            lemma_read_string_at(d, c + 1, debug_text(v));
        },
    }
}

proof fn lemma_read_captures_at(d: Seq<u8>, c: int, cs: Seq<(Seq<char>, Value)>)
    requires
        holds_at(d, c, captures_bin(cs)),
        forall|i: int| 0 <= i < cs.len() ==> text_fits((#[trigger] cs[i]).0, 0x1_0000_0000) && value_fits(
            cs[i].1,
            0x1_0000_0000,
            false,
        ),
    ensures
        read_captures(d, c, cs.len()) == Ok::<(Seq<(Seq<char>, ValueModel)>, int), Seq<char>>(
            (captures_read_back(cs), c + captures_bin(cs).len()),
        ),
    decreases cs.len(),
{
    if cs.len() == 0 {
        assert(captures_read_back(cs) =~= Seq::<(Seq<char>, ValueModel)>::empty());
    } else {
        let init = cs.drop_last();
        let last = cs.last();
        lemma_holds_split(d, c, captures_bin(init) + str_bin(last.0), value_bin(last.1));
        lemma_holds_split(d, c, captures_bin(init), str_bin(last.0));
        assert forall|i: int| 0 <= i < init.len() implies text_fits((#[trigger] init[i]).0, 0x1_0000_0000) && value_fits(
            init[i].1,
            0x1_0000_0000,
            false,
        ) by {
            assert(init[i] == cs[i]);
        }
        lemma_read_captures_at(d, c, init);
        assert(cs[cs.len() - 1] == last);
        let c1 = c + captures_bin(init).len();
        lemma_read_string_at(d, c1, last.0);
        lemma_read_value_at(d, c1 + str_bin(last.0).len(), last.1);
        assert(captures_read_back(init).push((last.0, read_back(last.1))) =~= captures_read_back(cs));
    }
}

/// The captures read back from a closure written with or without its
/// captured values.
pub open spec fn expected_captures(
    caps: Seq<(Seq<char>, Value)>,
    with_values: bool,
) -> Seq<(Seq<char>, ValueModel)> {
    if with_values {
        captures_read_back(caps)
    } else {
        Seq::empty()
    }
}

/// Reading the binary form of a closure gives back its name, parameters,
/// capture mode and captures (closure values as null; no captures when they
/// were left out), whenever every length fits in 32 bits.
pub proof fn lemma_binary_round_trip(
    id: Seq<char>,
    params: Seq<Seq<char>>,
    by_ref: bool,
    caps: Seq<(Seq<char>, Value)>,
    with_values: bool,
)
    requires
        countable(id, params, caps, 0x1_0000_0000, false),
    ensures
        read_closure_bin(closure_bin(id, params, by_ref, caps, with_values)) == Ok::<ClosureParts, Seq<char>>(
            ClosureParts { id, params, by_ref, captures: expected_captures(caps, with_values) },
        ),
{
    lemma_auto_spec_u32_to_from_le_bytes();
    let d = closure_bin(id, params, by_ref, caps, with_values);
    let a = str_bin(id);
    let b = u32_bytes(params.len() as int);
    let p = strs_bin(params);
    let f = seq![if by_ref { 1u8 } else { 0u8 }];
    let t = if with_values {
        u32_bytes(caps.len() as int) + captures_bin(caps)
    } else {
        u32_bytes(0)
    };
    assert(d == a + b + p + f + t);
    assert(d.subrange(0, d.len() as int) =~= d);
    lemma_holds_split(d, 0, a + b + p + f, t);
    lemma_holds_split(d, 0, a + b + p, f);
    lemma_holds_split(d, 0, a + b, p);
    lemma_holds_split(d, 0, a, b);
    lemma_read_string_at(d, 0, id);
    let np = params.len() as u32;
    assert(np as int == params.len());
    lemma_read_u32_at(d, a.len() as int, np);
    lemma_read_strings_at(d, a.len() + 4int, params);
    let c3: int = a.len() + 4int + p.len();
    lemma_holds_byte(d, c3, f, 0);
    let c5: int = c3 + 5;
    if with_values {
        let nc = caps.len() as u32;
        assert(nc as int == caps.len());
        lemma_holds_split(d, c3 + 1, u32_bytes(caps.len() as int), captures_bin(caps));
        lemma_read_u32_at(d, c3 + 1, nc);
        lemma_read_captures_at(d, c5, caps);
    } else {
        lemma_read_u32_at(d, c3 + 1, 0);
        assert(read_captures(d, c5, 0) == Ok::<(Seq<(Seq<char>, ValueModel)>, int), Seq<char>>((Seq::empty(), c5)));
    }
}

proof fn lemma_read_short_string_at(
    d: Seq<u8>,
    c: int,
    s: Seq<char>,
    truncated: Seq<char>,
    invalid: Seq<char>,
    utf8_prefix: Seq<char>,
)
    requires
        holds_at(d, c, compact_str(s)),
        text_fits(s, 256),
    ensures
        read_short_string(d, c, truncated, invalid, utf8_prefix) == Ok::<(Seq<char>, int), Seq<char>>(
            (s, c + compact_str(s).len()),
        ),
{
    let e = encode_utf8(s);
    let n = e.len() as u8;
    assert(n as int == e.len());
    lemma_holds_split(d, c, seq![n], e);
    lemma_holds_byte(d, c, seq![n], 0);
    encode_utf8_valid_utf8(s);
    encode_utf8_decode_utf8(s);
}

proof fn lemma_read_compact_params_at(d: Seq<u8>, c: int, ps: Seq<Seq<char>>)
    requires
        holds_at(d, c, compact_strs(ps)),
        forall|i: int| 0 <= i < ps.len() ==> text_fits(#[trigger] ps[i], 256),
    ensures
        read_compact_params(d, c, ps.len()) == Ok::<(Seq<Seq<char>>, int), Seq<char>>(
            (ps, c + compact_strs(ps).len()),
        ),
    decreases ps.len(),
{
    if ps.len() == 0 {
        assert(ps =~= Seq::<Seq<char>>::empty());
    } else {
        let init = ps.drop_last();
        lemma_holds_split(d, c, compact_strs(init), compact_str(ps.last()));
        assert forall|i: int| 0 <= i < init.len() implies text_fits(#[trigger] init[i], 256) by {
            assert(init[i] == ps[i]);
        }
        lemma_read_compact_params_at(d, c, init);
        assert(text_fits(ps[ps.len() - 1], 256));
        lemma_read_short_string_at(
            d,
            c + compact_strs(init).len(),
            ps.last(),
            "Truncated parameter data"@,
            "Invalid parameter data"@,
            "Invalid parameter UTF-8: "@,
        );
        assert(init.push(ps.last()) =~= ps);
    }
}

proof fn lemma_read_value_compact_at(d: Seq<u8>, c: int, v: Value)
    requires
        holds_at(d, c, compact_value(v)),
        value_fits(v, 256, true),
    ensures
        read_value_compact(d, c) == Ok::<(ValueModel, int), Seq<char>>((read_back(v), c + compact_value(v).len())),
{
    lemma_auto_spec_u32_to_from_le_bytes();
    lemma_holds_byte(d, c, compact_value(v), 0);
    match v {
        Value::Null => {},
        Value::Bool(b) => {
            lemma_holds_byte(d, c, compact_value(v), 1);
        },
        Value::I32(i) => {
            lemma_holds_split(d, c, seq![2u8], spec_u32_to_le_bytes(i as u32));
            assert((i as u32) as i32 == i) by (bit_vector);
        },
        Value::F32(f) => {
            lemma_holds_split(d, c, seq![3u8], spec_u32_to_le_bytes(f));
        },
        Value::String(s) => {
            lemma_holds_split(d, c, seq![4u8], compact_str(s@));
            lemma_read_short_string_at(
                d,
                c + 1,
                s@,
                "Not enough data for string length"@,
                "Not enough data for string"@,
                "Invalid UTF-8: "@,
            );
        },
        _ => {},
    }
}

proof fn lemma_read_compact_captures_at(d: Seq<u8>, c: int, cs: Seq<(Seq<char>, Value)>)
    requires
        holds_at(d, c, compact_caps(cs)),
        forall|i: int| 0 <= i < cs.len() ==> text_fits((#[trigger] cs[i]).0, 256) && value_fits(cs[i].1, 256, true),
    ensures
        read_compact_captures(d, c, cs.len()) == Ok::<(Seq<(Seq<char>, ValueModel)>, int), Seq<char>>(
            (captures_read_back(cs), c + compact_caps(cs).len()),
        ),
    decreases cs.len(),
{
    if cs.len() == 0 {
        assert(captures_read_back(cs) =~= Seq::<(Seq<char>, ValueModel)>::empty());
    } else {
        let init = cs.drop_last();
        let last = cs.last();
        lemma_holds_split(d, c, compact_caps(init) + compact_str(last.0), compact_value(last.1));
        lemma_holds_split(d, c, compact_caps(init), compact_str(last.0));
        assert forall|i: int| 0 <= i < init.len() implies text_fits((#[trigger] init[i]).0, 256) && value_fits(
            init[i].1,
            256,
            true,
        ) by {
            assert(init[i] == cs[i]);
        }
        lemma_read_compact_captures_at(d, c, init);
        assert(cs[cs.len() - 1] == last);
        let c1 = c + compact_caps(init).len();
        lemma_read_short_string_at(
            d,
            c1,
            last.0,
            "Truncated capture name"@,
            "Invalid capture name"@,
            "Invalid capture name UTF-8: "@,
        );
        lemma_read_value_compact_at(d, c1 + compact_str(last.0).len(), last.1);
        assert(captures_read_back(init).push((last.0, read_back(last.1))) =~= captures_read_back(cs));
    }
}

proof fn lemma_flags(by_ref: bool, with_values: bool, optimized: bool)
    ensures
        ((compact_flags(by_ref, with_values, optimized) & 1u8) != 0) == by_ref,
        ((compact_flags(by_ref, with_values, optimized) & 2u8) != 0) == with_values,
{
    let f = compact_flags(by_ref, with_values, optimized);
    assert(forall|x: u8| x < 8 ==> (((x & 1u8) != 0) == (x % 2 == 1))) by (bit_vector);
    assert(forall|x: u8| x < 8 ==> (((x & 2u8) != 0) == (x % 4 >= 2))) by (bit_vector);
    assert(f < 8);
}

/// Reading the compact form of a closure gives back its name, parameters,
/// capture mode and captures (closure values as null; no captures when they
/// were left out), whenever every length fits in 8 bits.
pub proof fn lemma_compact_round_trip(
    id: Seq<char>,
    params: Seq<Seq<char>>,
    by_ref: bool,
    caps: Seq<(Seq<char>, Value)>,
    with_values: bool,
    optimized: bool,
)
    requires
        countable(id, params, caps, 256, true),
    ensures
        read_closure_compact(closure_compact(id, params, by_ref, caps, with_values, optimized)) == Ok::<
            ClosureParts,
            Seq<char>,
        >(ClosureParts { id, params, by_ref, captures: expected_captures(caps, with_values) }),
{
    let d = closure_compact(id, params, by_ref, caps, with_values, optimized);
    let fl = seq![compact_flags(by_ref, with_values, optimized)];
    let a = compact_str(id);
    let np = params.len() as u8;
    assert(np as int == params.len());
    let b = seq![np];
    let p = compact_strs(params);
    let t = if with_values {
        seq![caps.len() as u8] + compact_caps(caps)
    } else {
        Seq::empty()
    };
    assert(d == fl + a + b + p + t);
    assert(d.subrange(0, d.len() as int) =~= d);
    lemma_holds_split(d, 0, fl + a + b + p, t);
    lemma_holds_split(d, 0, fl + a + b, p);
    lemma_holds_split(d, 0, fl + a, b);
    lemma_holds_split(d, 0, fl, a);
    lemma_holds_byte(d, 0, fl, 0);
    lemma_flags(by_ref, with_values, optimized);
    lemma_read_short_string_at(d, 1, id, "Invalid compact data"@, "Invalid compact data"@, "Invalid UTF-8: "@);
    let c1: int = 1int + a.len();
    lemma_holds_byte(d, c1, b, 0);
    lemma_read_compact_params_at(d, c1 + 1, params);
    let c2: int = c1 + 1int + p.len();
    if with_values {
        let nc = caps.len() as u8;
        assert(nc as int == caps.len());
        lemma_holds_split(d, c2, seq![nc], compact_caps(caps));
        lemma_holds_byte(d, c2, seq![nc], 0);
        lemma_read_compact_captures_at(d, c2 + 1, caps);
    }
}

/// The bound on every length that `format` writes.
pub open spec fn length_bound(format: SerializationFormat) -> int {
    if format == SerializationFormat::Compact {
        256
    } else {
        0x1_0000_0000
    }
}

proof fn lemma_read_back_distinct(caps: Seq<(Seq<char>, Value)>)
    requires
        keys_distinct(caps),
    ensures
        keys_distinct(captures_read_back(caps)),
{
    let r = captures_read_back(caps);
    assert forall|i: int, j: int| 0 <= i < r.len() && 0 <= j < r.len() && i != j implies #[trigger] r[i].0
        != #[trigger] r[j].0 by {
        assert(r[i].0 == caps[i].0);
        assert(r[j].0 == caps[j].0);
    }
}

proof fn lemma_bytes_round_trip(
    format: SerializationFormat,
    id: Seq<char>,
    params: Seq<Seq<char>>,
    by_ref: bool,
    caps: Seq<(Seq<char>, Value)>,
    with_values: bool,
    optimized: bool,
)
    requires
        format != SerializationFormat::Json,
        countable(id, params, caps, length_bound(format), format == SerializationFormat::Compact),
    ensures
        closure_bytes(format, with_values, id, params, by_ref, caps, optimized).len() > 1,
        read_closure_bytes(format, closure_bytes(format, with_values, id, params, by_ref, caps, optimized))
            == Ok::<ClosureParts, Seq<char>>(
            ClosureParts { id, params, by_ref, captures: expected_captures(caps, with_values) },
        ),
{
    lemma_auto_spec_u32_to_from_le_bytes();
    if format == SerializationFormat::Compact {
        lemma_compact_round_trip(id, params, by_ref, caps, with_values, optimized);
    } else {
        lemma_binary_round_trip(id, params, by_ref, caps, with_values);
    }
}

/// A closure that a serializer wrote reads back, through a serializer of
/// the same format, as a closure with the same name, parameters and capture
/// mode and with its captured values (closure values as null; none when the
/// captured values were left out), whenever every length fits the format.
pub proof fn lemma_serialize_then_deserialize(
    format: SerializationFormat,
    config: SerializationConfig,
    validate: bool,
    closure: Closure,
    s: SerializedClosure,
    r: Result<Closure, Error>,
)
    requires
        format != SerializationFormat::Json,
        keys_distinct(closure.captured_vars@),
        countable(
            closure.function_id@,
            strings_view(closure.parameters@),
            closure.captured_vars@,
            length_bound(format),
            format == SerializationFormat::Compact,
        ),
        serialization_result(
            format,
            config.include_captured_values,
            config.max_size_bytes as nat,
            closure.function_id@,
            strings_view(closure.parameters@),
            closure.captures_by_ref,
            closure.captured_vars@,
            false,
            Ok(s),
        ),
        closure_read_result(validate, s, r),
    ensures
        r matches Ok(c) && c.function_id@ == closure.function_id@ && strings_view(c.parameters@) == strings_view(
            closure.parameters@,
        ) && c.captures_by_ref == closure.captures_by_ref && captures_model(c.captured_vars@) == expected_captures(
            closure.captured_vars@,
            config.include_captured_values,
        ),
{
    let caps = closure.captured_vars@;
    lemma_bytes_round_trip(
        format,
        closure.function_id@,
        strings_view(closure.parameters@),
        closure.captures_by_ref,
        caps,
        config.include_captured_values,
        false,
    );
    let expected = expected_captures(caps, config.include_captured_values);
    if config.include_captured_values {
        lemma_read_back_distinct(caps);
    }
    lemma_insert_all_of_distinct(expected);
}

/// An optimized closure that a serializer wrote with the cache its name was
/// interned in reads back, into the same cache, as an optimized closure with
/// the same function identifier, parameters and capture mode and with its
/// captured values (closure values as null; none when left out), and the
/// cache is unchanged, whenever every length fits the format.
pub proof fn lemma_serialize_then_deserialize_optimized(
    format: SerializationFormat,
    config: SerializationConfig,
    validate: bool,
    closure: OptimizedClosure,
    name: Seq<char>,
    cache: FunctionIdCache,
    s: SerializedClosure,
    cache_after: FunctionIdCache,
    r: Result<OptimizedClosure, Error>,
)
    requires
        format != SerializationFormat::Json,
        cache.wf(),
        keys_distinct(closure.captured_vars@),
        lookup(cache.names(), name) == Some(closure.function_id.spec_id()),
        id_lookup(cache.ids(), closure.function_id.spec_id()) == Some(name),
        countable(
            name,
            strings_view(closure.parameters@),
            closure.captured_vars@,
            length_bound(format),
            format == SerializationFormat::Compact,
        ),
        serialization_result(
            format,
            config.include_captured_values,
            config.max_size_bytes as nat,
            function_label(cache, closure.function_id.spec_id()),
            strings_view(closure.parameters@),
            closure.captures_by_ref,
            closure.captured_vars@,
            true,
            Ok(s),
        ),
        optimized_read_result(validate, s, cache, cache_after, r),
        cache_after.wf(),
    ensures
        r matches Ok(c) && c.function_id.spec_id() == closure.function_id.spec_id() && strings_view(c.parameters@)
            == strings_view(closure.parameters@) && c.captures_by_ref == closure.captures_by_ref && captures_model(
            c.captured_vars@,
        ) == expected_captures(closure.captured_vars@, config.include_captured_values),
        cache_after.names() == cache.names(),
{
    let caps = closure.captured_vars@;
    lemma_bytes_round_trip(
        format,
        name,
        strings_view(closure.parameters@),
        closure.captures_by_ref,
        caps,
        config.include_captured_values,
        true,
    );
    let expected = expected_captures(caps, config.include_captured_values);
    if config.include_captured_values {
        lemma_read_back_distinct(caps);
    }
    lemma_insert_all_of_distinct(expected);
}

/// A closure that a serializer wrote in the JSON format reads back, through
/// a serializer of that format, as a closure with the same name, parameters
/// and capture mode and with its captured values sorted by name (closure
/// values as their debug text; none when the captured values were left out),
/// whenever its names are distinct.
pub proof fn lemma_json_serialize_then_deserialize(
    config: SerializationConfig,
    validate: bool,
    closure: Closure,
    s: SerializedClosure,
    r: Result<Closure, Error>,
)
    requires
        keys_distinct(closure.captured_vars@),
        serialization_result(
            SerializationFormat::Json,
            config.include_captured_values,
            config.max_size_bytes as nat,
            closure.function_id@,
            strings_view(closure.parameters@),
            closure.captures_by_ref,
            closure.captured_vars@,
            false,
            Ok(s),
        ),
        closure_read_result(validate, s, r),
    ensures
        r matches Ok(c) && c.function_id@ == closure.function_id@ && strings_view(c.parameters@) == strings_view(
            closure.parameters@,
        ) && c.captures_by_ref == closure.captures_by_ref && captures_model(c.captured_vars@) == json_expected_captures(
            closure.captured_vars@,
            config.include_captured_values,
        ),
{
    let caps = closure.captured_vars@;
    let id = closure.function_id@;
    let params = strings_view(closure.parameters@);
    let by_ref = closure.captures_by_ref;
    let with_values = config.include_captured_values;
    let doc = closure_doc(id, params, by_ref, caps, with_values, false);
    lemma_closure_doc_plain(id, params, by_ref, caps, with_values, false);
    lemma_closure_doc_parts(id, params, by_ref, caps, with_values, false);
    let t = json_output(doc)->Ok_0;
    encode_utf8_valid_utf8(t);
    encode_utf8_decode_utf8(t);
    let expected = json_expected_captures(caps, with_values);
    if with_values {
        let rb = map_snd(caps, |v: Value| json_read_back(v));
        assert(keys_distinct(rb)) by {
            assert forall|i: int, j: int| 0 <= i < rb.len() && 0 <= j < rb.len() && i != j implies #[trigger] rb[i].0
                != #[trigger] rb[j].0 by {
                assert(rb[i].0 == caps[i].0 && rb[j].0 == caps[j].0);
            }
        }
        lemma_sort_by_key_increasing(rb);
        lemma_increasing_distinct(expected);
    }
    lemma_insert_all_of_distinct(expected);
}

/// An optimized closure that a serializer wrote in the JSON format with the
/// cache its name was interned in reads back, into the same cache, as an
/// optimized closure with the same function identifier, parameters and
/// capture mode and with its captured values sorted by name (closure values
/// as their debug text; none when left out), and the cache is unchanged,
/// whenever its names are distinct.
pub proof fn lemma_json_serialize_then_deserialize_optimized(
    config: SerializationConfig,
    validate: bool,
    closure: OptimizedClosure,
    name: Seq<char>,
    cache: FunctionIdCache,
    s: SerializedClosure,
    cache_after: FunctionIdCache,
    r: Result<OptimizedClosure, Error>,
)
    requires
        cache.wf(),
        keys_distinct(closure.captured_vars@),
        lookup(cache.names(), name) == Some(closure.function_id.spec_id()),
        id_lookup(cache.ids(), closure.function_id.spec_id()) == Some(name),
        serialization_result(
            SerializationFormat::Json,
            config.include_captured_values,
            config.max_size_bytes as nat,
            function_label(cache, closure.function_id.spec_id()),
            strings_view(closure.parameters@),
            closure.captures_by_ref,
            closure.captured_vars@,
            true,
            Ok(s),
        ),
        optimized_read_result(validate, s, cache, cache_after, r),
        cache_after.wf(),
    ensures
        r matches Ok(c) && c.function_id.spec_id() == closure.function_id.spec_id() && strings_view(c.parameters@)
            == strings_view(closure.parameters@) && c.captures_by_ref == closure.captures_by_ref && captures_model(
            c.captured_vars@,
        ) == json_expected_captures(closure.captured_vars@, config.include_captured_values),
        cache_after.names() == cache.names(),
{
    let caps = closure.captured_vars@;
    let params = strings_view(closure.parameters@);
    let by_ref = closure.captures_by_ref;
    let with_values = config.include_captured_values;
    let doc = closure_doc(name, params, by_ref, caps, with_values, true);
    lemma_closure_doc_plain(name, params, by_ref, caps, with_values, true);
    lemma_closure_doc_parts(name, params, by_ref, caps, with_values, true);
    let t = json_output(doc)->Ok_0;
    encode_utf8_valid_utf8(t);
    encode_utf8_decode_utf8(t);
    let expected = json_expected_captures(caps, with_values);
    if with_values {
        let rb = map_snd(caps, |v: Value| json_read_back(v));
        assert(keys_distinct(rb)) by {
            assert forall|i: int, j: int| 0 <= i < rb.len() && 0 <= j < rb.len() && i != j implies #[trigger] rb[i].0
                != #[trigger] rb[j].0 by {
                assert(rb[i].0 == caps[i].0 && rb[j].0 == caps[j].0);
            }
        }
        lemma_sort_by_key_increasing(rb);
        lemma_increasing_distinct(expected);
    }
    lemma_insert_all_of_distinct(expected);
}

} // verus!
