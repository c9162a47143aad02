//! JSON tree model. Engine output arrives as JSON lines; serde_json parses
//! a line and the tree is converted into the library's own value type, which
//! all further logic reads with verified functions.

use vstd::prelude::*;

use crate::num::{digit_char, spec_u64_digits, u64_to_chars};
use crate::text::{chars_of, contains_chars, contains_seq, push_all, push_str_chars, str_eq, string_of};

verus! {

/// One parsed JSON document, with numbers reduced to what the logic reads:
/// an `i64` when the number is one, an opaque marker otherwise.
#[derive(Debug)]
pub enum JsonValue {
    Null,
    Bool(bool),
    Int(i64),
    /// A non-negative number above `i64`'s range.
    UInt(u64),
    /// A number representable neither as `i64` nor as `u64` (floating point).
    OtherNum,
    Str(String),
    Arr(Vec<JsonValue>),
    Obj(Vec<(String, JsonValue)>),
}

/// What `serde_json::from_str::<serde_json::Value>` yields on this text,
/// carried over into the library's model: `None` when the text is not one
/// valid JSON document. The result depends on the text alone.
pub uninterp spec fn parsed_json(s: Seq<char>) -> Option<JsonValue>;

#[verifier::external_type_specification]
#[verifier::external_body]
pub struct ExJsonValue(serde_json::Value);

/// Converts one `serde_json::Value` into the library's model, variant by
/// variant; object fields keep the order in which the map yields them.
#[verifier::external_body]
fn json_of_value(v: &serde_json::Value) -> JsonValue {
    match v {
        serde_json::Value::Null => JsonValue::Null,
        serde_json::Value::Bool(b) => JsonValue::Bool(*b),
        serde_json::Value::Number(n) => n.as_i64().map(JsonValue::Int).unwrap_or_else(
            || n.as_u64().map(JsonValue::UInt).unwrap_or(JsonValue::OtherNum),
        ),
        serde_json::Value::String(s) => JsonValue::Str(s.clone()),
        serde_json::Value::Array(a) => JsonValue::Arr(a.iter().map(json_of_value).collect()),
        serde_json::Value::Object(m) => JsonValue::Obj(
            m.iter().map(|(k, val)| (k.clone(), json_of_value(val))).collect(),
        ),
    }
}

/// Relies on `serde_json::from_str`: parses one JSON document from the text,
/// or fails; the outcome is a function of the text alone, named by
/// [`parsed_json`].
#[verifier::external_body]
pub fn parse_json_line(s: &str) -> (r: Option<JsonValue>)
    ensures
        r == parsed_json(s@),
{
    match serde_json::from_str::<serde_json::Value>(s) {
        Ok(v) => Some(json_of_value(&v)),
        Err(_) => None,
    }
}

/// Some string node of the tree holds `needle` as a substring; only string
/// values count, as in a recursive scan over object values and array items.
pub open spec fn spec_json_contains(v: JsonValue, needle: Seq<char>) -> bool
    decreases v,
{
    match v {
        JsonValue::Str(s) => contains_seq(s@, needle),
        JsonValue::Arr(items) => exists|i: int|
            0 <= i < items@.len() && spec_json_contains(#[trigger] items@[i], needle),
        JsonValue::Obj(fields) => exists|i: int|
            0 <= i < fields@.len() && spec_json_contains(#[trigger] fields@[i].1, needle),
        _ => false,
    }
}

/// Scan the tree for a string value holding `needle` as a substring.
#[verifier::loop_isolation(false)]
pub fn json_contains_string(v: &JsonValue, needle: &Vec<char>) -> (r: bool)
    ensures
        r == spec_json_contains(*v, needle@),
    decreases *v,
{
    match v {
        JsonValue::Str(s) => {
            let sv = chars_of(s.as_str());
            contains_chars(&sv, needle)
        },
        JsonValue::Arr(items) => {
            let mut i: usize = 0;
            while i < items.len()
                invariant
                    i <= items@.len(),
                    forall|k: int|
                        0 <= k < i ==> !spec_json_contains(#[trigger] items@[k], needle@),
                decreases items@.len() - i,
            {
                if json_contains_string(&items[i], needle) {
                    return true;
                }
                i = i + 1;
            }
            false
        },
        JsonValue::Obj(fields) => {
            let mut i: usize = 0;
            while i < fields.len()
                invariant
                    i <= fields@.len(),
                    forall|k: int|
                        0 <= k < i ==> !spec_json_contains(#[trigger] fields@[k].1, needle@),
                decreases fields@.len() - i,
            {
                if json_contains_string(&fields[i].1, needle) {
                    return true;
                }
                i = i + 1;
            }
            false
        },
        _ => false,
    }
}

/// The string value directly under `key` in a field list: the first entry
/// with that key, and only when its value is a string.
pub open spec fn spec_string_at_key(fields: Seq<(String, JsonValue)>, key: Seq<char>) -> Option<
    Seq<char>,
>
    decreases fields.len(),
{
    if fields.len() == 0 {
        None
    } else if fields[0].0@ == key {
        match fields[0].1 {
            JsonValue::Str(s) => Some(s@),
            _ => None,
        }
    } else {
        spec_string_at_key(fields.drop_first(), key)
    }
}

/// The first of `keys` whose direct entry in `fields` is a string value.
pub open spec fn spec_direct_hit(fields: Seq<(String, JsonValue)>, keys: Seq<Seq<char>>) -> Option<
    Seq<char>,
>
    decreases keys.len(),
{
    if keys.len() == 0 {
        None
    } else {
        match spec_string_at_key(fields, keys[0]) {
            Some(s) => Some(s),
            None => spec_direct_hit(fields, keys.drop_first()),
        }
    }
}

/// The session id found in the tree: in an object, a direct string entry at
/// one of `keys` (in key priority order) wins; failing that, the object's
/// values and an array's items are searched in order, first hit wins.
pub open spec fn spec_session_from(v: JsonValue, keys: Seq<Seq<char>>) -> Option<Seq<char>>
    decreases v,
{
    match v {
        JsonValue::Obj(fields) => match spec_direct_hit(fields@, keys) {
            Some(s) => Some(s),
            None => spec_session_fields(fields@, keys),
        },
        JsonValue::Arr(items) => spec_session_items(items@, keys),
        _ => None,
    }
}

/// First session id among the values of a field list, in order.
pub open spec fn spec_session_fields(
    fields: Seq<(String, JsonValue)>,
    keys: Seq<Seq<char>>,
) -> Option<Seq<char>>
    decreases fields,
{
    if fields.len() == 0 {
        None
    } else {
        match spec_session_from(fields[0].1, keys) {
            Some(s) => Some(s),
            None => spec_session_fields(fields.drop_first(), keys),
        }
    }
}

/// First session id among a list of items, in order.
pub open spec fn spec_session_items(items: Seq<JsonValue>, keys: Seq<Seq<char>>) -> Option<
    Seq<char>,
>
    decreases items,
{
    if items.len() == 0 {
        None
    } else {
        match spec_session_from(items[0], keys) {
            Some(s) => Some(s),
            None => spec_session_items(items.drop_first(), keys),
        }
    }
}

/// Look `key` up among the fields and return its string value, if any.
#[verifier::loop_isolation(false)]
fn string_at_key(fields: &Vec<(String, JsonValue)>, key: &str) -> (r: Option<String>)
    ensures
        (match r {
            Some(s) => spec_string_at_key(fields@, key@) == Some(s@),
            None => spec_string_at_key(fields@, key@) is None,
        }),
{
    let mut i: usize = 0;
    proof {
        assert(fields@.subrange(0, fields@.len() as int) =~= fields@);
    }
    while i < fields.len()
        invariant
            i <= fields@.len(),
            spec_string_at_key(fields@, key@) == spec_string_at_key(
                fields@.subrange(i as int, fields@.len() as int),
                key@,
            ),
        decreases fields@.len() - i,
    {
        let ghost rem = fields@.subrange(i as int, fields@.len() as int);
        proof {
            assert(rem.drop_first() =~= fields@.subrange(i + 1 as int, fields@.len() as int));
        }
        if str_eq(fields[i].0.as_str(), key) {
            match &fields[i].1 {
                JsonValue::Str(s) => {
                    return Some(s.clone());
                },
                _ => {
                    return None;
                },
            }
        }
        i = i + 1;
    }
    None
}

/// Extract the first session id from a parsed tree, trying each key of
/// `keys` as a direct entry before descending into values and items.
#[verifier::loop_isolation(false)]
pub fn json_session_id(v: &JsonValue, keys: &Vec<String>) -> (r: Option<String>)
    ensures
        (match r {
            Some(s) => spec_session_from(*v, keys@.map_values(|k: String| k@)) == Some(s@),
            None => spec_session_from(*v, keys@.map_values(|k: String| k@)) is None,
        }),
    decreases *v,
{
    let ghost kseq = keys@.map_values(|k: String| k@);
    match v {
        JsonValue::Obj(fields) => {
            let mut j: usize = 0;
            proof {
                assert(kseq.subrange(0, kseq.len() as int) =~= kseq);
            }
            while j < keys.len()
                invariant
                    j <= keys@.len(),
                    spec_direct_hit(fields@, kseq) == spec_direct_hit(
                        fields@,
                        kseq.subrange(j as int, kseq.len() as int),
                    ),
                decreases keys@.len() - j,
            {
                let ghost krem = kseq.subrange(j as int, kseq.len() as int);
                proof {
                    assert(krem.drop_first() =~= kseq.subrange(j + 1 as int, kseq.len() as int));
                    assert(krem[0] == kseq[j as int]);
                }
                match string_at_key(fields, keys[j].as_str()) {
                    Some(s) => {
                        return Some(s);
                    },
                    None => {},
                }
                j = j + 1;
            }
            proof {
                assert(kseq.subrange(kseq.len() as int, kseq.len() as int)
                    =~= Seq::<Seq<char>>::empty());
            }
            let mut i: usize = 0;
            proof {
                assert(fields@.subrange(0, fields@.len() as int) =~= fields@);
            }
            while i < fields.len()
                invariant
                    i <= fields@.len(),
                    spec_session_fields(fields@, kseq) == spec_session_fields(
                        fields@.subrange(i as int, fields@.len() as int),
                        kseq,
                    ),
                decreases fields@.len() - i,
            {
                let ghost rem = fields@.subrange(i as int, fields@.len() as int);
                proof {
                    assert(rem.drop_first() =~= fields@.subrange(
                        i + 1 as int,
                        fields@.len() as int,
                    ));
                }
                match json_session_id(&fields[i].1, keys) {
                    Some(s) => {
                        return Some(s);
                    },
                    None => {},
                }
                i = i + 1;
            }
            None
        },
        JsonValue::Arr(items) => {
            let mut i: usize = 0;
            proof {
                assert(items@.subrange(0, items@.len() as int) =~= items@);
            }
            while i < items.len()
                invariant
                    i <= items@.len(),
                    spec_session_items(items@, kseq) == spec_session_items(
                        items@.subrange(i as int, items@.len() as int),
                        kseq,
                    ),
                decreases items@.len() - i,
            {
                let ghost rem = items@.subrange(i as int, items@.len() as int);
                proof {
                    assert(rem.drop_first() =~= items@.subrange(i + 1 as int, items@.len() as int));
                }
                match json_session_id(&items[i], keys) {
                    Some(s) => {
                        return Some(s);
                    },
                    None => {},
                }
                i = i + 1;
            }
            None
        },
        _ => None,
    }
}

/// The value of the first entry named `key`, when the tree is an object.
pub open spec fn spec_json_get(v: JsonValue, key: Seq<char>) -> Option<JsonValue>
    decreases v,
{
    match v {
        JsonValue::Obj(fields) => spec_field_get(fields@, key),
        _ => None,
    }
}

/// The value of the first entry named `key` in a field list.
pub open spec fn spec_field_get(fields: Seq<(String, JsonValue)>, key: Seq<char>) -> Option<
    JsonValue,
>
    decreases fields.len(),
{
    if fields.len() == 0 {
        None
    } else if fields[0].0@ == key {
        Some(fields[0].1)
    } else {
        spec_field_get(fields.drop_first(), key)
    }
}

/// Look a key up in an object tree, as `serde_json::Value::get` does on an
/// object (and yielding nothing on any other variant).
#[verifier::loop_isolation(false)]
pub fn json_get<'a>(v: &'a JsonValue, key: &str) -> (r: Option<&'a JsonValue>)
    ensures
        (match r {
            Some(f) => spec_json_get(*v, key@) == Some(*f),
            None => spec_json_get(*v, key@) is None,
        }),
{
    match v {
        JsonValue::Obj(fields) => {
            let mut i: usize = 0;
            proof {
                assert(fields@.subrange(0, fields@.len() as int) =~= fields@);
            }
            while i < fields.len()
                invariant
                    i <= fields@.len(),
                    spec_field_get(fields@, key@) == spec_field_get(
                        fields@.subrange(i as int, fields@.len() as int),
                        key@,
                    ),
                decreases fields@.len() - i,
            {
                let ghost rem = fields@.subrange(i as int, fields@.len() as int);
                proof {
                    assert(rem.drop_first() =~= fields@.subrange(
                        i + 1 as int,
                        fields@.len() as int,
                    ));
                }
                if str_eq(fields[i].0.as_str(), key) {
                    return Some(&fields[i].1);
                }
                i = i + 1;
            }
            None
        },
        _ => None,
    }
}

/// The text of a string tree, as `serde_json::Value::as_str` yields it.
pub fn json_as_str<'a>(v: &'a JsonValue) -> (r: Option<&'a String>)
    ensures
        (match r {
            Some(s) => v matches JsonValue::Str(t) && t == s,
            None => !(v matches JsonValue::Str(_)),
        }),
{
    match v {
        JsonValue::Str(s) => Some(s),
        _ => None,
    }
}

/// The hexadecimal digit character for one value below sixteen, lowercase.
pub open spec fn hex_char(d: nat) -> char
    recommends
        d < 16,
{
    if d < 10 {
        digit_char(d)
    } else {
        ((87 + d) as u8) as char
    }
}

/// How one character is written inside a JSON string literal, exactly as
/// serde_json writes it: quote and backslash escaped, the five short
/// control escapes, other control characters as lowercase `\u00XX`.
pub open spec fn spec_escape_char(c: char) -> Seq<char> {
    if c == '"' {
        seq!['\\', '"']
    } else if c == '\\' {
        seq!['\\', '\\']
    } else if c == '\u{8}' {
        seq!['\\', 'b']
    } else if c == '\u{c}' {
        seq!['\\', 'f']
    } else if c == '\n' {
        seq!['\\', 'n']
    } else if c == '\r' {
        seq!['\\', 'r']
    } else if c == '\t' {
        seq!['\\', 't']
    } else if (c as u32) < 32 {
        seq!['\\', 'u', '0', '0', hex_char((c as nat) / 16), hex_char((c as nat) % 16)]
    } else {
        seq![c]
    }
}

/// A whole string body escaped for a JSON string literal.
pub open spec fn spec_escape(s: Seq<char>) -> Seq<char>
    decreases s.len(),
{
    if s.len() == 0 {
        Seq::<char>::empty()
    } else {
        spec_escape_char(s[0]) + spec_escape(s.drop_first())
    }
}

/// Append the escaped form of one character.
fn escape_char_into(out: &mut Vec<char>, c: char)
    ensures
        final(out)@ == old(out)@ + spec_escape_char(c),
{
    let ghost expect = spec_escape_char(c);
    if c == '"' {
        out.push('\\');
        out.push('"');
    } else if c == '\\' {
        out.push('\\');
        out.push('\\');
    } else if c == '\u{8}' {
        out.push('\\');
        out.push('b');
    } else if c == '\u{c}' {
        out.push('\\');
        out.push('f');
    } else if c == '\n' {
        out.push('\\');
        out.push('n');
    } else if c == '\r' {
        out.push('\\');
        out.push('r');
    } else if (c as u32) < 32 {
        if c == '\t' {
            out.push('\\');
            out.push('t');
        } else {
            out.push('\\');
            out.push('u');
            out.push('0');
            out.push('0');
            let b: u8 = c as u8;
            let hi: u8 = b / 16;
            let lo: u8 = b % 16;
            let hc: char = if hi < 10 {
                (48 + hi) as char
            } else {
                (87 + hi) as char
            };
            let lc: char = if lo < 10 {
                (48 + lo) as char
            } else {
                (87 + lo) as char
            };
            out.push(hc);
            out.push(lc);
            proof {
                assert(hc == hex_char((c as nat) / 16));
                assert(lc == hex_char((c as nat) % 16));
            }
        }
    } else {
        out.push(c);
    }
    proof {
        assert(out@ =~= old(out)@ + expect);
    }
}

/// Append the escaped form of a whole string body.
#[verifier::loop_isolation(false)]
fn escape_into(out: &mut Vec<char>, s: &Vec<char>)
    ensures
        final(out)@ == old(out)@ + spec_escape(s@),
{
    let mut i: usize = 0;
    proof {
        assert(s@.subrange(0, s@.len() as int) =~= s@);
    }
    while i < s.len()
        invariant
            i <= s@.len(),
            out@ + spec_escape(s@.subrange(i as int, s@.len() as int)) == old(out)@ + spec_escape(
                s@,
            ),
        decreases s@.len() - i,
    {
        let ghost rem = s@.subrange(i as int, s@.len() as int);
        proof {
            assert(rem.drop_first() =~= s@.subrange(i + 1 as int, s@.len() as int));
            assert(rem[0] == s@[i as int]);
        }
        let ghost before = out@;
        escape_char_into(out, s[i]);
        proof {
            assert(out@ + spec_escape(rem.drop_first()) =~= before + spec_escape(rem));
        }
        i = i + 1;
    }
    proof {
        assert(s@.subrange(s@.len() as int, s@.len() as int) =~= Seq::<char>::empty());
        assert(out@ =~= old(out)@ + spec_escape(s@));
    }
}

/// The decimal form of a signed integer.
pub open spec fn spec_i64_digits(n: int) -> Seq<char> {
    if n >= 0 {
        spec_u64_digits(n as nat)
    } else {
        seq!['-'] + spec_u64_digits((0 - n) as nat)
    }
}

/// Render a signed integer in decimal.
pub fn i64_to_chars(n: i64) -> (v: Vec<char>)
    ensures
        v@ == spec_i64_digits(n as int),
{
    if n >= 0 {
        u64_to_chars(n as u64)
    } else {
        let mag: u64 = ((-(n + 1)) as u64) + 1;
        proof {
            assert(mag == (0 - n as int) as nat);
        }
        let digits = u64_to_chars(mag);
        let mut v: Vec<char> = Vec::new();
        v.push('-');
        push_all(&mut v, &digits);
        proof {
            assert(v@ =~= spec_i64_digits(n as int));
        }
        v
    }
}

/// The text that the library writes for one JSON tree: compact, keys and
/// values in order, strings escaped as serde_json escapes them. A number
/// held as [`JsonValue::OtherNum`] has no exact model and is written as
/// `null`.
pub open spec fn spec_emit_json(v: JsonValue) -> Seq<char>
    decreases v,
{
    match v {
        JsonValue::Null => "null"@,
        JsonValue::Bool(b) => if b {
            "true"@
        } else {
            "false"@
        },
        JsonValue::Int(n) => spec_i64_digits(n as int),
        JsonValue::UInt(n) => spec_u64_digits(n as nat),
        JsonValue::OtherNum => "null"@,
        JsonValue::Str(s) => seq!['"'] + spec_escape(s@) + seq!['"'],
        JsonValue::Arr(items) => seq!['['] + spec_emit_items(items@) + seq![']'],
        JsonValue::Obj(fields) => seq!['{'] + spec_emit_fields(fields@) + seq!['}'],
    }
}

/// The items of an array, comma separated.
pub open spec fn spec_emit_items(items: Seq<JsonValue>) -> Seq<char>
    decreases items,
{
    if items.len() == 0 {
        Seq::<char>::empty()
    } else {
        spec_emit_json(items[0]) + spec_emit_items_rest(items.drop_first())
    }
}

/// The items after the first, each preceded by a comma.
pub open spec fn spec_emit_items_rest(items: Seq<JsonValue>) -> Seq<char>
    decreases items,
{
    if items.len() == 0 {
        Seq::<char>::empty()
    } else {
        seq![','] + spec_emit_json(items[0]) + spec_emit_items_rest(items.drop_first())
    }
}

/// One object field: quoted escaped key, colon, value.
pub open spec fn spec_emit_field(f: (String, JsonValue)) -> Seq<char>
    decreases f,
{
    seq!['"'] + spec_escape(f.0@) + seq!['"', ':'] + spec_emit_json(f.1)
}

/// The fields of an object, comma separated.
pub open spec fn spec_emit_fields(fields: Seq<(String, JsonValue)>) -> Seq<char>
    decreases fields,
{
    if fields.len() == 0 {
        Seq::<char>::empty()
    } else {
        spec_emit_field(fields[0]) + spec_emit_fields_rest(fields.drop_first())
    }
}

/// The fields after the first, each preceded by a comma.
pub open spec fn spec_emit_fields_rest(fields: Seq<(String, JsonValue)>) -> Seq<char>
    decreases fields,
{
    if fields.len() == 0 {
        Seq::<char>::empty()
    } else {
        seq![','] + spec_emit_field(fields[0]) + spec_emit_fields_rest(fields.drop_first())
    }
}

/// Append the text of one JSON tree.
#[verifier::loop_isolation(false)]
#[verifier::rlimit(60)]
pub fn emit_json_into(v: &JsonValue, out: &mut Vec<char>)
    ensures
        final(out)@ == old(out)@ + spec_emit_json(*v),
    decreases *v,
{
    match v {
        JsonValue::Null => {
            push_str_chars(out, "null");
        },
        JsonValue::Bool(b) => {
            if *b {
                push_str_chars(out, "true");
            } else {
                push_str_chars(out, "false");
            }
        },
        JsonValue::Int(n) => {
            let d = i64_to_chars(*n);
            push_all(out, &d);
        },
        JsonValue::UInt(n) => {
            let d = u64_to_chars(*n);
            push_all(out, &d);
        },
        JsonValue::OtherNum => {
            push_str_chars(out, "null");
        },
        JsonValue::Str(s) => {
            let ghost base = out@;
            out.push('"');
            let sv = chars_of(s.as_str());
            escape_into(out, &sv);
            out.push('"');
            proof {
                assert(out@ =~= base + spec_emit_json(*v));
            }
        },
        JsonValue::Arr(items) => {
            let ghost base = out@;
            out.push('[');
            let mut i: usize = 0;
            proof {
                assert(items@.subrange(0, items@.len() as int) =~= items@);
            }
            while i < items.len()
                invariant
                    i <= items@.len(),
                    (if i == 0 {
                        out@ == base + seq!['['] && items@.subrange(i as int, items@.len() as int)
                            =~= items@
                    } else {
                        out@ + spec_emit_items_rest(
                            items@.subrange(i as int, items@.len() as int),
                        ) == base + seq!['['] + spec_emit_items(items@)
                    }),
                decreases items@.len() - i,
            {
                let ghost rem = items@.subrange(i as int, items@.len() as int);
                proof {
                    assert(rem.drop_first() =~= items@.subrange(
                        i + 1 as int,
                        items@.len() as int,
                    ));
                    assert(rem[0] == items@[i as int]);
                }
                let ghost before = out@;
                if i > 0 {
                    out.push(',');
                }
                emit_json_into(&items[i], out);
                proof {
                    if i == 0 {
                        assert(out@ =~= base + seq!['['] + spec_emit_json(items@[0]));
                        assert(out@ + spec_emit_items_rest(rem.drop_first()) =~= base + seq!['[']
                            + spec_emit_items(items@));
                    } else {
                        assert(out@ =~= before + seq![','] + spec_emit_json(items@[i as int]));
                        assert(out@ + spec_emit_items_rest(rem.drop_first()) =~= before
                            + spec_emit_items_rest(rem));
                    }
                }
                i = i + 1;
            }
            proof {
                if items@.len() == 0 {
                    assert(spec_emit_items(items@) =~= Seq::<char>::empty());
                } else {
                    assert(items@.subrange(items@.len() as int, items@.len() as int)
                        =~= Seq::<JsonValue>::empty());
                    assert(spec_emit_items_rest(Seq::<JsonValue>::empty())
                        =~= Seq::<char>::empty());
                }
            }
            out.push(']');
            proof {
                assert(out@ =~= base + spec_emit_json(*v));
            }
        },
        JsonValue::Obj(fields) => {
            let ghost base = out@;
            out.push('{');
            let mut i: usize = 0;
            proof {
                assert(fields@.subrange(0, fields@.len() as int) =~= fields@);
            }
            while i < fields.len()
                invariant
                    i <= fields@.len(),
                    (if i == 0 {
                        out@ == base + seq!['{'] && fields@.subrange(i as int, fields@.len() as int)
                            =~= fields@
                    } else {
                        out@ + spec_emit_fields_rest(
                            fields@.subrange(i as int, fields@.len() as int),
                        ) == base + seq!['{'] + spec_emit_fields(fields@)
                    }),
                decreases fields@.len() - i,
            {
                let ghost rem = fields@.subrange(i as int, fields@.len() as int);
                proof {
                    assert(rem.drop_first() =~= fields@.subrange(
                        i + 1 as int,
                        fields@.len() as int,
                    ));
                    assert(rem[0] == fields@[i as int]);
                }
                let ghost before = out@;
                if i > 0 {
                    out.push(',');
                }
                out.push('"');
                let kv = chars_of(fields[i].0.as_str());
                escape_into(out, &kv);
                out.push('"');
                out.push(':');
                emit_json_into(&fields[i].1, out);
                proof {
                    assert(out@ =~= (if i == 0 { base + seq!['{'] } else { before + seq![','] })
                        + spec_emit_field(fields@[i as int]));
                    if i == 0 {
                        assert(out@ + spec_emit_fields_rest(rem.drop_first()) =~= base + seq!['{']
                            + spec_emit_fields(fields@));
                    } else {
                        assert(out@ + spec_emit_fields_rest(rem.drop_first()) =~= before
                            + spec_emit_fields_rest(rem));
                    }
                }
                i = i + 1;
            }
            proof {
                if fields@.len() == 0 {
                    assert(spec_emit_fields(fields@) =~= Seq::<char>::empty());
                } else {
                    assert(fields@.subrange(fields@.len() as int, fields@.len() as int)
                        =~= Seq::<(String, JsonValue)>::empty());
                    assert(spec_emit_fields_rest(Seq::<(String, JsonValue)>::empty())
                        =~= Seq::<char>::empty());
                }
            }
            out.push('}');
            proof {
                assert(out@ =~= base + spec_emit_json(*v));
            }
        },
    }
}

/// The text of one JSON tree.
pub fn emit_json(v: &JsonValue) -> (r: String)
    ensures
        r@ == spec_emit_json(*v),
{
    let mut out: Vec<char> = Vec::new();
    emit_json_into(v, &mut out);
    string_of(&out)
}

} // verus!
