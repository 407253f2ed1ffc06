//! The JSON documents this library reads are parsed by `tinyjson`; this module
//! states what the parsed values hold.
use vstd::prelude::*;
use vstd::utf8::encode_utf8;

verus! {

#[verifier::external_type_specification]
#[verifier::external_body]
pub struct ExJsonValue(tinyjson::JsonValue);

/// What a JSON value holds, as a mathematical value. Numbers are not read by
/// this library, so their value is left out.
pub enum JsonModel {
    Null,
    Boolean(bool),
    Number,
    Str(Seq<char>),
    Array(Seq<JsonModel>),
    Object(Map<Seq<char>, JsonModel>),
}

/// The document that a text parses to, if it is well-formed JSON.
pub uninterp spec fn parsed_json(text: Seq<char>) -> Option<JsonModel>;

/// What a parsed value holds.
pub uninterp spec fn json_model(v: tinyjson::JsonValue) -> JsonModel;

/// The string held under `key` by an object, if there is one.
pub open spec fn string_field(m: JsonModel, key: Seq<char>) -> Option<Seq<char>> {
    match m {
        JsonModel::Object(o) => if o.contains_key(key) {
            match o[key] {
                JsonModel::Str(s) => Some(s),
                _ => None,
            }
        } else {
            None
        },
        _ => None,
    }
}

/// Deepest nesting of arrays and objects that is handed to the parser. The
/// parser descends one call per level, so deeper texts could exhaust the stack.
pub const MAX_JSON_DEPTH: usize = 256;

/// Scan of the UTF-8 bytes of a text for nesting: the current depth, the
/// deepest depth reached, whether inside a string, and whether the previous
/// byte was a backslash inside a string. Brackets inside strings do not count;
/// a closing bracket at depth zero leaves the depth at zero.
pub open spec fn depth_scan(b: Seq<u8>) -> (nat, nat, bool, bool)
    decreases b.len(),
{
    if b.len() == 0 {
        (0, 0, false, false)
    } else {
        let (d, m, in_str, esc) = depth_scan(b.drop_last());
        let c = b.last();
        if in_str {
            if esc {
                (d, m, true, false)
            } else if c == 92u8 {
                (d, m, true, true)
            } else if c == 34u8 {
                (d, m, false, false)
            } else {
                (d, m, true, false)
            }
        } else if c == 34u8 {
            (d, m, true, false)
        } else if c == 91u8 || c == 123u8 {
            (d + 1, if m > d + 1 { m } else { d + 1 }, false, false)
        } else if c == 93u8 || c == 125u8 {
            ((if d > 0 { d - 1 } else { 0 }) as nat, m, false, false)
        } else {
            (d, m, false, false)
        }
    }
}

/// Whether the nesting of `[` and `{` outside strings stays within the limit.
pub open spec fn nesting_ok(text: Seq<char>) -> bool {
    depth_scan(encode_utf8(text)).1 <= MAX_JSON_DEPTH
}

/// Tests a text against the nesting limit that parsing requires.
pub fn nesting_within_limit(text: &str) -> (r: bool)
    ensures
        r == nesting_ok(text@),
{
    let b = text.as_bytes();
    let n = b.len();
    let mut d: usize = 0;
    let mut m: usize = 0;
    let mut in_str = false;
    let mut esc = false;
    let mut i: usize = 0;
    while i < n
        invariant
            n == b@.len(),
            b@ == encode_utf8(text@),
            i <= n,
            d <= i,
            m <= i,
            depth_scan(b@.subrange(0, i as int)) == (d as nat, m as nat, in_str, esc),
        decreases n - i,
    {
        let c = b[i];
        proof {
            assert(b@.subrange(0, i + 1).drop_last() =~= b@.subrange(0, i as int));
        }
        if in_str {
            if esc {
                esc = false;
            } else if c == 92u8 {
                esc = true;
            } else if c == 34u8 {
                in_str = false;
            }
        } else if c == 34u8 {
            in_str = true;
        } else if c == 91u8 || c == 123u8 {
            d = d + 1;
            if m < d {
                m = d;
            }
        } else if c == 93u8 || c == 125u8 {
            if d > 0 {
                d = d - 1;
            }
        }
        i = i + 1;
    }
    assert(b@.subrange(0, n as int) =~= b@);
    m <= MAX_JSON_DEPTH
}

/// Relies on `<tinyjson::JsonValue as FromStr>::from_str`: the document parsed
/// from a text depends on the text alone. The parser recurses once per level of
/// nesting, so the text's nesting is bounded first.
#[verifier::external_body]
pub(crate) fn parse_json(text: &str) -> (r: Option<tinyjson::JsonValue>)
    requires
        nesting_ok(text@),
    ensures
        match r {
            Some(v) => parsed_json(text@) == Some(json_model(v)),
            None => parsed_json(text@) is None,
        },
{
    text.parse::<tinyjson::JsonValue>().ok()
}

/// Relies on `tinyjson::JsonValue::get::<String>`: the string of a string value.
#[verifier::external_body]
pub(crate) fn json_as_string(v: &tinyjson::JsonValue) -> (r: Option<String>)
    ensures
        match json_model(*v) {
            JsonModel::Str(s) => r matches Some(t) && t@ == s,
            _ => r is None,
        },
{
    v.get::<String>().cloned()
}

/// Relies on `tinyjson::JsonValue::get::<Vec<JsonValue>>`: the items of an
/// array value, in order.
#[verifier::external_body]
pub(crate) fn json_as_array(v: &tinyjson::JsonValue) -> (r: Option<Vec<tinyjson::JsonValue>>)
    ensures
        match json_model(*v) {
            JsonModel::Array(items) => r matches Some(a) && a@.len() == items.len() && (forall|
                i: int,
            |
                0 <= i < items.len() ==> json_model(#[trigger] a@[i]) == items[i]),
            _ => r is None,
        },
{
    v.get::<Vec<tinyjson::JsonValue>>().cloned()
}

/// Relies on `tinyjson::JsonValue::get::<HashMap<String, JsonValue>>`: the
/// member of an object value under a key.
#[verifier::external_body]
pub(crate) fn json_member(v: &tinyjson::JsonValue, key: &str) -> (r: Option<
    tinyjson::JsonValue,
>)
    ensures
        match json_model(*v) {
            JsonModel::Object(o) => if o.contains_key(key@) {
                r matches Some(f) && json_model(f) == o[key@]
            } else {
                r is None
            },
            _ => r is None,
        },
{
    v.get::<std::collections::HashMap<String, tinyjson::JsonValue>>().and_then(|m| m.get(key)).cloned()
}

/// The string held under `key` by an object value, if there is one.
pub fn json_string_member(v: &tinyjson::JsonValue, key: &str) -> (r: Option<String>)
    ensures
        match string_field(json_model(*v), key@) {
            Some(s) => r matches Some(t) && t@ == s,
            None => r is None,
        },
{
    match json_member(v, key) {
        Some(f) => json_as_string(&f),
        None => None,
    }
}

} // verus!
