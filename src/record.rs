//! The version record: the identity of the last fully synchronized release,
//! kept as a small JSON document in the asset cache directory.
use vstd::prelude::*;
use crate::json::{
    JsonModel, json_model, parsed_json, string_field, parse_json, json_string_member, nesting_ok,
    nesting_within_limit,
};
use crate::release::ReleaseIdentity;

verus! {

/// File name of the record inside the asset cache directory.
pub const RELEASE_INFO_FILE: &'static str = "release.json";

pub open spec fn hex_digits() -> Seq<char> {
    "0123456789abcdef"@
}

/// How one character is written inside a JSON string.
pub open spec fn escape_char(c: char) -> Seq<char> {
    if c == '"' {
        seq!['\\', '"']
    } else if c == '\\' {
        seq!['\\', '\\']
    } else if c == '\n' {
        seq!['\\', 'n']
    } else if c == '\r' {
        seq!['\\', 'r']
    } else if c == '\t' {
        seq!['\\', 't']
    } else if (c as u32) < 0x20 {
        seq!['\\', 'u', '0', '0', hex_digits()[((c as u32) / 16) as int], hex_digits()[((c as u32) % 16) as int]]
    } else {
        seq![c]
    }
}

/// The characters of a string, each written as inside a JSON string.
pub open spec fn escaped(s: Seq<char>) -> Seq<char>
    decreases s.len(),
{
    if s.len() == 0 {
        seq![]
    } else {
        escaped(s.drop_last()) + escape_char(s.last())
    }
}

/// The exact text of the record for an identity.
pub open spec fn record_text(id: (Seq<char>, Seq<char>)) -> Seq<char> {
    "{\n  \"tag_name\": \""@ + escaped(id.0) + "\",\n  \"name\": \""@ + escaped(id.1)
        + "\"\n}"@
}

/// The identity that a parsed record holds, if both fields are strings.
pub open spec fn record_identity(m: JsonModel) -> Option<(Seq<char>, Seq<char>)> {
    match (string_field(m, "tag_name"@), string_field(m, "name"@)) {
        (Some(t), Some(n)) => Some((t, n)),
        _ => None,
    }
}

/// The identity that a record text holds: none when it is nested too deeply
/// to parse, is not JSON, or lacks a field.
pub open spec fn read_record_spec(text: Seq<char>) -> Option<(Seq<char>, Seq<char>)> {
    if !nesting_ok(text) {
        None
    } else {
        match parsed_json(text) {
            Some(m) => record_identity(m),
            None => None,
        }
    }
}

/// Appends `s` to `out`, escaped as inside a JSON string.
pub fn append_escaped(out: &mut String, s: &str)
    ensures
        final(out)@ == old(out)@ + escaped(s@),
{
    let n = s.unicode_len();
    let mut i: usize = 0;
    let ghost start = out@;
    proof {
        reveal_strlit("0123456789abcdef");
    }
    while i < n
        invariant
            n == s@.len(),
            i <= n,
            hex_digits().len() == 16,
            out@ == start + escaped(s@.subrange(0, i as int)),
        decreases n - i,
    {
        let c = s.get_char(i);
        let ghost before = out@;
        if c == '"' {
            out.append("\\\"");
        } else if c == '\\' {
            out.append("\\\\");
        } else if c == '\n' {
            out.append("\\n");
        } else if c == '\r' {
            out.append("\\r");
        } else if c == '\t' {
            out.append("\\t");
        } else if (c as u32) < 0x20 {
            let hi = ((c as u32) / 16) as usize;
            let lo = ((c as u32) % 16) as usize;
            let digits = "0123456789abcdef";
            out.append("\\u00");
            out.append(digits.substring_char(hi, hi + 1));
            out.append(digits.substring_char(lo, lo + 1));
            proof {
                reveal_strlit("\\u00");
            }
            assert(out@ =~= before + escape_char(c));
        } else {
            out.append(s.substring_char(i, i + 1));
            assert(out@ =~= before + escape_char(c));
        }
        proof {
            reveal_strlit("\\\"");
            reveal_strlit("\\\\");
            reveal_strlit("\\n");
            reveal_strlit("\\r");
            reveal_strlit("\\t");
            assert(s@.subrange(0, i + 1).drop_last() =~= s@.subrange(0, i as int));
            assert(out@ =~= before + escape_char(c));
        }
        i = i + 1;
    }
    assert(s@.subrange(0, n as int) =~= s@);
}

/// The text of the record for an identity.
pub fn render_record(id: &ReleaseIdentity) -> (r: String)
    ensures
        r@ == record_text(id@),
{
    let mut out = String::from_str("{\n  \"tag_name\": \"");
    append_escaped(&mut out, id.tag_name.as_str());
    out.append("\",\n  \"name\": \"");
    append_escaped(&mut out, id.name.as_str());
    out.append("\"\n}");
    assert(out@ =~= record_text(id@));
    out
}

/// Reads the identity out of a parsed record.
pub fn record_from_json(v: &tinyjson::JsonValue) -> (r: Option<ReleaseIdentity>)
    ensures
        match record_identity(json_model(*v)) {
            Some(idv) => r matches Some(id) && id@ == idv,
            None => r is None,
        },
{
    let tag_name = match json_string_member(v, "tag_name") {
        Some(t) => t,
        None => return None,
    };
    let name = match json_string_member(v, "name") {
        Some(n) => n,
        None => return None,
    };
    Some(ReleaseIdentity { tag_name, name })
}

/// The cached identity, from the record's text if the record exists. A record
/// that is not JSON or lacks a field counts as no cached version.
pub fn read_cached(record: &Option<String>) -> (r: Option<ReleaseIdentity>)
    ensures
        match record {
            Some(text) => match read_record_spec(text@) {
                Some(idv) => r matches Some(id) && id@ == idv,
                None => r is None,
            },
            None => r is None,
        },
{
    match record {
        Some(text) => {
            if !nesting_within_limit(text.as_str()) {
                return None;
            }
            match parse_json(text.as_str()) {
                Some(v) => record_from_json(&v),
                None => None,
            }
        },
        None => None,
    }
}

} // verus!
