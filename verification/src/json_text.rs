//! JSON text of values: string literals and the compact form that
//! `serde_json::to_string` writes.
use vstd::prelude::*;

use crate::debug_text::number_text;
use crate::json::JsonValue;
use crate::text::{join_strings, join_with, push_text, str_chars, string_from_chars, texts};

verus! {

/// A lower-case hexadecimal digit.
pub open spec fn hex_digit(d: int) -> char {
    if d < 10 {
        (48 + d) as char
    } else {
        (87 + d) as char
    }
}

/// How one character appears inside a JSON string literal: quote and
/// backslash escaped, control characters as `\b \t \n \f \r` or `\u00XX`.
pub open spec fn json_escape(c: char) -> Seq<char> {
    if c == '"' {
        seq!['\\', '"']
    } else if c == '\\' {
        seq!['\\', '\\']
    } else if c == '\x08' {
        seq!['\\', 'b']
    } else if c == '\t' {
        seq!['\\', 't']
    } else if c == '\n' {
        seq!['\\', 'n']
    } else if c == '\x0c' {
        seq!['\\', 'f']
    } else if c == '\r' {
        seq!['\\', 'r']
    } else if (c as int) < 32 {
        seq!['\\', 'u', '0', '0', hex_digit((c as int) / 16), hex_digit((c as int) % 16)]
    } else {
        seq![c]
    }
}

/// The escaped characters of `s`, one after the other.
pub open spec fn json_escaped(s: Seq<char>) -> Seq<char>
    decreases s.len(),
{
    if s.len() == 0 {
        Seq::empty()
    } else {
        json_escaped(s.drop_last()) + json_escape(s.last())
    }
}

/// The JSON string literal of `s`.
pub open spec fn json_quoted(s: Seq<char>) -> Seq<char> {
    seq!['"'] + json_escaped(s) + seq!['"']
}

/// `serde_json::to_string` of a string slice: the JSON string literal, with
/// `"` and `\` escaped, `\b \t \n \f \r` for those control characters and
/// `\u00XX` (lower-case hex) for the other characters below U+0020; every
/// other character is written as it is. Serialising a `&str` cannot fail.
#[verifier::external_body]
pub(crate) fn json_string_literal(s: &str) -> (r: String)
    ensures
        r@ == json_quoted(s@),
{
    serde_json::to_string(s).unwrap_or_default()
}

/// Compact JSON text of a value, as `serde_json::to_string` (and `Display`)
/// write it: no spaces, members in the order kept.
pub open spec fn json_compact(v: JsonValue) -> Seq<char>
    decreases v, 0int,
{
    match v {
        JsonValue::Null => "null"@,
        JsonValue::Bool(b) => if b {
            "true"@
        } else {
            "false"@
        },
        JsonValue::Number(n) => number_text(n),
        JsonValue::Str(s) => json_quoted(s@),
        JsonValue::Array(xs) => seq!['['] + join_with(compact_items(xs@, xs@.len() as int), ","@)
            + seq![']'],
        JsonValue::Object(kvs) => seq!['{'] + join_with(compact_members(kvs@, kvs@.len() as int), ","@)
            + seq!['}'],
    }
}

/// Compact text of the first `n` elements.
pub open spec fn compact_items(xs: Seq<JsonValue>, n: int) -> Seq<Seq<char>>
    decreases xs, n,
{
    if n <= 0 || n > xs.len() {
        Seq::empty()
    } else {
        compact_items(xs, n - 1).push(json_compact(xs[n - 1]))
    }
}

/// Compact text of the first `n` members: `"key":value`.
pub open spec fn compact_members(kvs: Seq<(String, JsonValue)>, n: int) -> Seq<Seq<char>>
    decreases kvs, n,
{
    if n <= 0 || n > kvs.len() {
        Seq::empty()
    } else {
        compact_members(kvs, n - 1).push(json_quoted(kvs[n - 1].0@) + seq![':'] + json_compact(kvs[n - 1].1))
    }
}

fn number_string(n: &crate::json::JsonNumber) -> (r: String)
    ensures
        r@ == number_text(*n),
{
    match n {
        crate::json::JsonNumber::PosInt(u) => crate::debug_text::u64_text(*u),
        crate::json::JsonNumber::NegInt(i) => crate::debug_text::i64_text(*i),
        crate::json::JsonNumber::Float(t) => t.clone(),
    }
}

/// Wrap `mid` between two texts.
pub fn enclose(a: &str, mid: &str, b: &str) -> (r: String)
    ensures
        r@ == a@ + mid@ + b@,
{
    let mut buf: Vec<char> = Vec::new();
    push_text(&mut buf, a);
    push_text(&mut buf, mid);
    push_text(&mut buf, b);
    string_from_chars(&buf)
}

/// `serde_json::to_string(v)` for a value of the model.
pub fn json_compact_text(v: &JsonValue) -> (r: String)
    ensures
        r@ == json_compact(*v),
    decreases v,
{
    match v {
        JsonValue::Null => String::from_str("null"),
        JsonValue::Bool(b) => if *b {
            String::from_str("true")
        } else {
            String::from_str("false")
        },
        JsonValue::Number(n) => number_string(n),
        JsonValue::Str(s) => json_string_literal(s.as_str()),
        JsonValue::Array(xs) => {
            let mut items: Vec<String> = Vec::new();
            let mut i: usize = 0;
            while i < xs.len()
                invariant
                    i <= xs.len(),
                    *v == JsonValue::Array(*xs),
                    texts(items@) == compact_items(xs@, i as int),
                decreases xs.len() - i,
            {
                proof {
                    assert(decreases_to!(*v => (*v)->Array_0));
                    assert(decreases_to!(*v => xs@[i as int]));
                }
                let t = json_compact_text(&xs[i]);
                let ghost before = items@;
                items.push(t);
                assert(texts(items@) =~= texts(before).push(t@));
                i = i + 1;
            }
            let body = join_strings(&items, ",");
            proof {
                reveal_strlit("[");
                reveal_strlit("]");
            }
            enclose("[", body.as_str(), "]")
        },
        JsonValue::Object(kvs) => {
            let mut items: Vec<String> = Vec::new();
            let mut i: usize = 0;
            while i < kvs.len()
                invariant
                    i <= kvs.len(),
                    *v == JsonValue::Object(*kvs),
                    texts(items@) == compact_members(kvs@, i as int),
                decreases kvs.len() - i,
            {
                proof {
                    assert(decreases_to!(*v => (*v)->Object_0));
                    assert(decreases_to!(*v => kvs@[i as int].1));
                }
                let k = json_string_literal(kvs[i].0.as_str());
                let val = json_compact_text(&kvs[i].1);
                let t = enclose(k.as_str(), ":", val.as_str());
                proof {
                    reveal_strlit(":");
                    assert(":"@ =~= seq![':']);
                    assert(t@ == json_quoted(kvs@[i as int].0@) + seq![':'] + json_compact(kvs@[i as int].1));
                }
                let ghost before = items@;
                items.push(t);
                assert(texts(items@) =~= texts(before).push(t@));
                i = i + 1;
            }
            let body = join_strings(&items, ",");
            proof {
                reveal_strlit("{");
                reveal_strlit("}");
            }
            enclose("{", body.as_str(), "}")
        },
    }
}

} // verus!
