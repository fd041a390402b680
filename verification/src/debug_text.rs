//! The `{:?}` texts that reports show for shapes, names and JSON values.
use vstd::prelude::*;

use crate::json::{JsonNumber, JsonValue};
use crate::text::{chars_concat, str_chars, string_from_chars};

verus! {

/// What `format!("{:?}", s)` gives for a string: quoted, with escapes.
pub uninterp spec fn str_debug_of(s: Seq<char>) -> Seq<char>;

/// `format!("{:?}", s)` for a string slice.
#[verifier::external_body]
pub(crate) fn debug_str(s: &str) -> (r: String)
    ensures
        r@ == str_debug_of(s@),
{
    format!("{:?}", s)
}

pub open spec fn digit_char(d: int) -> char {
    if d == 0 {
        '0'
    } else if d == 1 {
        '1'
    } else if d == 2 {
        '2'
    } else if d == 3 {
        '3'
    } else if d == 4 {
        '4'
    } else if d == 5 {
        '5'
    } else if d == 6 {
        '6'
    } else if d == 7 {
        '7'
    } else if d == 8 {
        '8'
    } else {
        '9'
    }
}

/// Decimal digits of a natural number, without leading zeros.
pub open spec fn decimal(n: nat) -> Seq<char>
    decreases n,
{
    if n < 10 {
        seq![digit_char(n as int)]
    } else {
        decimal(n / 10) + seq![digit_char((n % 10) as int)]
    }
}

/// Decimal text of an integer, with `-` before a negative one.
pub open spec fn int_text(i: int) -> Seq<char> {
    if i < 0 {
        seq!['-'] + decimal((-i) as nat)
    } else {
        decimal(i as nat)
    }
}

fn digit(d: u64) -> (c: char)
    requires
        d < 10,
    ensures
        c == digit_char(d as int),
{
    if d == 0 {
        '0'
    } else if d == 1 {
        '1'
    } else if d == 2 {
        '2'
    } else if d == 3 {
        '3'
    } else if d == 4 {
        '4'
    } else if d == 5 {
        '5'
    } else if d == 6 {
        '6'
    } else if d == 7 {
        '7'
    } else if d == 8 {
        '8'
    } else {
        '9'
    }
}

fn decimal_chars(n: u64) -> (r: Vec<char>)
    ensures
        r@ == decimal(n as nat),
    decreases n,
{
    if n < 10 {
        let mut v: Vec<char> = Vec::new();
        v.push(digit(n));
        assert(v@ =~= decimal(n as nat));
        v
    } else {
        let mut v = decimal_chars(n / 10);
        v.push(digit(n % 10));
        v
    }
}

/// Decimal text of an unsigned integer (`u64::to_string`).
pub fn u64_text(n: u64) -> (r: String)
    ensures
        r@ == decimal(n as nat),
{
    let v = decimal_chars(n);
    string_from_chars(&v)
}

/// Decimal text of a signed integer (`i64::to_string`).
pub fn i64_text(i: i64) -> (r: String)
    ensures
        r@ == int_text(i as int),
{
    if i < 0 {
        let m: u64 = ((-(i + 1)) as u64) + 1;
        let mut v: Vec<char> = Vec::new();
        v.push('-');
        let d = decimal_chars(m);
        let all = chars_concat(&v, &d);
        assert(all@ =~= int_text(i as int));
        string_from_chars(&all)
    } else {
        u64_text(i as u64)
    }
}

/// Items joined by `, ` (the separator of `Debug` lists and maps).
pub open spec fn join_comma(items: Seq<Seq<char>>) -> Seq<char>
    decreases items.len(),
{
    if items.len() == 0 {
        Seq::empty()
    } else if items.len() == 1 {
        items[0]
    } else {
        join_comma(items.drop_last()) + ", "@ + items.last()
    }
}

pub open spec fn list_debug(items: Seq<Seq<char>>) -> Seq<char> {
    seq!['['] + join_comma(items) + seq![']']
}

/// `{:?}` of a `Vec<u64>`: `[1, 2, 3]`.
pub open spec fn u64s_debug(v: Seq<u64>) -> Seq<char> {
    list_debug(Seq::new(v.len(), |i: int| decimal(v[i] as nat)))
}

/// `{:?}` of a `Vec<String>`: each item quoted and escaped.
pub open spec fn strings_debug(v: Seq<Seq<char>>) -> Seq<char> {
    list_debug(Seq::new(v.len(), |i: int| str_debug_of(v[i])))
}

/// Appends `item` to a `, `-separated list that already holds `n` items.
fn push_item(buf: &mut Vec<char>, n: usize, item: &Vec<char>, ghost_items: Ghost<Seq<Seq<char>>>)
    requires
        old(buf)@ == seq!['['] + join_comma(ghost_items@),
        ghost_items@.len() == n,
    ensures
        final(buf)@ == seq!['['] + join_comma(ghost_items@.push(item@)),
{
    let ghost items = ghost_items@;
    let ghost all = items.push(item@);
    assert(all.drop_last() =~= items);
    if n > 0 {
        let sep = str_chars(", ");
        let a = chars_concat(buf, &sep);
        let b = chars_concat(&a, item);
        *buf = b;
        assert(buf@ =~= seq!['['] + join_comma(all));
    } else {
        let b = chars_concat(buf, item);
        *buf = b;
        assert(buf@ =~= seq!['['] + join_comma(all));
    }
}

/// `format!("{:?}", v)` for a list of unsigned integers.
pub fn u64s_debug_text(v: &[u64]) -> (r: String)
    ensures
        r@ == u64s_debug(v@),
{
    let ghost want = Seq::new(v@.len(), |i: int| decimal(v@[i] as nat));
    let mut buf: Vec<char> = Vec::new();
    buf.push('[');
    assert(buf@ =~= seq!['['] + join_comma(want.subrange(0, 0)));
    let mut i: usize = 0;
    while i < v.len()
        invariant
            i <= v.len(),
            want == Seq::new(v@.len(), |i: int| decimal(v@[i] as nat)),
            buf@ == seq!['['] + join_comma(want.subrange(0, i as int)),
        decreases v.len() - i,
    {
        let item = decimal_chars(v[i]);
        push_item(&mut buf, i, &item, Ghost(want.subrange(0, i as int)));
        assert(want.subrange(0, i as int).push(item@) =~= want.subrange(0, i + 1));
        i = i + 1;
    }
    buf.push(']');
    assert(want.subrange(0, v@.len() as int) =~= want);
    assert(buf@ =~= u64s_debug(v@));
    string_from_chars(&buf)
}

/// `format!("{:?}", v)` for a list of strings.
pub fn strings_debug_text(v: &Vec<String>) -> (r: String)
    ensures
        r@ == strings_debug(v@.map_values(|s: String| s@)),
{
    let ghost names = v@.map_values(|s: String| s@);
    let ghost want = Seq::new(names.len(), |i: int| str_debug_of(names[i]));
    let mut buf: Vec<char> = Vec::new();
    buf.push('[');
    assert(buf@ =~= seq!['['] + join_comma(want.subrange(0, 0)));
    let mut i: usize = 0;
    while i < v.len()
        invariant
            i <= v.len(),
            names == v@.map_values(|s: String| s@),
            want == Seq::new(names.len(), |i: int| str_debug_of(names[i])),
            buf@ == seq!['['] + join_comma(want.subrange(0, i as int)),
        decreases v.len() - i,
    {
        let d = debug_str(v[i].as_str());
        let item = str_chars(d.as_str());
        push_item(&mut buf, i, &item, Ghost(want.subrange(0, i as int)));
        assert(want.subrange(0, i as int).push(item@) =~= want.subrange(0, i + 1));
        i = i + 1;
    }
    buf.push(']');
    assert(want.subrange(0, names.len() as int) =~= want);
    assert(buf@ =~= strings_debug(names));
    string_from_chars(&buf)
}

/// Display text of a JSON number.
pub open spec fn number_text(n: JsonNumber) -> Seq<char> {
    match n {
        JsonNumber::PosInt(u) => decimal(u as nat),
        JsonNumber::NegInt(i) => int_text(i as int),
        JsonNumber::Float(t) => t@,
    }
}

/// `{:?}` of a JSON value, as `serde_json::Value` writes it.
pub open spec fn json_debug(v: JsonValue) -> Seq<char>
    decreases v, 0int,
{
    match v {
        JsonValue::Null => "Null"@,
        JsonValue::Bool(b) => if b {
            "Bool(true)"@
        } else {
            "Bool(false)"@
        },
        JsonValue::Number(n) => "Number("@ + number_text(n) + ")"@,
        JsonValue::Str(s) => "String("@ + str_debug_of(s@) + ")"@,
        JsonValue::Array(xs) => "Array "@ + list_debug(array_items(xs@, xs@.len() as int)),
        JsonValue::Object(kvs) => "Object "@ + seq!['{'] + join_comma(
            member_items(kvs@, kvs@.len() as int),
        ) + seq!['}'],
    }
}

/// `{:?}` of the first `n` elements of an array.
pub open spec fn array_items(xs: Seq<JsonValue>, n: int) -> Seq<Seq<char>>
    decreases xs, n,
{
    if n <= 0 || n > xs.len() {
        Seq::empty()
    } else {
        array_items(xs, n - 1).push(json_debug(xs[n - 1]))
    }
}

/// `{:?}` of the first `n` members of an object: `"key": value`.
pub open spec fn member_items(kvs: Seq<(String, JsonValue)>, n: int) -> Seq<Seq<char>>
    decreases kvs, n,
{
    if n <= 0 || n > kvs.len() {
        Seq::empty()
    } else {
        member_items(kvs, n - 1).push(str_debug_of(kvs[n - 1].0@) + ": "@ + json_debug(kvs[n - 1].1))
    }
}

proof fn lemma_array_items_len(xs: Seq<JsonValue>, n: int)
    requires
        0 <= n <= xs.len(),
    ensures
        array_items(xs, n).len() == n,
    decreases n,
{
    if n > 0 {
        lemma_array_items_len(xs, n - 1);
    }
}

proof fn lemma_member_items_len(kvs: Seq<(String, JsonValue)>, n: int)
    requires
        0 <= n <= kvs.len(),
    ensures
        member_items(kvs, n).len() == n,
    decreases n,
{
    if n > 0 {
        lemma_member_items_len(kvs, n - 1);
    }
}

/// `{:?}` of an optional JSON value.
pub open spec fn opt_json_debug(v: Option<JsonValue>) -> Seq<char> {
    match v {
        None => "None"@,
        Some(x) => "Some("@ + json_debug(x) + ")"@,
    }
}

fn number_text_exec(n: &JsonNumber) -> (r: Vec<char>)
    ensures
        r@ == number_text(*n),
{
    match n {
        JsonNumber::PosInt(u) => decimal_chars(*u),
        JsonNumber::NegInt(i) => {
            let t = i64_text(*i);
            str_chars(t.as_str())
        },
        JsonNumber::Float(t) => str_chars(t.as_str()),
    }
}

fn wrap(a: &str, mid: &Vec<char>, b: &str) -> (r: Vec<char>)
    ensures
        r@ == a@ + mid@ + b@,
{
    let x = str_chars(a);
    let z = str_chars(b);
    let xy = chars_concat(&x, mid);
    chars_concat(&xy, &z)
}

/// `format!("{:?}", v)` for a JSON value.
pub fn json_debug_chars(v: &JsonValue) -> (r: Vec<char>)
    ensures
        r@ == json_debug(*v),
    decreases v,
{
    match v {
        JsonValue::Null => str_chars("Null"),
        JsonValue::Bool(b) => if *b {
            str_chars("Bool(true)")
        } else {
            str_chars("Bool(false)")
        },
        JsonValue::Number(n) => {
            let t = number_text_exec(n);
            wrap("Number(", &t, ")")
        },
        JsonValue::Str(s) => {
            let d = debug_str(s.as_str());
            let t = str_chars(d.as_str());
            wrap("String(", &t, ")")
        },
        JsonValue::Array(xs) => {
            let mut buf: Vec<char> = Vec::new();
            buf.push('[');
            assert(buf@ =~= seq!['['] + join_comma(array_items(xs@, 0)));
            let mut i: usize = 0;
            while i < xs.len()
                invariant
                    i <= xs.len(),
                    *v == JsonValue::Array(*xs),
                    buf@ == seq!['['] + join_comma(array_items(xs@, i as int)),
                decreases xs.len() - i,
            {
                proof {
                    assert(decreases_to!(*v => (*v)->Array_0));
                    assert(decreases_to!(*v => xs@[i as int]));
                }
                let item = json_debug_chars(&xs[i]);
                proof {
                    lemma_array_items_len(xs@, i as int);
                }
                push_item(&mut buf, i, &item, Ghost(array_items(xs@, i as int)));
                i = i + 1;
            }
            buf.push(']');
            let head = str_chars("Array ");
            let all = chars_concat(&head, &buf);
            proof {
                reveal_strlit("Array ");
                assert(all@ =~= json_debug(*v));
            }
            all
        },
        JsonValue::Object(kvs) => {
            let mut buf: Vec<char> = Vec::new();
            buf.push('[');
            assert(buf@ =~= seq!['['] + join_comma(member_items(kvs@, 0)));
            let mut i: usize = 0;
            while i < kvs.len()
                invariant
                    i <= kvs.len(),
                    *v == JsonValue::Object(*kvs),
                    buf@ == seq!['['] + join_comma(member_items(kvs@, i as int)),
                decreases kvs.len() - i,
            {
                proof {
                    assert(decreases_to!(*v => (*v)->Object_0));
                    assert(decreases_to!(*v => kvs@[i as int].1));
                }
                let key = debug_str(kvs[i].0.as_str());
                let k = str_chars(key.as_str());
                let val = json_debug_chars(&kvs[i].1);
                let sep = str_chars(": ");
                let kc = chars_concat(&k, &sep);
                let item = chars_concat(&kc, &val);
                proof {
                    lemma_member_items_len(kvs@, i as int);
                }
                push_item(&mut buf, i, &item, Ghost(member_items(kvs@, i as int)));
                i = i + 1;
            }
            let body = chars_slice_from_one(&buf);
            let head = str_chars("Object {");
            let hb = chars_concat(&head, &body);
            let mut all = hb;
            all.push('}');
            proof {
                reveal_strlit("Object {");
                reveal_strlit("Object ");
                assert(all@ =~= json_debug(*v));
            }
            all
        },
    }
}

fn chars_slice_from_one(buf: &Vec<char>) -> (r: Vec<char>)
    requires
        buf@.len() >= 1,
    ensures
        r@ == buf@.subrange(1, buf@.len() as int),
{
    crate::text::chars_slice(buf, 1, buf.len())
}

/// `format!("{:?}", v)` for an optional JSON value.
pub fn opt_json_debug_text(v: &Option<JsonValue>) -> (r: String)
    ensures
        r@ == opt_json_debug(*v),
{
    match v {
        None => String::from_str("None"),
        Some(x) => {
            let t = json_debug_chars(x);
            let w = wrap("Some(", &t, ")");
            string_from_chars(&w)
        },
    }
}

} // verus!
