//! JSON values as metadata attributes carry them: the model that the
//! metadata logic reads, with object members in the order the map gives them.
use vstd::prelude::*;

verus! {

/// A JSON number: a non-negative integer, a negative integer, or any other
/// number kept as the text `serde_json` writes for its `f64` value (the
/// shortest text that reads back as that value, so one text per value, but
/// for zero, written `0.0` or `-0.0`).
#[derive(Debug, Clone, PartialEq, Eq)]
pub enum JsonNumber {
    PosInt(u64),
    NegInt(i64),
    Float(String),
}

/// A JSON value. Object members are kept in the order of the map they were
/// read from; a map read by `serde_json` never holds a key twice.
#[derive(Debug, PartialEq)]
pub enum JsonValue {
    Null,
    Bool(bool),
    Number(JsonNumber),
    Str(String),
    Array(Vec<JsonValue>),
    Object(Vec<(String, JsonValue)>),
}

pub enum NumberView {
    PosInt(u64),
    NegInt(i64),
    Float(Seq<char>),
}

/// Abstract value of a JSON value.
pub enum JsonView {
    Null,
    Bool(bool),
    Number(NumberView),
    Str(Seq<char>),
    Array(Seq<JsonView>),
    Object(Seq<(Seq<char>, JsonView)>),
}

pub open spec fn number_view(n: JsonNumber) -> NumberView {
    match n {
        JsonNumber::PosInt(u) => NumberView::PosInt(u),
        JsonNumber::NegInt(i) => NumberView::NegInt(i),
        JsonNumber::Float(t) => NumberView::Float(t@),
    }
}

pub open spec fn jview(v: JsonValue) -> JsonView
    decreases v,
{
    match v {
        JsonValue::Null => JsonView::Null,
        JsonValue::Bool(b) => JsonView::Bool(b),
        JsonValue::Number(n) => JsonView::Number(number_view(n)),
        JsonValue::Str(s) => JsonView::Str(s@),
        JsonValue::Array(xs) => JsonView::Array(
            Seq::new(
                xs@.len(),
                |i: int|
                    if 0 <= i < xs@.len() {
                        jview(xs@[i])
                    } else {
                        JsonView::Null
                    },
            ),
        ),
        JsonValue::Object(kvs) => JsonView::Object(
            Seq::new(
                kvs@.len(),
                |i: int|
                    if 0 <= i < kvs@.len() {
                        (kvs@[i].0@, jview(kvs@[i].1))
                    } else {
                        (Seq::empty(), JsonView::Null)
                    },
            ),
        ),
    }
}

/// Abstract value of an object's members.
pub open spec fn members_view(kvs: Seq<(String, JsonValue)>) -> Seq<(Seq<char>, JsonView)> {
    Seq::new(kvs.len(), |i: int| (kvs[i].0@, jview(kvs[i].1)))
}

/// The two texts of the `f64` zero.
pub open spec fn is_zero_text(t: Seq<char>) -> bool {
    t == "0.0"@ || t == "-0.0"@
}

/// Equality of two numbers as `serde_json` has it: integers by value, other
/// numbers by their `f64` value (equal texts, or the two texts of zero); an
/// integer never equals a number of the other kinds.
pub open spec fn number_equiv(a: NumberView, b: NumberView) -> bool {
    match (a, b) {
        (NumberView::PosInt(x), NumberView::PosInt(y)) => x == y,
        (NumberView::NegInt(x), NumberView::NegInt(y)) => x == y,
        (NumberView::Float(x), NumberView::Float(y)) => x == y || (is_zero_text(x) && is_zero_text(y)),
        _ => false,
    }
}

/// Equality of two JSON values as `serde_json::Value`'s `==` has it: arrays
/// element by element; objects of the same size where each member of the
/// first has a member of the same key and an equal value in the second
/// (for maps, whose keys are distinct, this is `Map`'s `==`, which ignores
/// the order of the members).
pub open spec fn jequiv(a: JsonValue, b: JsonValue) -> bool
    decreases a, 0nat,
{
    match a {
        JsonValue::Null => b is Null,
        JsonValue::Bool(x) => b matches JsonValue::Bool(y) && x == y,
        JsonValue::Number(x) => b matches JsonValue::Number(y) && number_equiv(number_view(x), number_view(y)),
        JsonValue::Str(x) => b matches JsonValue::Str(y) && x@ == y@,
        JsonValue::Array(xs) => b matches JsonValue::Array(ys) && xs@.len() == ys@.len() && forall|i: int|
            #![trigger xs@[i]]
            0 <= i < xs@.len() ==> jequiv(xs@[i], ys@[i]),
        JsonValue::Object(xs) => b matches JsonValue::Object(ys) && xs@.len() == ys@.len() && forall|i: int|
            #![trigger xs@[i]]
            0 <= i < xs@.len() ==> has_equal_member(ys@, xs@[i].0@, xs@[i].1),
    }
}

/// Some member of `ys` has the key `key` and a value equal to `v`.
pub open spec fn has_equal_member(ys: Seq<(String, JsonValue)>, key: Seq<char>, v: JsonValue) -> bool
    decreases v, 1nat,
{
    exists|j: int| #![trigger ys[j]] 0 <= j < ys.len() && ys[j].0@ == key && jequiv(v, ys[j].1)
}

/// Equality of two objects' members (see `jequiv`).
pub open spec fn members_equiv(xs: Seq<(String, JsonValue)>, ys: Seq<(String, JsonValue)>) -> bool {
    xs.len() == ys.len() && forall|i: int|
        #![trigger xs[i]]
        0 <= i < xs.len() ==> has_equal_member(ys, xs[i].0@, xs[i].1)
}

/// Every value equals itself.
pub proof fn lemma_jequiv_refl(a: JsonValue)
    ensures
        jequiv(a, a),
    decreases a,
{
    match a {
        JsonValue::Array(xs) => {
            assert forall|i: int| #![trigger xs@[i]] 0 <= i < xs@.len() implies jequiv(xs@[i], xs@[i]) by {
                assert(decreases_to!(a => a->Array_0));
                assert(decreases_to!(a => xs@[i]));
                lemma_jequiv_refl(xs@[i]);
            }
        },
        JsonValue::Object(xs) => {
            assert forall|i: int| #![trigger xs@[i]] 0 <= i < xs@.len() implies has_equal_member(
                xs@,
                xs@[i].0@,
                xs@[i].1,
            ) by {
                assert(decreases_to!(a => a->Object_0));
                assert(decreases_to!(a => xs@[i]));
                assert(decreases_to!(a => xs@[i].1));
                lemma_jequiv_refl(xs@[i].1);
                assert(xs@[i] == xs@[i]);
            }
        },
        _ => {},
    }
}

/// Members always equal themselves.
pub proof fn lemma_members_equiv_refl(xs: Seq<(String, JsonValue)>)
    ensures
        members_equiv(xs, xs),
{
    assert forall|i: int| #![trigger xs[i]] 0 <= i < xs.len() implies has_equal_member(xs, xs[i].0@, xs[i].1) by {
        lemma_jequiv_refl(xs[i].1);
        assert(xs[i] == xs[i]);
    }
}

fn zero_text(t: &String) -> (r: bool)
    ensures
        r == is_zero_text(t@),
{
    crate::text::str_is(t.as_str(), "0.0") || crate::text::str_is(t.as_str(), "-0.0")
}

fn number_eq(a: &JsonNumber, b: &JsonNumber) -> (r: bool)
    ensures
        r == number_equiv(number_view(*a), number_view(*b)),
{
    match (a, b) {
        (JsonNumber::PosInt(x), JsonNumber::PosInt(y)) => *x == *y,
        (JsonNumber::NegInt(x), JsonNumber::NegInt(y)) => *x == *y,
        (JsonNumber::Float(x), JsonNumber::Float(y)) => *x == *y || (zero_text(x) && zero_text(y)),
        _ => false,
    }
}

/// Equality of two JSON values (`serde_json::Value`'s `==`, see `jequiv`).
pub fn json_eq(a: &JsonValue, b: &JsonValue) -> (r: bool)
    ensures
        r == jequiv(*a, *b),
    decreases a,
{
    match (a, b) {
        (JsonValue::Null, JsonValue::Null) => true,
        (JsonValue::Bool(x), JsonValue::Bool(y)) => *x == *y,
        (JsonValue::Number(x), JsonValue::Number(y)) => number_eq(x, y),
        (JsonValue::Str(x), JsonValue::Str(y)) => *x == *y,
        (JsonValue::Array(xs), JsonValue::Array(ys)) => {
            if xs.len() != ys.len() {
                return false;
            }
            let mut i: usize = 0;
            while i < xs.len()
                invariant
                    i <= xs.len(),
                    xs.len() == ys.len(),
                    *a == JsonValue::Array(*xs),
                    *b == JsonValue::Array(*ys),
                    forall|j: int| #![trigger xs@[j]] 0 <= j < i ==> jequiv(xs@[j], ys@[j]),
                decreases xs.len() - i,
            {
                proof {
                    assert(decreases_to!(*a => (*a)->Array_0));
                    assert(decreases_to!(*a => xs@[i as int]));
                }
                if !json_eq(&xs[i], &ys[i]) {
                    return false;
                }
                i = i + 1;
            }
            true
        },
        (JsonValue::Object(xs), JsonValue::Object(ys)) => {
            if xs.len() != ys.len() {
                return false;
            }
            let mut i: usize = 0;
            while i < xs.len()
                invariant
                    i <= xs.len(),
                    xs.len() == ys.len(),
                    *a == JsonValue::Object(*xs),
                    *b == JsonValue::Object(*ys),
                    forall|k: int| #![trigger xs@[k]] 0 <= k < i ==> has_equal_member(ys@, xs@[k].0@, xs@[k].1),
                decreases xs.len() - i,
            {
                let x = &xs[i];
                let mut j: usize = 0;
                let mut found = false;
                while j < ys.len()
                    invariant_except_break
                        !found,
                    invariant
                        j <= ys.len(),
                        i < xs.len(),
                        *a == JsonValue::Object(*xs),
                        x == xs@[i as int],
                        forall|k: int|
                            0 <= k < j ==> !(ys@[k].0@ == x.0@ && jequiv(x.1, ys@[k].1)),
                    ensures
                        found ==> has_equal_member(ys@, x.0@, x.1),
                        !found ==> !has_equal_member(ys@, x.0@, x.1),
                    decreases ys.len() - j,
                {
                    proof {
                        assert(decreases_to!(*a => (*a)->Object_0));
                        assert(decreases_to!(*a => xs@[i as int]));
                        assert(decreases_to!(*a => xs@[i as int].1));
                    }
                    if x.0 == ys[j].0 && json_eq(&x.1, &ys[j].1) {
                        assert(ys@[j as int].0@ == x.0@ && jequiv(x.1, ys@[j as int].1));
                        assert(has_equal_member(ys@, x.0@, x.1));
                        found = true;
                        break;
                    }
                    j = j + 1;
                }
                if !found {
                    proof {
                        assert(!jequiv(*a, *b)) by {
                            if jequiv(*a, *b) {
                                assert(xs@[i as int] == *x);
                            }
                        }
                    }
                    return false;
                }
                i = i + 1;
            }
            true
        },
        _ => false,
    }
}

/// Equality of two objects' members (`serde_json::Map`'s `==`, see `members_equiv`).
pub fn members_eq(xs: &Vec<(String, JsonValue)>, ys: &Vec<(String, JsonValue)>) -> (r: bool)
    ensures
        r == members_equiv(xs@, ys@),
{
    if xs.len() != ys.len() {
        return false;
    }
    let mut i: usize = 0;
    while i < xs.len()
        invariant
            i <= xs.len(),
            xs.len() == ys.len(),
            forall|k: int| #![trigger xs@[k]] 0 <= k < i ==> has_equal_member(ys@, xs@[k].0@, xs@[k].1),
        decreases xs.len() - i,
    {
        let x = &xs[i];
        let mut j: usize = 0;
        let mut found = false;
        while j < ys.len()
            invariant_except_break
                !found,
            invariant
                j <= ys.len(),
                i < xs.len(),
                x == xs@[i as int],
                forall|k: int| 0 <= k < j ==> !(ys@[k].0@ == x.0@ && jequiv(x.1, ys@[k].1)),
            ensures
                found ==> has_equal_member(ys@, x.0@, x.1),
                !found ==> !has_equal_member(ys@, x.0@, x.1),
            decreases ys.len() - j,
        {
            if x.0 == ys[j].0 && json_eq(&x.1, &ys[j].1) {
                assert(ys@[j as int].0@ == x.0@ && jequiv(x.1, ys@[j as int].1));
                        assert(has_equal_member(ys@, x.0@, x.1));
                found = true;
                break;
            }
            j = j + 1;
        }
        if !found {
            proof {
                assert(!members_equiv(xs@, ys@)) by {
                    if members_equiv(xs@, ys@) {
                        assert(xs@[i as int] == *x);
                    }
                }
            }
            return false;
        }
        i = i + 1;
    }
    true
}

/// The value of the first member named `key` (`Map::get`).
pub open spec fn member_get(kvs: Seq<(String, JsonValue)>, key: Seq<char>) -> Option<JsonValue>
    decreases kvs.len(),
{
    if kvs.len() == 0 {
        None
    } else if kvs[0].0@ == key {
        Some(kvs[0].1)
    } else {
        member_get(kvs.drop_first(), key)
    }
}

/// `Map::get`: the value of the member named `key`.
pub fn obj_get<'a>(kvs: &'a Vec<(String, JsonValue)>, key: &str) -> (r: Option<&'a JsonValue>)
    ensures
        match member_get(kvs@, key@) {
            Some(v) => r matches Some(x) && *x == v,
            None => r is None,
        },
{
    let k = key.to_string();
    let mut i: usize = 0;
    assert(kvs@.subrange(0, kvs@.len() as int) =~= kvs@);
    while i < kvs.len()
        invariant
            i <= kvs.len(),
            k@ == key@,
            member_get(kvs@, key@) == member_get(kvs@.subrange(i as int, kvs@.len() as int), key@),
        decreases kvs.len() - i,
    {
        let ghost rest = kvs@.subrange(i as int, kvs@.len() as int);
        assert(rest[0] == kvs@[i as int]);
        if kvs[i].0 == k {
            return Some(&kvs[i].1);
        }
        assert(rest.drop_first() =~= kvs@.subrange(i + 1, kvs@.len() as int));
        i = i + 1;
    }
    None
}

/// `Value::as_str`.
pub open spec fn spec_as_str(v: JsonValue) -> Option<Seq<char>> {
    match v {
        JsonValue::Str(s) => Some(s@),
        _ => None,
    }
}

pub fn as_str(v: &JsonValue) -> (r: Option<&str>)
    ensures
        match spec_as_str(*v) {
            Some(t) => r matches Some(x) && x@ == t,
            None => r is None,
        },
{
    match v {
        JsonValue::Str(s) => Some(s.as_str()),
        _ => None,
    }
}

/// The members of an object value are viewed member by member.
pub proof fn lemma_object_members(v: JsonValue)
    requires
        v is Object,
    ensures
        jview(v)->Object_0 == members_view(v->Object_0@),
{
    assert(jview(v)->Object_0 =~= members_view(v->Object_0@));
}

/// A copy of a JSON value (`Value::clone`).
pub fn json_clone(v: &JsonValue) -> (r: JsonValue)
    ensures
        jview(r) == jview(*v),
    decreases v,
{
    match v {
        JsonValue::Null => JsonValue::Null,
        JsonValue::Bool(b) => JsonValue::Bool(*b),
        JsonValue::Number(n) => JsonValue::Number(
            match n {
                JsonNumber::PosInt(u) => JsonNumber::PosInt(*u),
                JsonNumber::NegInt(i) => JsonNumber::NegInt(*i),
                JsonNumber::Float(t) => JsonNumber::Float(t.clone()),
            },
        ),
        JsonValue::Str(s) => JsonValue::Str(s.clone()),
        JsonValue::Array(xs) => {
            let mut out: Vec<JsonValue> = Vec::new();
            let mut i: usize = 0;
            while i < xs.len()
                invariant
                    i <= xs.len(),
                    *v == JsonValue::Array(*xs),
                    out@.len() == i,
                    forall|k: int| 0 <= k < i ==> jview(#[trigger] out@[k]) == jview(xs@[k]),
                decreases xs.len() - i,
            {
                proof {
                    assert(decreases_to!(*v => (*v)->Array_0));
                    assert(decreases_to!(*v => xs@[i as int]));
                }
                out.push(json_clone(&xs[i]));
                i = i + 1;
            }
            let r = JsonValue::Array(out);
            proof {
                assert(jview(r)->Array_0 =~= jview(*v)->Array_0);
            }
            r
        },
        JsonValue::Object(kvs) => {
            let out = members_clone(kvs);
            let r = JsonValue::Object(out);
            proof {
                lemma_object_members(r);
                lemma_object_members(*v);
            }
            r
        },
    }
}

/// A copy of an object's members.
pub fn members_clone(kvs: &Vec<(String, JsonValue)>) -> (r: Vec<(String, JsonValue)>)
    ensures
        members_view(r@) == members_view(kvs@),
    decreases kvs@,
{
    let mut out: Vec<(String, JsonValue)> = Vec::new();
    let mut i: usize = 0;
    while i < kvs.len()
        invariant
            i <= kvs.len(),
            out@.len() == i,
            forall|k: int|
                0 <= k < i ==> (#[trigger] out@[k]).0@ == kvs@[k].0@ && jview(out@[k].1) == jview(kvs@[k].1),
        decreases kvs.len() - i,
    {
        proof {
            assert(decreases_to!(kvs@ => kvs@[i as int]));
        }
        let c = json_clone(&kvs[i].1);
        out.push((kvs[i].0.clone(), c));
        i = i + 1;
    }
    assert(members_view(out@) =~= members_view(kvs@));
    out
}

} // verus!
