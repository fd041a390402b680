//! The attribute tree of a product's root metadata: flat `a:b:c` keys are
//! merged into nested groups; nested objects and arrays are kept.
use vstd::prelude::*;

use crate::debug_text::{decimal, int_text, u64_text};
use crate::json::{json_clone, jview, lemma_object_members, members_view, JsonNumber, JsonValue, JsonView, NumberView};
use crate::json_text::enclose;
use crate::order::{chars_lex_le, idx_view, keys_view, lex_le, sort_idx, sorted_indices};
use crate::text::{chars_split, join_strings, join_with, split_char, str_chars, string_from_chars, texts};
use crate::zarr::location::clone_string;
use crate::zarr::tree::{ZarrNodeKind, ZarrTreeNode};

verus! {

/// One node of the attribute tree.
#[derive(Debug)]
pub enum AttributeNode {
    Scalar { name: String, value: String },
    Group { name: String, children: Vec<AttributeNode> },
    Array { name: String, children: Vec<AttributeNode> },
}

/// Abstract value of an attribute node.
pub enum AttrView {
    Scalar(Seq<char>, Seq<char>),
    Group(Seq<char>, Seq<AttrView>),
    Array(Seq<char>, Seq<AttrView>),
}

pub open spec fn attr_view(n: AttributeNode) -> AttrView
    decreases n,
{
    match n {
        AttributeNode::Scalar { name, value } => AttrView::Scalar(name@, value@),
        AttributeNode::Group { name, children } => AttrView::Group(
            name@,
            Seq::new(
                children@.len(),
                |i: int|
                    if 0 <= i < children@.len() {
                        attr_view(children@[i])
                    } else {
                        AttrView::Scalar(Seq::empty(), Seq::empty())
                    },
            ),
        ),
        AttributeNode::Array { name, children } => AttrView::Array(
            name@,
            Seq::new(
                children@.len(),
                |i: int|
                    if 0 <= i < children@.len() {
                        attr_view(children@[i])
                    } else {
                        AttrView::Scalar(Seq::empty(), Seq::empty())
                    },
            ),
        ),
    }
}

/// Abstract values of a list of nodes.
pub open spec fn attr_views(ns: Seq<AttributeNode>) -> Seq<AttrView> {
    Seq::new(ns.len(), |i: int| attr_view(ns[i]))
}

// ---------------------------------------------------------------------------
// The merged key map: members kept in key order (the tree lists members by
// key, so the order the map keeps them in is not seen)
// ---------------------------------------------------------------------------

/// Where `k` is in `m`, scanning in key order: `(i, true)` when member `i`
/// has key `k`, else `(i, false)` with `i` the place where `k` belongs.
pub open spec fn scan(m: Seq<(Seq<char>, JsonView)>, k: Seq<char>) -> (int, bool)
    decreases m.len(),
{
    if m.len() == 0 {
        (0, false)
    } else if m[0].0 == k {
        (0, true)
    } else if !lex_le(m[0].0, k) {
        (0, false)
    } else {
        let (i, f) = scan(m.drop_first(), k);
        (i + 1, f)
    }
}

/// `scan` stays within the map, and a found key is where it says.
pub proof fn lemma_scan(m: Seq<(Seq<char>, JsonView)>, k: Seq<char>)
    ensures
        0 <= scan(m, k).0 <= m.len(),
        scan(m, k).1 ==> scan(m, k).0 < m.len() && m[scan(m, k).0].0 == k,
    decreases m.len(),
{
    if m.len() > 0 && m[0].0 != k && lex_le(m[0].0, k) {
        lemma_scan(m.drop_first(), k);
    }
}

/// Insert into the merged map: replace the value of `k`, or add `k` in key order.
pub open spec fn mput(m: Seq<(Seq<char>, JsonView)>, k: Seq<char>, v: JsonView) -> Seq<(Seq<char>, JsonView)> {
    let (i, f) = scan(m, k);
    if f {
        m.update(i, (k, v))
    } else {
        m.insert(i, (k, v))
    }
}

proof fn lemma_scan_insert(m: Seq<(Seq<char>, JsonView)>, k: Seq<char>, v: JsonView)
    requires
        !scan(m, k).1,
    ensures
        scan(m.insert(scan(m, k).0, (k, v)), k) == (scan(m, k).0, true),
    decreases m.len(),
{
    lemma_scan(m, k);
    let i = scan(m, k).0;
    if m.len() > 0 && m[0].0 != k && lex_le(m[0].0, k) {
        lemma_scan(m.drop_first(), k);
        lemma_scan_insert(m.drop_first(), k, v);
        assert(i == scan(m.drop_first(), k).0 + 1);
        let a = m.insert(i, (k, v)).drop_first();
        let b = m.drop_first().insert(i - 1, (k, v));
        assert(a.len() == b.len());
        assert(a =~= b);
        assert(m.insert(i, (k, v))[0] == m[0]);
    }
}

proof fn lemma_scan_update(m: Seq<(Seq<char>, JsonView)>, k: Seq<char>, v: JsonView)
    requires
        scan(m, k).1,
    ensures
        scan(m.update(scan(m, k).0, (k, v)), k) == scan(m, k),
    decreases m.len(),
{
    lemma_scan(m, k);
    let i = scan(m, k).0;
    if m.len() > 0 && m[0].0 != k && lex_le(m[0].0, k) {
        lemma_scan(m.drop_first(), k);
        lemma_scan_update(m.drop_first(), k, v);
        assert(m.update(i, (k, v)).drop_first() =~= m.drop_first().update(i - 1, (k, v)));
    }
}

/// Reading a key back after putting it gives the value put.
pub proof fn lemma_mput_reads_back(m: Seq<(Seq<char>, JsonView)>, k: Seq<char>, v: JsonView)
    ensures
        scan(mput(m, k, v), k).1,
        mput(m, k, v)[scan(mput(m, k, v), k).0] == (k, v),
{
    lemma_scan(m, k);
    if scan(m, k).1 {
        lemma_scan_update(m, k, v);
    } else {
        lemma_scan_insert(m, k, v);
    }
}

/// Merge `v` under key `k`: into an existing object when both are objects
/// (member by member), else as the new value of `k`.
pub open spec fn smerge(m: Seq<(Seq<char>, JsonView)>, k: Seq<char>, v: JsonView) -> Seq<(Seq<char>, JsonView)>
    decreases v, 0int,
{
    let (i, f) = scan(m, k);
    if f && m[i].1 is Object && v is Object {
        m.update(i, (k, JsonView::Object(smerge_all(m[i].1->Object_0, v->Object_0, v->Object_0.len() as int))))
    } else {
        mput(m, k, v)
    }
}

/// Merge the first `n` members of `inc` into `m`, one after the other.
pub open spec fn smerge_all(m: Seq<(Seq<char>, JsonView)>, inc: Seq<(Seq<char>, JsonView)>, n: int) -> Seq<
    (Seq<char>, JsonView),
>
    decreases inc, n,
{
    if n <= 0 || n > inc.len() {
        m
    } else {
        smerge(smerge_all(m, inc, n - 1), inc[n - 1].0, inc[n - 1].1)
    }
}

/// Put `v` at the key path `segs`: the last segment is merged, the ones
/// before it name (and create) nested objects; a path through a value that
/// is not an object changes nothing.
pub open spec fn sinsert_path(m: Seq<(Seq<char>, JsonView)>, segs: Seq<Seq<char>>, v: JsonView) -> Seq<
    (Seq<char>, JsonView),
>
    decreases segs.len(),
{
    if segs.len() == 0 {
        m
    } else if segs.len() == 1 {
        smerge(m, segs[0], v)
    } else {
        let (i, f) = scan(m, segs[0]);
        if !f {
            m.insert(i, (segs[0], JsonView::Object(sinsert_path(Seq::empty(), segs.drop_first(), v))))
        } else if m[i].1 is Object {
            m.update(i, (segs[0], JsonView::Object(sinsert_path(m[i].1->Object_0, segs.drop_first(), v))))
        } else {
            m
        }
    }
}

/// The first `n` attributes, each put at the path of its `:`-separated key.
pub open spec fn merge_colon_keys(attrs: Seq<(Seq<char>, JsonView)>, n: int) -> Seq<(Seq<char>, JsonView)>
    decreases n,
{
    if n <= 0 || n > attrs.len() {
        Seq::empty()
    } else {
        sinsert_path(merge_colon_keys(attrs, n - 1), split_char(attrs[n - 1].0, ':'), attrs[n - 1].1)
    }
}

// ---------------------------------------------------------------------------
// Nodes of values
// ---------------------------------------------------------------------------

pub open spec fn number_view_text(n: NumberView) -> Seq<char> {
    match n {
        NumberView::PosInt(u) => decimal(u as nat),
        NumberView::NegInt(i) => int_text(i as int),
        NumberView::Float(t) => t,
    }
}

/// Null, a boolean, a number or a string.
pub open spec fn is_compact_scalar(v: JsonView) -> bool {
    v is Null || v is Bool || v is Number || v is Str
}

/// A scalar as the tree shows it: strings in `'`, the rest as JSON text.
pub open spec fn scalar_text(v: JsonView) -> Seq<char> {
    match v {
        JsonView::Null => "null"@,
        JsonView::Bool(b) => if b {
            "true"@
        } else {
            "false"@
        },
        JsonView::Number(n) => number_view_text(n),
        JsonView::Str(s) => seq!['\''] + s + seq!['\''],
        _ => Seq::empty(),
    }
}

/// The node for value `v` named `name`: scalars and empty or short scalar
/// arrays as one line, other arrays as indexed children, objects as groups.
pub open spec fn value_node(name: Seq<char>, v: JsonView) -> AttrView
    decreases v,
{
    match v {
        JsonView::Array(xs) => if xs.len() == 0 {
            AttrView::Scalar(name, "[]"@)
        } else if xs.len() <= 6 && forall|i: int| 0 <= i < xs.len() ==> is_compact_scalar(#[trigger] xs[i]) {
            AttrView::Scalar(
                name,
                seq!['['] + join_with(Seq::new(xs.len(), |i: int| scalar_text(xs[i])), ", "@) + seq![']'],
            )
        } else {
            AttrView::Array(
                name,
                Seq::new(
                    xs.len(),
                    |i: int|
                        if 0 <= i < xs.len() {
                            value_node(decimal(i as nat), xs[i])
                        } else {
                            AttrView::Scalar(Seq::empty(), Seq::empty())
                        },
                ),
            )
        },
        JsonView::Object(kvs) => AttrView::Group(
            name,
            Seq::new(
                kvs.len(),
                |k: int|
                    {
                        let i = sort_idx(member_keys(kvs), kvs.len())[k];
                        if 0 <= i < kvs.len() {
                            value_node(kvs[i].0, kvs[i].1)
                        } else {
                            AttrView::Scalar(Seq::empty(), Seq::empty())
                        }
                    },
            ),
        ),
        _ => AttrView::Scalar(name, scalar_text(v)),
    }
}

/// The keys of a map's members, in order.
pub open spec fn member_keys(m: Seq<(Seq<char>, JsonView)>) -> Seq<Seq<char>> {
    Seq::new(m.len(), |i: int| m[i].0)
}

/// The nodes of a map's members, sorted by key.
pub open spec fn map_nodes(m: Seq<(Seq<char>, JsonView)>) -> Seq<AttrView> {
    Seq::new(
        m.len(),
        |k: int|
            {
                let i = sort_idx(member_keys(m), m.len())[k];
                if 0 <= i < m.len() {
                    value_node(m[i].0, m[i].1)
                } else {
                    AttrView::Scalar(Seq::empty(), Seq::empty())
                }
            },
    )
}

/// The attribute tree of root metadata: the members after merging
/// `:`-separated keys into nested groups, in key order.
pub open spec fn spec_attribute_tree(attrs: Seq<(String, JsonValue)>) -> Seq<AttrView> {
    map_nodes(merge_colon_keys(members_view(attrs), attrs.len() as int))
}

// ---------------------------------------------------------------------------
// Building the merged map
// ---------------------------------------------------------------------------

fn key_le(a: &String, b: &String) -> (r: bool)
    ensures
        r == lex_le(a@, b@),
{
    let x = str_chars(a.as_str());
    let y = str_chars(b.as_str());
    chars_lex_le(&x, &y)
}

/// `scan` of `key` in the members of `map`.
fn find_slot(map: &Vec<(String, JsonValue)>, key: &String) -> (r: (usize, bool))
    ensures
        (r.0 as int, r.1) == scan(members_view(map@), key@),
        r.0 <= map@.len(),
        r.1 ==> r.0 < map@.len(),
{
    let ghost m = members_view(map@);
    let mut i: usize = 0;
    assert(m.subrange(0, m.len() as int) =~= m);
    while i < map.len()
        invariant
            i <= map.len(),
            m == members_view(map@),
            scan(m, key@) == (scan(m.subrange(i as int, m.len() as int), key@).0 + i, scan(
                m.subrange(i as int, m.len() as int),
                key@,
            ).1),
        decreases map.len() - i,
    {
        let ghost rest = m.subrange(i as int, m.len() as int);
        assert(rest[0] == m[i as int]);
        if map[i].0 == *key {
            return (i, true);
        }
        if !key_le(&map[i].0, key) {
            return (i, false);
        }
        assert(rest.drop_first() =~= m.subrange(i + 1, m.len() as int));
        i = i + 1;
    }
    assert(m.subrange(i as int, m.len() as int).len() == 0);
    (i, false)
}

/// `Map::insert` on the kept members.
fn put(map: &mut Vec<(String, JsonValue)>, key: String, value: JsonValue)
    ensures
        members_view(final(map)@) == mput(members_view(old(map)@), key@, jview(value)),
{
    let (i, found) = find_slot(map, &key);
    let ghost m = members_view(map@);
    let ghost kv = key@;
    let ghost vv = jview(value);
    if found {
        map.remove(i);
        map.insert(i, (key, value));
        assert(members_view(map@) =~= m.update(i as int, (kv, vv)));
    } else {
        map.insert(i, (key, value));
        assert(members_view(map@) =~= m.insert(i as int, (kv, vv)));
    }
}

/// Merge `value` under `key` (see `smerge`).
fn merge_value(map: &mut Vec<(String, JsonValue)>, key: String, value: JsonValue)
    ensures
        members_view(final(map)@) == smerge(members_view(old(map)@), key@, jview(value)),
    decreases jview(value),
{
    let ghost m = members_view(map@);
    let (i, found) = find_slot(map, &key);
    let both_objects = found && match (&map[i].1, &value) {
        (JsonValue::Object(_), JsonValue::Object(_)) => true,
        _ => false,
    };
    if !both_objects {
        proof {
            if found {
                assert(!(m[i as int].1 is Object && jview(value) is Object));
            }
        }
        put(map, key, value);
        return;
    }
    proof {
        lemma_scan(m, key@);
    }
    let (k, existing) = map.remove(i);
    let ghost removed = map@;
    assert(k@ == key@);
    assert(members_view(removed) =~= m.remove(i as int));
    match (existing, &value) {
        (JsonValue::Object(mut ex), JsonValue::Object(inc)) => {
            let ghost start = members_view(ex@);
            let ghost incv = members_view(inc@);
            proof {
                lemma_object_members(JsonValue::Object(ex));
                lemma_object_members(value);
                assert(m[i as int].1 == JsonView::Object(start));
            }
            let mut j: usize = 0;
            while j < inc.len()
                invariant
                    j <= inc.len(),
                    value == JsonValue::Object(*inc),
                    map@ == removed,
                    incv == members_view(inc@),
                    jview(value)->Object_0 == incv,
                    members_view(ex@) == smerge_all(start, incv, j as int),
                decreases inc.len() - j,
            {
                let ck = inc[j].0.clone();
                let cv = json_clone(&inc[j].1);
                proof {
                    assert(incv[j as int] == (ck@, jview(cv)));
                    assert(decreases_to!(jview(value) => jview(value)->Object_0));
                    assert(decreases_to!(jview(value) => incv[j as int].1));
                }
                merge_value(&mut ex, ck, cv);
                j = j + 1;
            }
            let ghost merged = members_view(ex@);
            let ghost kv = k@;
            let entry = (k, JsonValue::Object(ex));
            assert(entry.0@ == kv);
            map.insert(i, entry);
            assert(map@ == removed.insert(i as int, entry));
            proof {
                lemma_object_members(JsonValue::Object(ex));
                assert(smerge_all(start, incv, incv.len() as int) == merged);
                assert(members_view(map@) =~= m.update(i as int, (key@, JsonView::Object(merged))));
            }
        },
        _ => {},
    }
}

/// Put `value` at the path `segs[from..]` of `map` (see `sinsert_path`).
fn insert_path(map: &mut Vec<(String, JsonValue)>, segs: &Vec<String>, from: usize, value: JsonValue)
    requires
        from <= segs.len(),
    ensures
        members_view(final(map)@) == sinsert_path(
            members_view(old(map)@),
            texts(segs@).subrange(from as int, segs@.len() as int),
            jview(value),
        ),
    decreases segs.len() - from,
{
    let ghost m = members_view(map@);
    let ghost path = texts(segs@).subrange(from as int, segs@.len() as int);
    if from == segs.len() {
        return;
    }
    assert(path[0] == segs@[from as int]@);
    if from + 1 == segs.len() {
        merge_value(map, segs[from].clone(), value);
        return;
    }
    assert(path.drop_first() =~= texts(segs@).subrange(from + 1, segs@.len() as int));
    let (i, found) = find_slot(map, &segs[from]);
    proof {
        lemma_scan(m, path[0]);
    }
    if !found {
        let mut inner: Vec<(String, JsonValue)> = Vec::new();
        assert(members_view(inner@) =~= Seq::<(Seq<char>, JsonView)>::empty());
        insert_path(&mut inner, segs, from + 1, value);
        let ghost iv = members_view(inner@);
        proof {
            lemma_object_members(JsonValue::Object(inner));
        }
        let key = segs[from].clone();
        assert(key@ == path[0]);
        let entry = (key, JsonValue::Object(inner));
        map.insert(i, entry);
        assert(members_view(map@) =~= m.insert(i as int, (path[0], JsonView::Object(iv))));
        return;
    }
    let is_object = match &map[i].1 {
        JsonValue::Object(_) => true,
        _ => false,
    };
    if !is_object {
        assert(!(m[i as int].1 is Object));
        return;
    }
    let (k, existing) = map.remove(i);
    let ghost removed = map@;
    assert(members_view(removed) =~= m.remove(i as int));
    match existing {
        JsonValue::Object(mut inner) => {
            proof {
                lemma_object_members(JsonValue::Object(inner));
            }
            insert_path(&mut inner, segs, from + 1, value);
            let ghost iv = members_view(inner@);
            proof {
                lemma_object_members(JsonValue::Object(inner));
            }
            let entry = (k, JsonValue::Object(inner));
            map.insert(i, entry);
            assert(members_view(map@) =~= m.update(i as int, (path[0], JsonView::Object(iv))));
        },
        _ => {},
    }
}

/// The `:`-separated segments of a key.
fn key_segments(key: &String) -> (r: Vec<String>)
    ensures
        texts(r@) == split_char(key@, ':'),
{
    let cs = str_chars(key.as_str());
    let parts = chars_split(&cs, ':');
    let mut out: Vec<String> = Vec::new();
    let mut i: usize = 0;
    while i < parts.len()
        invariant
            i <= parts.len(),
            parts@.len() == split_char(cs@, ':').len(),
            forall|k: int| 0 <= k < parts@.len() ==> #[trigger] parts@[k]@ == split_char(cs@, ':')[k],
            texts(out@) =~= split_char(cs@, ':').subrange(0, i as int),
        decreases parts.len() - i,
    {
        let seg = string_from_chars(&parts[i]);
        let ghost before = out@;
        out.push(seg);
        assert(texts(out@) =~= texts(before).push(seg@));
        i = i + 1;
    }
    assert(split_char(cs@, ':').subrange(0, parts@.len() as int) =~= split_char(cs@, ':'));
    out
}

/// Merge the attributes' `:`-separated keys into nested objects.
fn merge_colon_keys_exec(attrs: &Vec<(String, JsonValue)>) -> (r: Vec<(String, JsonValue)>)
    ensures
        members_view(r@) == merge_colon_keys(members_view(attrs@), attrs@.len() as int),
{
    let ghost av = members_view(attrs@);
    let mut root: Vec<(String, JsonValue)> = Vec::new();
    let mut i: usize = 0;
    assert(members_view(root@) =~= merge_colon_keys(av, 0));
    while i < attrs.len()
        invariant
            i <= attrs.len(),
            av == members_view(attrs@),
            members_view(root@) == merge_colon_keys(av, i as int),
        decreases attrs.len() - i,
    {
        let segs = key_segments(&attrs[i].0);
        let value = json_clone(&attrs[i].1);
        assert(texts(segs@).subrange(0, segs@.len() as int) =~= texts(segs@));
        insert_path(&mut root, &segs, 0, value);
        i = i + 1;
    }
    root
}

// ---------------------------------------------------------------------------
// Nodes
// ---------------------------------------------------------------------------

fn is_scalar_value(v: &JsonValue) -> (r: bool)
    ensures
        r == is_compact_scalar(jview(*v)),
{
    match v {
        JsonValue::Array(_) => false,
        JsonValue::Object(_) => false,
        _ => true,
    }
}

fn scalar_string(v: &JsonValue) -> (r: String)
    requires
        is_compact_scalar(jview(*v)),
    ensures
        r@ == scalar_text(jview(*v)),
{
    match v {
        JsonValue::Null => String::from_str("null"),
        JsonValue::Bool(b) => if *b {
            String::from_str("true")
        } else {
            String::from_str("false")
        },
        JsonValue::Number(n) => match n {
            JsonNumber::PosInt(u) => u64_text(*u),
            JsonNumber::NegInt(i) => crate::debug_text::i64_text(*i),
            JsonNumber::Float(t) => t.clone(),
        },
        JsonValue::Str(s) => {
            let r = enclose("'", s.as_str(), "'");
            proof {
                reveal_strlit("'");
                assert(r@ =~= scalar_text(jview(*v)));
            }
            r
        },
        _ => String::new(),
    }
}

/// The node for `value` named `name`.
fn value_to_node(name: String, value: &JsonValue) -> (r: AttributeNode)
    ensures
        attr_view(r) == value_node(name@, jview(*value)),
    decreases value,
{
    match value {
        JsonValue::Array(xs) => {
            let ghost xv = jview(*value)->Array_0;
            assert(xv.len() == xs@.len());
            if xs.len() == 0 {
                return AttributeNode::Scalar { name, value: String::from_str("[]") };
            }
            let mut compact = xs.len() <= 6;
            let mut i: usize = 0;
            while compact && i < xs.len()
                invariant
                    i <= xs.len(),
                    *value == JsonValue::Array(*xs),
                    xv == jview(*value)->Array_0,
                    compact ==> forall|k: int| 0 <= k < i ==> is_compact_scalar(#[trigger] xv[k]),
                    compact ==> xs@.len() <= 6,
                    !compact ==> !(xs@.len() <= 6 && forall|k: int| 0 <= k < xs@.len() ==> is_compact_scalar(#[trigger] xv[k])),
                decreases xs.len() - i + if compact { 1int } else { 0int },
            {
                if !is_scalar_value(&xs[i]) {
                    compact = false;
                    assert(!is_compact_scalar(xv[i as int]));
                } else {
                    i = i + 1;
                }
            }
            if compact {
                let mut parts: Vec<String> = Vec::new();
                let mut j: usize = 0;
                while j < xs.len()
                    invariant
                        j <= xs.len(),
                        *value == JsonValue::Array(*xs),
                        xv == jview(*value)->Array_0,
                        forall|k: int| 0 <= k < xs@.len() ==> is_compact_scalar(#[trigger] xv[k]),
                        texts(parts@) =~= Seq::new(j as nat, |k: int| scalar_text(xv[k])),
                    decreases xs.len() - j,
                {
                    assert(is_compact_scalar(xv[j as int]));
                    let t = scalar_string(&xs[j]);
                    let ghost before = parts@;
                    parts.push(t);
                    assert(texts(parts@) =~= texts(before).push(t@));
                    j = j + 1;
                }
                let body = join_strings(&parts, ", ");
                let text = enclose("[", body.as_str(), "]");
                proof {
                    reveal_strlit("[");
                    reveal_strlit("]");
                    assert(text@ =~= seq!['['] + join_with(Seq::new(xv.len(), |k: int| scalar_text(xv[k])), ", "@) + seq![']']);
                }
                return AttributeNode::Scalar { name, value: text };
            }
            let mut children: Vec<AttributeNode> = Vec::new();
            let mut j: usize = 0;
            while j < xs.len()
                invariant
                    j <= xs.len(),
                    *value == JsonValue::Array(*xs),
                    xv == jview(*value)->Array_0,
                    children@.len() == j,
                    forall|k: int| 0 <= k < j ==> attr_view(#[trigger] children@[k]) == value_node(decimal(k as nat), xv[k]),
                decreases xs.len() - j,
            {
                proof {
                    assert(decreases_to!(*value => (*value)->Array_0));
                    assert(decreases_to!(*value => xs@[j as int]));
                }
                let child = value_to_node(u64_text(j as u64), &xs[j]);
                children.push(child);
                j = j + 1;
            }
            let r = AttributeNode::Array { name, children };
            proof {
                assert(attr_view(r)->Array_1 =~= value_node(name@, jview(*value))->Array_1);
            }
            r
        },
        JsonValue::Object(kvs) => {
            let children = object_to_nodes(kvs);
            let ghost cv = attr_views(children@);
            let r = AttributeNode::Group { name, children };
            proof {
                lemma_object_members(*value);
                assert(attr_view(r)->Group_1 =~= cv);
                assert(value_node(name@, jview(*value))->Group_1 =~= map_nodes(members_view(kvs@)));
            }
            r
        },
        _ => AttributeNode::Scalar { name, value: scalar_string(value) },
    }
}

/// The nodes of an object's members, sorted by key.
fn object_to_nodes(kvs: &Vec<(String, JsonValue)>) -> (r: Vec<AttributeNode>)
    ensures
        attr_views(r@) == map_nodes(members_view(kvs@)),
    decreases kvs@,
{
    let ghost m = members_view(kvs@);
    let mut keys: Vec<String> = Vec::new();
    let mut i: usize = 0;
    while i < kvs.len()
        invariant
            i <= kvs.len(),
            keys@.len() == i,
            forall|k: int| 0 <= k < i ==> (#[trigger] keys@[k])@ == kvs@[k].0@,
        decreases kvs.len() - i,
    {
        keys.push(clone_string(&kvs[i].0));
        i = i + 1;
    }
    let order = sorted_indices(&keys);
    proof {
        assert(keys_view(keys@) =~= member_keys(m));
    }
    let mut out: Vec<AttributeNode> = Vec::new();
    let mut k: usize = 0;
    while k < kvs.len()
        invariant
            k <= kvs.len(),
            m == members_view(kvs@),
            order@.len() == kvs@.len(),
            forall|j: int| 0 <= j < order@.len() ==> #[trigger] order@[j] < kvs@.len(),
            idx_view(order@) == sort_idx(member_keys(m), m.len()),
            out@.len() == k,
            forall|j: int| 0 <= j < k ==> attr_view(#[trigger] out@[j]) == map_nodes(m)[j],
        decreases kvs.len() - k,
    {
        let i = order[k];
        proof {
            assert(idx_view(order@)[k as int] == i as int);
            assert(decreases_to!(kvs@ => kvs@[i as int]));
        }
        let node = value_to_node(clone_string(&kvs[i].0), &kvs[i].1);
        out.push(node);
        k = k + 1;
    }
    assert(attr_views(out@) =~= map_nodes(members_view(kvs@)));
    out
}

/// The attribute tree of root metadata: flat keys such as
/// `properties:product:type` become nested groups; nested objects and
/// arrays are kept.
pub fn build_attribute_tree(attrs: &Vec<(String, JsonValue)>) -> (r: Vec<AttributeNode>)
    ensures
        attr_views(r@) == spec_attribute_tree(attrs@),
{
    if attrs.len() == 0 {
        let r: Vec<AttributeNode> = Vec::new();
        assert(attr_views(r@) =~= spec_attribute_tree(attrs@));
        return r;
    }
    let merged = merge_colon_keys_exec(attrs);
    object_to_nodes(&merged)
}

/// The root metadata the inspector shows for `node`: its own attributes
/// when it is the root group, else those of `root` when that is a group.
pub open spec fn root_attributes_of(node: ZarrTreeNode, root: Option<ZarrTreeNode>) -> Option<
    Seq<(String, JsonValue)>,
> {
    if node.path@ == "/"@ {
        match node.kind {
            ZarrNodeKind::Group { attributes } => Some(attributes@),
            _ => None,
        }
    } else {
        match root {
            Some(r) => match r.kind {
                ZarrNodeKind::Group { attributes } => Some(attributes@),
                _ => None,
            },
            None => None,
        }
    }
}

/// The root attribute tree for the inspector: `None` without root
/// attributes or when they are empty.
pub fn parse_root_attributes(node: &ZarrTreeNode, root: Option<&ZarrTreeNode>) -> (r: Option<
    Vec<AttributeNode>,
>)
    ensures
        match root_attributes_of(
            *node,
            match root {
                Some(x) => Some(*x),
                None => None,
            },
        ) {
            Some(attrs) => if attrs.len() == 0 {
                r is None
            } else {
                r matches Some(t) && attr_views(t@) == spec_attribute_tree(attrs)
            },
            None => r is None,
        },
{
    let attributes = if crate::text::str_is(node.path.as_str(), "/") {
        match &node.kind {
            ZarrNodeKind::Group { attributes } => attributes,
            _ => return None,
        }
    } else {
        match root {
            Some(rt) => match &rt.kind {
                ZarrNodeKind::Group { attributes } => attributes,
                _ => return None,
            },
            None => return None,
        }
    };
    if attributes.len() == 0 {
        return None;
    }
    Some(build_attribute_tree(attributes))
}

/// A name made of ASCII digits only (an array index).
pub open spec fn spec_is_array_index(name: Seq<char>) -> bool {
    name.len() > 0 && forall|i: int| 0 <= i < name.len() ==> '0' <= #[trigger] name[i] <= '9'
}

/// Whether a group name is an array index.
pub fn is_array_index(name: &str) -> (r: bool)
    ensures
        r == spec_is_array_index(name@),
{
    let cs = str_chars(name);
    if cs.len() == 0 {
        return false;
    }
    let mut i: usize = 0;
    while i < cs.len()
        invariant
            i <= cs.len(),
            cs@ == name@,
            forall|k: int| 0 <= k < i ==> '0' <= #[trigger] cs@[k] <= '9',
        decreases cs.len() - i,
    {
        if cs[i] < '0' || cs[i] > '9' {
            return false;
        }
        i = i + 1;
    }
    true
}

/// `name=value` of the scalar children, in order.
pub open spec fn scalar_pairs(cs: Seq<AttrView>) -> Seq<Seq<char>>
    decreases cs.len(),
{
    if cs.len() == 0 {
        Seq::empty()
    } else {
        scalar_pairs(cs.drop_last()) + match cs.last() {
            AttrView::Scalar(n, v) => seq![n + seq!['='] + v],
            _ => Seq::empty(),
        }
    }
}

/// The first three `name=value` pairs of a group's scalar children,
/// separated by `, ` (the label of a collapsed array element).
pub open spec fn spec_summarize_group(cs: Seq<AttrView>) -> Seq<char> {
    let p = scalar_pairs(cs);
    join_with(p.subrange(0, if p.len() < 3 { p.len() as int } else { 3 }), ", "@)
}

/// Summary label of a group's scalar children.
pub fn summarize_group(children: &Vec<AttributeNode>) -> (r: String)
    ensures
        r@ == spec_summarize_group(attr_views(children@)),
{
    let ghost cv = attr_views(children@);
    let mut parts: Vec<String> = Vec::new();
    let mut i: usize = 0;
    while i < children.len()
        invariant
            i <= children.len(),
            cv == attr_views(children@),
            texts(parts@) == scalar_pairs(cv.subrange(0, i as int)),
        decreases children.len() - i,
    {
        let ghost pre = cv.subrange(0, i as int);
        assert(cv.subrange(0, i + 1).drop_last() =~= pre);
        match &children[i] {
            AttributeNode::Scalar { name, value } => {
                let t = enclose(name.as_str(), "=", value.as_str());
                proof {
                    reveal_strlit("=");
                    assert("="@ =~= seq!['=']);
                }
                let ghost before = parts@;
                parts.push(t);
                assert(texts(parts@) =~= texts(before).push(t@));
            },
            _ => {},
        }
        i = i + 1;
        assert(texts(parts@) =~= scalar_pairs(cv.subrange(0, i as int)));
    }
    assert(cv.subrange(0, children@.len() as int) =~= cv);
    let n: usize = if parts.len() < 3 {
        parts.len()
    } else {
        3
    };
    let mut first: Vec<String> = Vec::new();
    let mut j: usize = 0;
    while j < n
        invariant
            j <= n,
            n <= parts.len(),
            texts(first@) =~= texts(parts@).subrange(0, j as int),
        decreases n - j,
    {
        let ghost before = first@;
        first.push(parts[j].clone());
        assert(texts(first@) =~= texts(before).push(parts@[j as int]@));
        j = j + 1;
    }
    join_strings(&first, ", ")
}

} // verus!
