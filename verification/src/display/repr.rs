//! xarray-style text summaries of groups and arrays.
use vstd::prelude::*;

use crate::debug_text::{decimal, number_text, u64_text, u64s_debug, u64s_debug_text};
use crate::json::JsonValue;
use crate::json_text::{enclose, json_compact, json_compact_text};
use crate::text::{join_strings, join_with, push_text, str_is, string_from_chars, texts};
use crate::order::{idx_view, keys_view, sort_idx, sorted_indices};
use crate::zarr::location::clone_string;
use crate::zarr::tree::{ZarrNodeKind, ZarrTreeNode};

verus! {

/// Title line and body text of a node summary.
pub struct NodeRepr {
    pub title: String,
    pub body: String,
}

/// How an attribute value is shown: strings quoted with `'`, short arrays
/// element by element, long arrays and large objects by their size, small
/// objects as compact JSON, anything else as JSON text.
pub open spec fn json_repr(v: JsonValue) -> Seq<char>
    decreases v, 0int,
{
    match v {
        JsonValue::Str(s) => seq!['\''] + s@ + seq!['\''],
        JsonValue::Array(xs) => if xs@.len() <= 6 {
            seq!['['] + join_with(repr_items(xs@, xs@.len() as int), ", "@) + seq![']']
        } else {
            seq!['['] + decimal(xs@.len()) + " items]"@
        },
        JsonValue::Object(kvs) => if kvs@.len() == 0 {
            "{}"@
        } else if kvs@.len() <= 3 {
            json_compact(v)
        } else {
            seq!['{'] + decimal(kvs@.len()) + " keys}"@
        },
        JsonValue::Null => "null"@,
        JsonValue::Bool(b) => if b {
            "true"@
        } else {
            "false"@
        },
        JsonValue::Number(n) => number_text(n),
    }
}

/// `json_repr` of the first `n` elements.
pub open spec fn repr_items(xs: Seq<JsonValue>, n: int) -> Seq<Seq<char>>
    decreases xs, n,
{
    if n <= 0 || n > xs.len() {
        Seq::empty()
    } else {
        repr_items(xs, n - 1).push(json_repr(xs[n - 1]))
    }
}

/// Text of an attribute value in a node summary.
pub fn format_json_value(value: &JsonValue) -> (r: String)
    ensures
        r@ == json_repr(*value),
    decreases value,
{
    match value {
        JsonValue::Str(s) => {
            let r = enclose("'", s.as_str(), "'");
            proof {
                reveal_strlit("'");
                assert(r@ =~= json_repr(*value));
            }
            r
        },
        JsonValue::Array(xs) => {
            if xs.len() <= 6 {
                let mut items: Vec<String> = Vec::new();
                let mut i: usize = 0;
                while i < xs.len()
                    invariant
                        i <= xs.len(),
                        *value == JsonValue::Array(*xs),
                        texts(items@) == repr_items(xs@, i as int),
                    decreases xs.len() - i,
                {
                    proof {
                        assert(decreases_to!(*value => (*value)->Array_0));
                        assert(decreases_to!(*value => xs@[i as int]));
                    }
                    let t = format_json_value(&xs[i]);
                    let ghost before = items@;
                    items.push(t);
                    assert(texts(items@) =~= texts(before).push(t@));
                    i = i + 1;
                }
                let body = join_strings(&items, ", ");
                let r = enclose("[", body.as_str(), "]");
                proof {
                    reveal_strlit("[");
                    reveal_strlit("]");
                    assert(r@ =~= json_repr(*value));
                }
                r
            } else {
                let n = u64_text(xs.len() as u64);
                let r = enclose("[", n.as_str(), " items]");
                proof {
                    reveal_strlit("[");
                    assert(r@ =~= json_repr(*value));
                }
                r
            }
        },
        JsonValue::Object(kvs) => {
            if kvs.len() == 0 {
                String::from_str("{}")
            } else if kvs.len() <= 3 {
                json_compact_text(value)
            } else {
                let n = u64_text(kvs.len() as u64);
                let r = enclose("{", n.as_str(), " keys}");
                proof {
                    reveal_strlit("{");
                    assert(r@ =~= json_repr(*value));
                }
                r
            }
        },
        _ => json_compact_text(value),
    }
}

/// The name shown for dimension `i`: its name, or `dim` when it has none
/// or is named `_`.
pub open spec fn dim_name(names: Seq<Seq<char>>, i: int) -> Seq<char> {
    if i < names.len() && names[i] != "_"@ {
        names[i]
    } else {
        "dim"@
    }
}

/// One `name: size` line per dimension; `(scalar)` for a scalar.
pub open spec fn dimension_lines(shape: Seq<u64>, names: Seq<Seq<char>>) -> Seq<Seq<char>> {
    if shape.len() == 0 {
        seq!["(scalar)"@]
    } else {
        Seq::new(shape.len(), |i: int| dim_name(names, i) + ": "@ + decimal(shape[i] as nat))
    }
}

/// The dimension names, at most one per dimension, `_` shown as `dim`,
/// separated by `, ` (empty for a scalar).
pub open spec fn dims_text(shape: Seq<u64>, names: Seq<Seq<char>>) -> Seq<char> {
    if shape.len() == 0 {
        Seq::empty()
    } else {
        let n = if names.len() < shape.len() {
            names.len()
        } else {
            shape.len()
        };
        join_with(
            Seq::new(
                n,
                |i: int|
                    if names[i] == "_"@ {
                        "dim"@
                    } else {
                        names[i]
                    },
            ),
            ", "@,
        )
    }
}

fn is_placeholder_dim(name: &String) -> (r: bool)
    ensures
        r == (name@ == "_"@),
{
    str_is(name.as_str(), "_")
}

/// The `name: size` lines of an array's dimensions.
pub fn format_dimension_lines(shape: &[u64], dimension_names: &Vec<String>) -> (r: Vec<String>)
    ensures
        texts(r@) == dimension_lines(shape@, texts(dimension_names@)),
{
    let ghost names = texts(dimension_names@);
    if shape.len() == 0 {
        let mut v: Vec<String> = Vec::new();
        v.push(String::from_str("(scalar)"));
        assert(texts(v@) =~= dimension_lines(shape@, names));
        return v;
    }
    let mut lines: Vec<String> = Vec::new();
    let mut i: usize = 0;
    while i < shape.len()
        invariant
            i <= shape.len(),
            names == texts(dimension_names@),
            texts(lines@) =~= Seq::new(i as nat, |k: int| dim_name(names, k) + ": "@ + decimal(shape@[k] as nat)),
        decreases shape.len() - i,
    {
        let mut buf: Vec<char> = Vec::new();
        if i < dimension_names.len() && !is_placeholder_dim(&dimension_names[i]) {
            push_text(&mut buf, dimension_names[i].as_str());
        } else {
            push_text(&mut buf, "dim");
        }
        push_text(&mut buf, ": ");
        push_text(&mut buf, u64_text(shape[i]).as_str());
        let line = string_from_chars(&buf);
        let ghost before = lines@;
        lines.push(line);
        proof {
            assert(texts(lines@) =~= texts(before).push(line@));
        }
        i = i + 1;
    }
    lines
}

/// The dimension names of an array as `name, name`.
pub fn format_dims(shape: &[u64], dimension_names: &Vec<String>) -> (r: String)
    ensures
        r@ == dims_text(shape@, texts(dimension_names@)),
{
    let ghost names = texts(dimension_names@);
    if shape.len() == 0 {
        return String::new();
    }
    let n = if dimension_names.len() < shape.len() {
        dimension_names.len()
    } else {
        shape.len()
    };
    let ghost want = Seq::new(
        n as nat,
        |i: int|
            if names[i] == "_"@ {
                "dim"@
            } else {
                names[i]
            },
    );
    let mut parts: Vec<String> = Vec::new();
    let mut i: usize = 0;
    while i < n
        invariant
            i <= n,
            n <= dimension_names.len(),
            names == texts(dimension_names@),
            want == Seq::new(
                n as nat,
                |i: int|
                    if names[i] == "_"@ {
                        "dim"@
                    } else {
                        names[i]
                    },
            ),
            texts(parts@) =~= want.subrange(0, i as int),
        decreases n - i,
    {
        let part = if is_placeholder_dim(&dimension_names[i]) {
            String::from_str("dim")
        } else {
            dimension_names[i].clone()
        };
        let ghost before = parts@;
        parts.push(part);
        proof {
            assert(texts(parts@) =~= texts(before).push(part@));
        }
        i = i + 1;
    }
    assert(want.subrange(0, n as int) =~= want);
    join_strings(&parts, ", ")
}

pub open spec fn attr_keys(attrs: Seq<(String, JsonValue)>) -> Seq<Seq<char>> {
    Seq::new(attrs.len(), |i: int| attrs[i].0@)
}

/// `    key: value` lines under an `Attributes:` heading (none without
/// attributes), members sorted by key.
pub open spec fn attribute_lines(attrs: Seq<(String, JsonValue)>) -> Seq<Seq<char>> {
    if attrs.len() == 0 {
        Seq::empty()
    } else {
        let order = sort_idx(attr_keys(attrs), attrs.len());
        seq!["Attributes:"@] + Seq::new(
            attrs.len(),
            |k: int| "    "@ + attrs[order[k]].0@ + ": "@ + json_repr(attrs[order[k]].1),
        )
    }
}

/// `    - name` for each child group, in order.
pub open spec fn group_lines(cs: Seq<ZarrTreeNode>) -> Seq<Seq<char>>
    decreases cs.len(),
{
    if cs.len() == 0 {
        Seq::empty()
    } else {
        group_lines(cs.drop_last()) + if cs.last().kind is Group {
            seq!["    - "@ + cs.last().name@]
        } else {
            Seq::empty()
        }
    }
}

/// The summary line of an array variable: `name  (dims) dtype`.
pub open spec fn variable_line(name: Seq<char>, k: ZarrNodeKind) -> Seq<char> {
    name + "  ("@ + dims_text(k->shape@, texts(k->dimension_names@)) + ") "@ + k->dtype@
}

/// An indented summary line for each child array, in order.
pub open spec fn array_lines(cs: Seq<ZarrTreeNode>) -> Seq<Seq<char>>
    decreases cs.len(),
{
    if cs.len() == 0 {
        Seq::empty()
    } else {
        array_lines(cs.drop_last()) + if cs.last().kind is Array {
            seq!["    "@ + variable_line(cs.last().name@, cs.last().kind)]
        } else {
            Seq::empty()
        }
    }
}

/// The body lines of a group summary: its child groups, its child arrays
/// (`Empty group` for a non-root group with neither), then its attributes.
pub open spec fn group_body_lines(node: ZarrTreeNode, attrs: Seq<(String, JsonValue)>) -> Seq<Seq<char>> {
    let gl = group_lines(node.children@);
    let al = array_lines(node.children@);
    let groups = if gl.len() > 0 {
        seq!["Groups: ("@ + decimal(gl.len()) + ")"@] + gl + seq![Seq::<char>::empty()]
    } else {
        Seq::empty()
    };
    let arrays = if al.len() > 0 {
        seq!["Data variables: ("@ + decimal(al.len()) + ")"@] + al + seq![Seq::<char>::empty()]
    } else {
        Seq::empty()
    };
    let empty = if gl.len() == 0 && al.len() == 0 && node.path@ != "/"@ {
        seq!["Empty group"@, Seq::<char>::empty()]
    } else {
        Seq::empty()
    };
    groups + arrays + empty + attribute_lines(attrs)
}

/// The body lines of an array summary: its dimensions, its variable line,
/// its shape, chunks and fill value, then its attributes.
pub open spec fn array_body_lines(node: ZarrTreeNode) -> Seq<Seq<char>> {
    let k = node.kind;
    let dims = dimension_lines(k->shape@, texts(k->dimension_names@));
    let chunks = if k->chunks@.len() > 0 {
        seq!["    chunks: "@ + u64s_debug(k->chunks@)]
    } else {
        Seq::empty()
    };
    let fill = match k->fill_value {
        Some(fv) => seq!["    fill_value: "@ + json_repr(fv)],
        None => Seq::empty(),
    };
    seq!["Dimensions:"@] + Seq::new(dims.len(), |i: int| "    "@ + dims[i]) + seq![
        Seq::<char>::empty(),
        "Data variables:\n    "@ + variable_line(node.name@, k),
        Seq::<char>::empty(),
        "Array metadata:"@,
        "    shape:  "@ + u64s_debug(k->shape@),
    ] + chunks + fill + seq![Seq::<char>::empty()] + attribute_lines(k->Array_attributes@)
}

/// The title of a node summary.
pub open spec fn repr_title(node: ZarrTreeNode, product_name: Seq<char>) -> Seq<char> {
    match node.kind {
        ZarrNodeKind::Group { .. } => if node.path@ == "/"@ {
            "<xarray.DataTree '"@ + product_name + "'>"@
        } else {
            "<xarray.Dataset / Group '"@ + node.name@ + "'>"@
        },
        ZarrNodeKind::Array { .. } => "<xarray.DataArray '"@ + node.name@ + "'>"@,
    }
}

/// The body of a node summary: its lines joined by newlines.
pub open spec fn repr_body(node: ZarrTreeNode) -> Seq<char> {
    match node.kind {
        ZarrNodeKind::Group { attributes } => join_with(group_body_lines(node, attributes@), "\n"@),
        ZarrNodeKind::Array { .. } => join_with(array_body_lines(node), "\n"@),
    }
}

fn concat2(a: &str, b: &str) -> (r: String)
    ensures
        r@ == a@ + b@,
{
    let mut buf: Vec<char> = Vec::new();
    push_text(&mut buf, a);
    push_text(&mut buf, b);
    string_from_chars(&buf)
}

fn push_line(lines: &mut Vec<String>, line: String)
    ensures
        texts(final(lines)@) == texts(old(lines)@).push(line@),
{
    lines.push(line);
    assert(texts(lines@) =~= texts(old(lines)@).push(line@));
}

fn append_attributes(lines: &mut Vec<String>, attributes: &Vec<(String, JsonValue)>)
    ensures
        texts(final(lines)@) == texts(old(lines)@) + attribute_lines(attributes@),
{
    if attributes.len() == 0 {
        assert(texts(lines@) =~= texts(lines@) + attribute_lines(attributes@));
        return;
    }
    let mut keys: Vec<String> = Vec::new();
    let mut i: usize = 0;
    while i < attributes.len()
        invariant
            i <= attributes.len(),
            keys@.len() == i,
            forall|k: int| 0 <= k < i ==> (#[trigger] keys@[k])@ == attributes@[k].0@,
        decreases attributes.len() - i,
    {
        keys.push(clone_string(&attributes[i].0));
        i = i + 1;
    }
    let order = sorted_indices(&keys);
    let ghost ord = sort_idx(attr_keys(attributes@), attributes@.len() as nat);
    proof {
        assert(keys_view(keys@) =~= attr_keys(attributes@));
    }
    let ghost start = texts(lines@);
    push_line(lines, String::from_str("Attributes:"));
    let mut k: usize = 0;
    while k < attributes.len()
        invariant
            k <= attributes.len(),
            order@.len() == attributes@.len(),
            forall|j: int| 0 <= j < order@.len() ==> #[trigger] order@[j] < attributes@.len(),
            idx_view(order@) == ord,
            texts(lines@) =~= start + seq!["Attributes:"@] + Seq::new(
                k as nat,
                |j: int| "    "@ + attributes@[ord[j]].0@ + ": "@ + json_repr(attributes@[ord[j]].1),
            ),
        decreases attributes.len() - k,
    {
        let i = order[k];
        proof {
            assert(idx_view(order@)[k as int] == i as int);
        }
        let value = format_json_value(&attributes[i].1);
        let line = enclose("    ", attributes[i].0.as_str(), ": ");
        let mut buf: Vec<char> = Vec::new();
        push_text(&mut buf, line.as_str());
        push_text(&mut buf, value.as_str());
        push_line(lines, string_from_chars(&buf));
        k = k + 1;
    }
}

fn child_lines(children: &Vec<ZarrTreeNode>) -> (r: (Vec<String>, Vec<String>))
    ensures
        texts(r.0@) == group_lines(children@),
        texts(r.1@) == array_lines(children@),
{
    let mut groups: Vec<String> = Vec::new();
    let mut arrays: Vec<String> = Vec::new();
    let mut i: usize = 0;
    while i < children.len()
        invariant
            i <= children.len(),
            texts(groups@) == group_lines(children@.subrange(0, i as int)),
            texts(arrays@) == array_lines(children@.subrange(0, i as int)),
        decreases children.len() - i,
    {
        let ghost pre = children@.subrange(0, i as int);
        let ghost next = children@.subrange(0, i + 1);
        assert(next.drop_last() =~= pre);
        let child = &children[i];
        match &child.kind {
            ZarrNodeKind::Group { .. } => {
                let line = concat2("    - ", child.name.as_str());
                assert(line@ =~= "    - "@ + child.name@);
                push_line(&mut groups, line);
                assert(texts(arrays@) =~= array_lines(next));
            },
            ZarrNodeKind::Array { shape, dtype, dimension_names, .. } => {
                let dims = format_dims(shape.as_slice(), dimension_names);
                let mut buf: Vec<char> = Vec::new();
                push_text(&mut buf, "    ");
                push_text(&mut buf, child.name.as_str());
                push_text(&mut buf, "  (");
                push_text(&mut buf, dims.as_str());
                push_text(&mut buf, ") ");
                push_text(&mut buf, dtype.as_str());
                let line = string_from_chars(&buf);
                assert(line@ =~= "    "@ + variable_line(child.name@, child.kind));
                push_line(&mut arrays, line);
                assert(texts(groups@) =~= group_lines(next));
            },
        }
        i = i + 1;
    }
    assert(children@.subrange(0, children@.len() as int) =~= children@);
    (groups, arrays)
}

fn count_line(head: &str, n: usize) -> (r: String)
    ensures
        r@ == head@ + decimal(n as nat) + ")"@,
{
    let t = u64_text(n as u64);
    enclose(head, t.as_str(), ")")
}

fn group_body(node: &ZarrTreeNode, attributes: &Vec<(String, JsonValue)>) -> (r: Vec<String>)
    ensures
        texts(r@) == group_body_lines(*node, attributes@),
{
    let (groups, arrays) = child_lines(&node.children);
    let mut lines: Vec<String> = Vec::new();
    if groups.len() > 0 {
        push_line(&mut lines, count_line("Groups: (", groups.len()));
        let mut i: usize = 0;
        while i < groups.len()
            invariant
                i <= groups.len(),
                texts(lines@) =~= seq!["Groups: ("@ + decimal(groups@.len() as nat) + ")"@] + texts(
                    groups@,
                ).subrange(0, i as int),
            decreases groups.len() - i,
        {
            push_line(&mut lines, groups[i].clone());
            i = i + 1;
        }
        push_line(&mut lines, String::new());
    }
    let ghost after_groups = texts(lines@);
    if arrays.len() > 0 {
        push_line(&mut lines, count_line("Data variables: (", arrays.len()));
        let mut i: usize = 0;
        while i < arrays.len()
            invariant
                i <= arrays.len(),
                texts(lines@) =~= after_groups + seq!["Data variables: ("@ + decimal(arrays@.len() as nat) + ")"@]
                    + texts(arrays@).subrange(0, i as int),
            decreases arrays.len() - i,
        {
            push_line(&mut lines, arrays[i].clone());
            i = i + 1;
        }
        push_line(&mut lines, String::new());
    }
    let is_root = str_is(node.path.as_str(), "/");
    if groups.len() == 0 && arrays.len() == 0 && !is_root {
        push_line(&mut lines, String::from_str("Empty group"));
        push_line(&mut lines, String::new());
    }
    append_attributes(&mut lines, attributes);
    proof {
        assert(texts(lines@) =~= group_body_lines(*node, attributes@));
    }
    lines
}

fn array_body(node: &ZarrTreeNode) -> (r: Vec<String>)
    requires
        node.kind is Array,
    ensures
        texts(r@) == array_body_lines(*node),
{
    match &node.kind {
        ZarrNodeKind::Array { shape, chunks, dtype, dimension_names, attributes, fill_value } => {
            let dims = format_dimension_lines(shape.as_slice(), dimension_names);
            let ghost dl = texts(dims@);
            let mut lines: Vec<String> = Vec::new();
            push_line(&mut lines, String::from_str("Dimensions:"));
            let mut i: usize = 0;
            while i < dims.len()
                invariant
                    i <= dims.len(),
                    dl == texts(dims@),
                    texts(lines@) =~= seq!["Dimensions:"@] + Seq::new(i as nat, |k: int| "    "@ + dl[k]),
                decreases dims.len() - i,
            {
                push_line(&mut lines, concat2("    ", dims[i].as_str()));
                i = i + 1;
            }
            push_line(&mut lines, String::new());
            let d = format_dims(shape.as_slice(), dimension_names);
            let mut buf: Vec<char> = Vec::new();
            push_text(&mut buf, "Data variables:\n    ");
            push_text(&mut buf, node.name.as_str());
            push_text(&mut buf, "  (");
            push_text(&mut buf, d.as_str());
            push_text(&mut buf, ") ");
            push_text(&mut buf, dtype.as_str());
            let vline = string_from_chars(&buf);
            assert(vline@ =~= "Data variables:\n    "@ + variable_line(node.name@, node.kind));
            push_line(&mut lines, vline);
            push_line(&mut lines, String::new());
            push_line(&mut lines, String::from_str("Array metadata:"));
            let sh = u64s_debug_text(shape.as_slice());
            push_line(&mut lines, concat2("    shape:  ", sh.as_str()));
            if chunks.len() > 0 {
                let ch = u64s_debug_text(chunks.as_slice());
                push_line(&mut lines, concat2("    chunks: ", ch.as_str()));
            }
            match fill_value {
                Some(fv) => {
                    let t = format_json_value(fv);
                    push_line(&mut lines, concat2("    fill_value: ", t.as_str()));
                },
                None => {},
            }
            push_line(&mut lines, String::new());
            append_attributes(&mut lines, attributes);
            proof {
                assert(texts(lines@) =~= array_body_lines(*node));
            }
            lines
        },
        _ => Vec::new(),
    }
}

/// The xarray-style summary of a group or array of product `product_name`.
pub fn format_node_repr(node: &ZarrTreeNode, product_name: &str) -> (r: NodeRepr)
    ensures
        r.title@ == repr_title(*node, product_name@),
        r.body@ == repr_body(*node),
{
    match &node.kind {
        ZarrNodeKind::Group { attributes } => {
            let title = if str_is(node.path.as_str(), "/") {
                enclose("<xarray.DataTree '", product_name, "'>")
            } else {
                enclose("<xarray.Dataset / Group '", node.name.as_str(), "'>")
            };
            let lines = group_body(node, attributes);
            NodeRepr { title, body: join_strings(&lines, "\n") }
        },
        ZarrNodeKind::Array { .. } => {
            let title = enclose("<xarray.DataArray '", node.name.as_str(), "'>");
            let lines = array_body(node);
            NodeRepr { title, body: join_strings(&lines, "\n") }
        },
    }
}

} // verus!
