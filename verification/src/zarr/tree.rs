//! The in-memory hierarchy of a Zarr product: groups and arrays by path.
use vstd::prelude::*;
use vstd::multiset::Multiset;

use crate::json::JsonValue;
use crate::text::{chars_split, chars_trim_start_char, split_char, trim_start_char};
use crate::order::{chars_lex_le, names_sorted, sort_by_key, sort_strings, sorted_by_key, SortKey};
use crate::text::{chars_concat, str_chars, string_from_chars};
use crate::zarr::location::clone_string;

verus! {

/// Metadata carried for a hierarchy node.
#[derive(Debug)]
pub enum ZarrNodeKind {
    /// Zarr group with its attributes (members in key order).
    Group { attributes: Vec<(String, JsonValue)> },
    /// Zarr array with shape, chunking, and CF-style attributes.
    Array {
        /// Logical array shape.
        shape: Vec<u64>,
        /// Chunk shape along each dimension.
        chunks: Vec<u64>,
        /// Zarr data type name (e.g. `"float32"`).
        dtype: String,
        /// Named dimensions when present in Zarr v3 metadata.
        dimension_names: Vec<String>,
        /// Attributes of the array (members in key order).
        attributes: Vec<(String, JsonValue)>,
        /// Declared fill / missing value, if any.
        fill_value: Option<JsonValue>,
    },
}

/// A group or array node in the product hierarchy.
#[derive(Debug)]
pub struct ZarrTreeNode {
    /// Final path segment (e.g. `"lst"`).
    pub name: String,
    /// Absolute hierarchy path (e.g. `"/measurements/lst"`).
    pub path: String,
    /// Group or array metadata for this node.
    pub kind: ZarrNodeKind,
    /// Child groups and arrays, sorted with groups before arrays.
    pub children: Vec<ZarrTreeNode>,
}

/// In-memory hierarchy of an EOPF Zarr product.
#[derive(Debug)]
pub struct ZarrTree {
    /// Root group node (`path == "/"`).
    pub root: ZarrTreeNode,
}

/// A node followed by all nodes below it, depth first, children in order.
pub open spec fn subtree(n: ZarrTreeNode) -> Seq<ZarrTreeNode>
    decreases n, 1int,
{
    seq![n] + forest(n.children@, n.children@.len() as int)
}

/// The subtrees of the first `k` nodes of `cs`, one after the other.
pub open spec fn forest(cs: Seq<ZarrTreeNode>, k: int) -> Seq<ZarrTreeNode>
    decreases cs, k,
{
    if k <= 0 || k > cs.len() {
        Seq::empty()
    } else {
        forest(cs, k - 1) + subtree(cs[k - 1])
    }
}

/// All nodes below `n`, depth first (the order of `visit_nodes`).
pub open spec fn descendants(n: ZarrTreeNode) -> Seq<ZarrTreeNode> {
    forest(n.children@, n.children@.len() as int)
}

/// The first node of `nodes` whose path is `p`.
pub open spec fn first_with_path(nodes: Seq<ZarrTreeNode>, p: Seq<char>) -> Option<ZarrTreeNode>
    decreases nodes.len(),
{
    if nodes.len() == 0 {
        None
    } else if nodes[0].path@ == p {
        Some(nodes[0])
    } else {
        first_with_path(nodes.drop_first(), p)
    }
}

/// A hierarchy path with a leading `/`; empty and `/` both mean the root.
pub open spec fn spec_normalize_path(p: Seq<char>) -> Seq<char> {
    if p.len() == 0 || p == seq!['/'] {
        seq!['/']
    } else if p[0] == '/' {
        p
    } else {
        seq!['/'] + p
    }
}

/// Path of a child named `name` under `parent`.
pub open spec fn spec_join_path(parent: Seq<char>, name: Seq<char>) -> Seq<char> {
    if parent == seq!['/'] {
        seq!['/'] + name
    } else {
        parent + seq!['/'] + name
    }
}

pub fn normalize_path(path: &str) -> (r: String)
    ensures
        r@ == spec_normalize_path(path@),
{
    let p = str_chars(path);
    if p.len() == 0 || (p.len() == 1 && p[0] == '/') {
        let mut v: Vec<char> = Vec::new();
        v.push('/');
        proof {
            if p@.len() == 1 {
                assert(p@ =~= seq!['/']);
            }
        }
        string_from_chars(&v)
    } else if p[0] == '/' {
        proof {
            assert(p@ != seq!['/']);
        }
        String::from_str(path)
    } else {
        let mut v: Vec<char> = Vec::new();
        v.push('/');
        let all = chars_concat(&v, &p);
        proof {
            assert(p@ != seq!['/']);
        }
        string_from_chars(&all)
    }
}

pub fn join_path(parent: &str, name: &str) -> (r: String)
    ensures
        r@ == spec_join_path(parent@, name@),
{
    let p = str_chars(parent);
    let n = str_chars(name);
    let mut slash: Vec<char> = Vec::new();
    slash.push('/');
    if p.len() == 1 && p[0] == '/' {
        assert(p@ =~= seq!['/']);
        let all = chars_concat(&slash, &n);
        string_from_chars(&all)
    } else {
        assert(p@ != seq!['/']);
        let a = chars_concat(&p, &slash);
        let all = chars_concat(&a, &n);
        string_from_chars(&all)
    }
}

proof fn lemma_first_concat(a: Seq<ZarrTreeNode>, b: Seq<ZarrTreeNode>, p: Seq<char>)
    ensures
        first_with_path(a + b, p) == match first_with_path(a, p) {
            Some(n) => Some(n),
            None => first_with_path(b, p),
        },
    decreases a.len(),
{
    if a.len() == 0 {
        assert(a + b =~= b);
    } else {
        lemma_first_concat(a.drop_first(), b, p);
        assert((a + b).drop_first() =~= a.drop_first() + b);
        assert((a + b)[0] == a[0]);
    }
}

impl ZarrTreeNode {
    /// Returns `true` when this node is a Zarr array leaf.
    pub fn is_array(&self) -> (r: bool)
        ensures
            r == (self.kind is Array),
    {
        match self.kind {
            ZarrNodeKind::Array { .. } => true,
            _ => false,
        }
    }

    /// Returns `true` when this node is a Zarr group.
    pub fn is_group(&self) -> (r: bool)
        ensures
            r == (self.kind is Group),
    {
        match self.kind {
            ZarrNodeKind::Group { .. } => true,
            _ => false,
        }
    }

    /// Returns `true` when this node is an array whose shape has a zero dimension.
    pub fn is_empty_array(&self) -> (r: bool)
        ensures
            r == (self.kind is Array && self.kind->shape@.contains(0u64)),
    {
        match &self.kind {
            ZarrNodeKind::Array { shape, .. } => {
                let mut i: usize = 0;
                assert(self.kind->shape == *shape);
                while i < shape.len()
                    invariant
                        i <= shape.len(),
                        self.kind is Array,
                        self.kind->shape == *shape,
                        forall|j: int| 0 <= j < i ==> shape@[j] != 0,
                    decreases shape.len() - i,
                {
                    if shape[i] == 0 {
                        assert(shape@[i as int] == 0);
                        return true;
                    }
                    i = i + 1;
                }
                false
            },
            _ => false,
        }
    }

    /// Look up a node by hierarchy path (with or without a leading `/`): the
    /// first node, depth first from this one, whose path matches.
    pub fn find_by_path(&self, path: &str) -> (r: Option<&ZarrTreeNode>)
        ensures
            match first_with_path(subtree(*self), spec_normalize_path(path@)) {
                Some(n) => r matches Some(x) && *x == n,
                None => r is None,
            },
        decreases *self,
    {
        let normalized = normalize_path(path);
        let ghost p = normalized@;
        let ghost cs = self.children@;
        proof {
            lemma_first_concat(seq![*self], forest(cs, cs.len() as int), p);
            assert(seq![*self].drop_first().len() == 0);
            assert(subtree(*self) == seq![*self] + forest(cs, cs.len() as int));
            assert(seq![*self][0] == *self);
        }
        if self.path == normalized {
            return Some(self);
        }
        let mut i: usize = 0;
        proof {
            assert(self.path@ != p);
            assert(first_with_path(seq![*self].drop_first(), p) is None);
            assert(first_with_path(seq![*self], p) is None);
        }
        while i < self.children.len()
            invariant
                i <= self.children.len(),
                cs == self.children@,
                p == spec_normalize_path(path@),
                first_with_path(subtree(*self), p) == first_with_path(forest(cs, cs.len() as int), p),
                first_with_path(forest(cs, i as int), p) is None,
            decreases self.children.len() - i,
        {
            proof {
                assert(decreases_to!(*self => self.children@[i as int]));
                lemma_first_concat(forest(cs, i as int), subtree(cs[i as int]), p);
                assert(forest(cs, i + 1) == forest(cs, i as int) + subtree(cs[i as int]));
            }
            match self.children[i].find_by_path(path) {
                Some(found) => {
                    proof {
                        lemma_forest_prefix(cs, i + 1);
                        lemma_first_concat(forest(cs, i + 1), forest_from(cs, i + 1), p);
                    }
                    return Some(found);
                },
                None => {},
            }
            i = i + 1;
        }
        None
    }
}

/// The subtrees of all children come first in the forest of a longer prefix.
proof fn lemma_forest_prefix(cs: Seq<ZarrTreeNode>, k: int)
    requires
        0 <= k <= cs.len(),
    ensures
        forest(cs, cs.len() as int) == forest(cs, k) + forest_from(cs, k),
    decreases cs.len() - k,
{
    if k < cs.len() {
        lemma_forest_prefix(cs, k + 1);
        assert(forest(cs, k + 1) == forest(cs, k) + subtree(cs[k]));
        assert(forest_from(cs, k) == subtree(cs[k]) + forest_from(cs, k + 1));
        assert(forest(cs, k) + subtree(cs[k]) + forest_from(cs, k + 1) =~= forest(cs, k) + (
        subtree(cs[k]) + forest_from(cs, k + 1)));
    } else {
        assert(forest(cs, k) + forest_from(cs, k) =~= forest(cs, k));
    }
}

/// The subtrees of the nodes of `cs` from index `k` on.
pub open spec fn forest_from(cs: Seq<ZarrTreeNode>, k: int) -> Seq<ZarrTreeNode>
    decreases cs.len() - k,
{
    if k < 0 || k >= cs.len() {
        Seq::empty()
    } else {
        subtree(cs[k]) + forest_from(cs, k + 1)
    }
}

// ---------------------------------------------------------------------------
// Paths held by a tree
// ---------------------------------------------------------------------------
/// The paths of a node and all nodes below it, counted with repetition.
pub open spec fn tree_paths(n: ZarrTreeNode) -> Multiset<Seq<char>>
    decreases n, 1int,
{
    Multiset::empty().insert(n.path@).add(forest_paths(n.children@, n.children@.len() as int))
}

/// The paths of the subtrees of the first `k` nodes of `cs`.
pub open spec fn forest_paths(cs: Seq<ZarrTreeNode>, k: int) -> Multiset<Seq<char>>
    decreases cs, k,
{
    if k <= 0 || k > cs.len() {
        Multiset::empty()
    } else {
        forest_paths(cs, k - 1).add(tree_paths(cs[k - 1]))
    }
}

/// Every path held by a tree is found by a depth-first lookup from its root:
/// what `build_tree` places, `find_by_path` finds.
pub proof fn lemma_paths_are_found(n: ZarrTreeNode, p: Seq<char>)
    requires
        tree_paths(n).contains(p),
    ensures
        first_with_path(subtree(n), p) is Some,
    decreases n, 1int,
{
    broadcast use vstd::multiset::group_multiset_axioms;

    let cs = n.children@;
    lemma_first_concat(seq![n], forest(cs, cs.len() as int), p);
    assert(seq![n][0] == n);
    if n.path@ != p {
        assert(seq![n].drop_first().len() == 0);
        assert(forest_paths(cs, cs.len() as int).contains(p));
        lemma_forest_paths_found(n, cs, cs.len() as int, p);
    }
}

proof fn lemma_forest_paths_found(parent: ZarrTreeNode, cs: Seq<ZarrTreeNode>, k: int, p: Seq<char>)
    requires
        cs == parent.children@,
        0 <= k <= cs.len(),
        forest_paths(cs, k).contains(p),
    ensures
        first_with_path(forest(cs, k), p) is Some,
    decreases parent, 0int, k,
{
    broadcast use vstd::multiset::group_multiset_axioms;

    if k > 0 {
        lemma_first_concat(forest(cs, k - 1), subtree(cs[k - 1]), p);
        if forest_paths(cs, k - 1).contains(p) {
            lemma_forest_paths_found(parent, cs, k - 1, p);
        } else {
            assert(tree_paths(cs[k - 1]).contains(p));
            assert(decreases_to!(parent => parent.children@[k - 1]));
            lemma_paths_are_found(cs[k - 1], p);
        }
    }
}

pub open spec fn all_forest_paths(cs: Seq<ZarrTreeNode>) -> Multiset<Seq<char>> {
    forest_paths(cs, cs.len() as int)
}

proof fn lemma_forest_paths_prefix(cs: Seq<ZarrTreeNode>, ds: Seq<ZarrTreeNode>, k: int)
    requires
        0 <= k <= cs.len(),
        k <= ds.len(),
        forall|i: int| 0 <= i < k ==> cs[i] == ds[i],
    ensures
        forest_paths(cs, k) == forest_paths(ds, k),
    decreases k,
{
    if k > 0 {
        lemma_forest_paths_prefix(cs, ds, k - 1);
    }
}

proof fn lemma_forest_paths_push(cs: Seq<ZarrTreeNode>, x: ZarrTreeNode)
    ensures
        all_forest_paths(cs.push(x)) == all_forest_paths(cs).add(tree_paths(x)),
{
    lemma_forest_paths_prefix(cs, cs.push(x), cs.len() as int);
}

/// Removing the node at `k` removes exactly its subtree's paths.
proof fn lemma_forest_paths_remove(cs: Seq<ZarrTreeNode>, k: int)
    requires
        0 <= k < cs.len(),
    ensures
        all_forest_paths(cs) == all_forest_paths(cs.remove(k)).add(tree_paths(cs[k])),
    decreases cs.len(),
{
    broadcast use vstd::multiset::group_multiset_axioms;

    let n = cs.len() as int;
    if k == n - 1 {
        assert(cs.remove(k) =~= cs.drop_last());
        lemma_forest_paths_prefix(cs, cs.drop_last(), n - 1);
    } else {
        let d = cs.drop_last();
        lemma_forest_paths_remove(d, k);
        lemma_forest_paths_prefix(cs, d, n - 1);
        assert(cs.remove(k) =~= d.remove(k).push(cs.last()));
        lemma_forest_paths_push(d.remove(k), cs.last());
        assert(d[k] == cs[k]);
        assert(all_forest_paths(cs) =~= all_forest_paths(cs.remove(k)).add(tree_paths(cs[k])));
    }
}

/// Inserting a node at `k` adds exactly its subtree's paths.
proof fn lemma_forest_paths_insert(cs: Seq<ZarrTreeNode>, k: int, x: ZarrTreeNode)
    requires
        0 <= k <= cs.len(),
    ensures
        all_forest_paths(cs.insert(k, x)) == all_forest_paths(cs).add(tree_paths(x)),
{
    let t = cs.insert(k, x);
    lemma_forest_paths_remove(t, k);
    assert(t.remove(k) =~= cs);
}

/// The paths of a forest depend only on which subtrees it holds.
proof fn lemma_forest_paths_perm(cs: Seq<ZarrTreeNode>, ds: Seq<ZarrTreeNode>)
    requires
        cs.to_multiset() == ds.to_multiset(),
    ensures
        all_forest_paths(cs) == all_forest_paths(ds),
    decreases cs.len(),
{
    broadcast use vstd::multiset::group_multiset_axioms;

    vstd::seq_lib::to_multiset_len(cs);
    vstd::seq_lib::to_multiset_len(ds);
    if cs.len() == 0 {
        assert(ds.len() == 0);
    } else {
        let x = cs.last();
        vstd::seq_lib::to_multiset_contains(cs, x);
        assert(cs[cs.len() - 1] == x);
        assert(cs.to_multiset().count(x) > 0);
        vstd::seq_lib::to_multiset_contains(ds, x);
        let k = choose|k: int| 0 <= k < ds.len() && ds[k] == x;
        vstd::seq_lib::to_multiset_remove(ds, k);
        vstd::seq_lib::to_multiset_remove(cs, cs.len() - 1);
        assert(cs.remove(cs.len() - 1) =~= cs.drop_last());
        lemma_forest_paths_perm(cs.drop_last(), ds.remove(k));
        lemma_forest_paths_remove(ds, k);
        lemma_forest_paths_remove(cs, cs.len() - 1);
    }
}

/// Replacing each subtree by one with the same paths keeps the forest's paths.
proof fn lemma_forest_paths_pointwise(cs: Seq<ZarrTreeNode>, ds: Seq<ZarrTreeNode>, k: int)
    requires
        0 <= k <= cs.len(),
        cs.len() == ds.len(),
        forall|i: int| 0 <= i < k ==> tree_paths(#[trigger] cs[i]) == tree_paths(ds[i]),
    ensures
        forest_paths(cs, k) == forest_paths(ds, k),
    decreases k,
{
    if k > 0 {
        lemma_forest_paths_pointwise(cs, ds, k - 1);
        assert(tree_paths(cs[k - 1]) == tree_paths(ds[k - 1]));
    }
}

// ---------------------------------------------------------------------------
// Child order
// ---------------------------------------------------------------------------
/// Children are listed groups first, then by name.
impl SortKey for ZarrTreeNode {
    open spec fn rank(&self) -> int {
        if self.kind is Group {
            0
        } else {
            1
        }
    }

    open spec fn name(&self) -> Seq<char> {
        self.name@
    }

    fn key_le_exec(&self, other: &Self) -> (r: bool) {
        let ga = self.is_group();
        let gb = other.is_group();
        if ga && !gb {
            return true;
        }
        if gb && !ga {
            return false;
        }
        let a = str_chars(self.name.as_str());
        let b = str_chars(other.name.as_str());
        chars_lex_le(&a, &b)
    }
}

/// Every node's children are in order (groups first, then by name).
pub open spec fn well_sorted(n: ZarrTreeNode) -> bool
    decreases n, 1int,
{
    sorted_by_key(n.children@) && forest_sorted(n.children@, n.children@.len() as int)
}

pub open spec fn forest_sorted(cs: Seq<ZarrTreeNode>, k: int) -> bool
    decreases cs, k,
{
    if k <= 0 || k > cs.len() {
        true
    } else {
        forest_sorted(cs, k - 1) && well_sorted(cs[k - 1])
    }
}

proof fn lemma_forest_sorted(cs: Seq<ZarrTreeNode>, k: int)
    requires
        0 <= k <= cs.len(),
        forall|i: int| 0 <= i < k ==> well_sorted(#[trigger] cs[i]),
    ensures
        forest_sorted(cs, k),
    decreases k,
{
    if k > 0 {
        lemma_forest_sorted(cs, k - 1);
    }
}

/// Sort every node's children: groups before arrays, each by name (a stable
/// sort). The node keeps its name, path and metadata, and the tree keeps its
/// paths.
pub fn sort_children(node: &mut ZarrTreeNode)
    ensures
        final(node).name == old(node).name,
        final(node).path == old(node).path,
        final(node).kind == old(node).kind,
        tree_paths(*final(node)) == tree_paths(*old(node)),
        well_sorted(*final(node)),
    decreases *old(node),
{
    let ghost orig = node.children@;
    let mut taken: Vec<ZarrTreeNode> = Vec::new();
    std::mem::swap(&mut taken, &mut node.children);
    proof {
        assert(decreases_to!(*old(node) => old(node).children));
    }
    let mut sorted = sort_by_key(taken);
    let ghost sorted0 = sorted@;
    let mut out: Vec<ZarrTreeNode> = Vec::new();
    let n = sorted.len();
    let mut i: usize = 0;
    while i < n
        invariant
            n == sorted0.len(),
            i <= n,
            sorted@ == sorted0.subrange(i as int, n as int),
            out@.len() == i,
            sorted0.to_multiset() == orig.to_multiset(),
            sorted_by_key(sorted0),
            orig == old(node).children@,
            forall|j: int| 0 <= j < i ==> (#[trigger] out@[j]).name == sorted0[j].name && out@[j].kind
                == sorted0[j].kind && tree_paths(out@[j]) == tree_paths(sorted0[j]) && well_sorted(
                out@[j],
            ),
        decreases n - i,
    {
        let mut child = sorted.remove(0);
        proof {
            assert(child == sorted0[i as int]);
            vstd::seq_lib::to_multiset_contains(sorted0, child);
            assert(sorted0.contains(child)) by {
                assert(sorted0[i as int] == child);
            }
            vstd::seq_lib::to_multiset_contains(orig, child);
            let k = choose|k: int| 0 <= k < orig.len() && orig[k] == child;
            assert(decreases_to!(*old(node) => old(node).children@[k]));
        }
        sort_children(&mut child);
        out.push(child);
        proof {
            assert(sorted0.subrange(i + 1, n as int) =~= sorted0.subrange(i as int, n as int).drop_first());
        }
        i = i + 1;
    }
    proof {
        let o = out@;
        assert forall|a: int, b: int| 0 <= a < b < o.len() implies crate::order::elem_le(
            #[trigger] o[a],
            #[trigger] o[b],
        ) by {
            assert(crate::order::elem_le(sorted0[a], sorted0[b]));
        }
        lemma_forest_paths_pointwise(o, sorted0, o.len() as int);
        lemma_forest_paths_perm(sorted0, orig);
        lemma_forest_sorted(o, o.len() as int);
    }
    node.children = out;
}

// ---------------------------------------------------------------------------
// Building the hierarchy
// ---------------------------------------------------------------------------
/// The path reached from `parent` by descending through `segs`.
pub open spec fn join_all(parent: Seq<char>, segs: Seq<Seq<char>>) -> Seq<char>
    decreases segs.len(),
{
    if segs.len() == 0 {
        parent
    } else {
        join_all(spec_join_path(parent, segs[0]), segs.drop_first())
    }
}

pub open spec fn segs_view(v: Seq<String>) -> Seq<Seq<char>> {
    v.map_values(|x: String| x@)
}

/// Where a node inserted along `segs[from..]` under `parent` ends up: the
/// given leaf path, or the path its segments lead to.
pub open spec fn leaf_path_of(parent: Seq<char>, segs: Seq<Seq<char>>, from: int, leaf: Option<Seq<char>>) -> Seq<
    char,
> {
    match leaf {
        Some(p) => p,
        None => join_all(parent, segs.subrange(from, segs.len() as int)),
    }
}

pub open spec fn opt_str_view(o: Option<String>) -> Option<Seq<char>> {
    match o {
        Some(s) => Some(s@),
        None => None,
    }
}

/// A group child named `name`.
pub open spec fn is_group_named(c: ZarrTreeNode, name: Seq<char>) -> bool {
    c.name@ == name && c.kind is Group
}

fn find_group_child(children: &Vec<ZarrTreeNode>, name: &String) -> (r: Option<usize>)
    ensures
        match r {
            Some(i) => i < children@.len() && is_group_named(children@[i as int], name@)
                && forall|j: int| 0 <= j < i ==> !is_group_named(#[trigger] children@[j], name@),
            None => forall|j: int|
                0 <= j < children@.len() ==> !is_group_named(#[trigger] children@[j], name@),
        },
{
    let mut i: usize = 0;
    while i < children.len()
        invariant
            i <= children.len(),
            forall|j: int| 0 <= j < i ==> !is_group_named(#[trigger] children@[j], name@),
        decreases children.len() - i,
    {
        if children[i].name == *name && children[i].is_group() {
            return Some(i);
        }
        i = i + 1;
    }
    None
}

/// Insert a node for `kind` along the path segments `segments[from..]`
/// below `root` (whose path is `parent_path`): the first group child of the
/// next segment's name is descended into, and a missing one is created as an
/// empty group. The new node's path is `leaf_path` when given, else the
/// joined segments. Nothing of the tree is lost, and the new path is in it.
pub fn insert_node(
    root: &mut ZarrTreeNode,
    parent_path: &str,
    segments: &Vec<String>,
    from: usize,
    kind: ZarrNodeKind,
    leaf_path: &Option<String>,
)
    requires
        from < segments@.len(),
    ensures
        final(root).name == old(root).name,
        final(root).path == old(root).path,
        final(root).kind == old(root).kind,
        tree_paths(*old(root)).subset_of(tree_paths(*final(root))),
        tree_paths(*final(root)).contains(
            leaf_path_of(parent_path@, segs_view(segments@), from as int, opt_str_view(*leaf_path)),
        ),
    decreases segments@.len() - from,
{
    broadcast use vstd::multiset::group_multiset_axioms;

    let ghost segs = segs_view(segments@);
    let ghost old_children = root.children@;
    let ghost leaf = leaf_path_of(parent_path@, segs, from as int, opt_str_view(*leaf_path));
    proof {
        let rest = segs.subrange(from as int, segs.len() as int);
        assert(rest[0] == segments@[from as int]@);
        assert(rest.drop_first() =~= segs.subrange(from + 1, segs.len() as int));
    }
    if from == segments.len() - 1 {
        let name = clone_string(&segments[from]);
        let path = match leaf_path {
            Some(p) => clone_string(p),
            None => join_path(parent_path, segments[from].as_str()),
        };
        proof {
            let rest = segs.subrange(from as int, segs.len() as int);
            assert(rest.drop_first().len() == 0);
            assert(join_all(spec_join_path(parent_path@, rest[0]), rest.drop_first()) == spec_join_path(
                parent_path@,
                rest[0],
            ));
            assert(join_all(parent_path@, rest) == spec_join_path(parent_path@, rest[0]));
            assert(path@ == leaf);
        }
        let leaf_node = ZarrTreeNode { name, path, kind, children: Vec::new() };
        proof {
            assert(forest_paths(leaf_node.children@, 0) == Multiset::<Seq<char>>::empty());
            assert(tree_paths(leaf_node).count(leaf) > 0);
            lemma_forest_paths_push(old_children, leaf_node);
        }
        root.children.push(leaf_node);
        return;
    }
    let head = &segments[from];
    let child_path = join_path(parent_path, head.as_str());
    proof {
        let rest = segs.subrange(from as int, segs.len() as int);
        assert(join_all(parent_path@, rest) == join_all(child_path@, segs.subrange(from + 1, segs.len() as int)));
    }
    match find_group_child(&root.children, head) {
        Some(i) => {
            let mut child = root.children.remove(i);
            let ghost removed = root.children@;
            insert_node(&mut child, child_path.as_str(), segments, from + 1, kind, leaf_path);
            root.children.insert(i, child);
            proof {
                lemma_forest_paths_remove(old_children, i as int);
                lemma_forest_paths_insert(removed, i as int, child);
                assert(old_children.remove(i as int) == removed);
            }
        },
        None => {
            let mut group = ZarrTreeNode {
                name: clone_string(head),
                path: clone_string(&child_path),
                kind: ZarrNodeKind::Group { attributes: Vec::new() },
                children: Vec::new(),
            };
            insert_node(&mut group, child_path.as_str(), segments, from + 1, kind, leaf_path);
            proof {
                lemma_forest_paths_push(old_children, group);
            }
            root.children.push(group);
        },
    }
}

/// The segments of a hierarchy path: the pieces between `/` once leading
/// slashes are removed.
pub open spec fn path_segments(path: Seq<char>) -> Seq<Seq<char>> {
    split_char(trim_start_char(path, '/'), '/')
}

fn segments_of(path: &str) -> (r: Vec<String>)
    ensures
        segs_view(r@) == path_segments(path@),
        r@.len() >= 1,
{
    let p = str_chars(path);
    let t = chars_trim_start_char(&p, '/');
    let pieces = chars_split(&t, '/');
    proof {
        crate::text::lemma_split_nonempty(t@, '/');
    }
    let mut out: Vec<String> = Vec::new();
    let mut i: usize = 0;
    while i < pieces.len()
        invariant
            i <= pieces.len(),
            pieces@.len() == split_char(t@, '/').len(),
            forall|k: int| 0 <= k < pieces@.len() ==> #[trigger] pieces@[k]@ == split_char(t@, '/')[k],
            segs_view(out@) == split_char(t@, '/').subrange(0, i as int),
        decreases pieces.len() - i,
    {
        let ghost before = out@;
        out.push(string_from_chars(&pieces[i]));
        assert(segs_view(out@) =~= segs_view(before).push(pieces@[i as int]@));
        assert(split_char(t@, '/').subrange(0, i + 1) =~= split_char(t@, '/').subrange(0, i as int).push(
            split_char(t@, '/')[i as int],
        ));
        i = i + 1;
    }
    assert(split_char(t@, '/').subrange(0, pieces@.len() as int) =~= split_char(t@, '/'));
    out
}

/// Nodes are taken in `str::cmp` order of their paths.
impl SortKey for (String, ZarrNodeKind) {
    open spec fn rank(&self) -> int {
        0
    }

    open spec fn name(&self) -> Seq<char> {
        self.0@
    }

    fn key_le_exec(&self, other: &Self) -> (r: bool) {
        let a = str_chars(self.0.as_str());
        let b = str_chars(other.0.as_str());
        chars_lex_le(&a, &b)
    }
}

/// The path at which `build_tree` places a node listed at `path`.
pub open spec fn placed_path(path: Seq<char>) -> Seq<char> {
    join_all("/"@, path_segments(path))
}

/// Build the hierarchy of a product from its nodes (path and metadata), as a
/// store traversal lists them. The nodes are taken in path order; `/` gives
/// the root its group metadata, every other node is inserted at the path its
/// segments lead to, creating missing groups. Children end up sorted.
pub fn build_tree(nodes: Vec<(String, ZarrNodeKind)>) -> (r: ZarrTree)
    ensures
        r.root.name@ == "/"@,
        r.root.path@ == "/"@,
        r.root.kind is Group,
        well_sorted(r.root),
        forall|i: int|
            0 <= i < nodes@.len() && nodes@[i].0@ != "/"@ ==> tree_paths(r.root).contains(
                #[trigger] placed_path(nodes@[i].0@),
            ),
{
    broadcast use vstd::multiset::group_multiset_axioms;

    let ghost input = nodes@;
    let mut rest = sort_by_key(nodes);
    let ghost sorted0 = rest@;
    let mut root = ZarrTreeNode {
        name: String::from_str("/"),
        path: String::from_str("/"),
        kind: ZarrNodeKind::Group { attributes: Vec::new() },
        children: Vec::new(),
    };
    let n = rest.len();
    let mut i: usize = 0;
    while i < n
        invariant
            n == sorted0.len(),
            i <= n,
            rest@ == sorted0.subrange(i as int, n as int),
            root.name@ == "/"@,
            root.path@ == "/"@,
            root.kind is Group,
            forall|j: int|
                0 <= j < i && sorted0[j].0@ != "/"@ ==> tree_paths(root).contains(
                    #[trigger] placed_path(sorted0[j].0@),
                ),
        decreases n - i,
    {
        let (path, kind) = rest.remove(0);
        proof {
            assert((path, kind) == sorted0[i as int]);
            assert(sorted0.subrange(i + 1, n as int) =~= sorted0.subrange(i as int, n as int).drop_first());
        }
        if crate::text::str_is(path.as_str(), "/") {
            match kind {
                ZarrNodeKind::Group { attributes } => {
                    let ghost before = root;
                    root.kind = ZarrNodeKind::Group { attributes };
                    proof {
                        assert(tree_paths(root) == tree_paths(before));
                    }
                },
                _ => {},
            }
        } else {
            let segments = segments_of(path.as_str());
            let ghost before = tree_paths(root);
            insert_node(&mut root, "/", &segments, 0, kind, &None);
            proof {
                assert(segs_view(segments@).subrange(0, segs_view(segments@).len() as int) =~= segs_view(
                    segments@,
                ));
                assert forall|j: int|
                    0 <= j < i && sorted0[j].0@ != "/"@ implies tree_paths(root).contains(
                    #[trigger] placed_path(sorted0[j].0@),
                ) by {
                    assert(before.count(placed_path(sorted0[j].0@)) > 0);
                }
            }
        }
        i = i + 1;
    }
    sort_children(&mut root);
    proof {
        assert forall|i: int|
            0 <= i < input.len() && input[i].0@ != "/"@ implies tree_paths(root).contains(
            #[trigger] placed_path(input[i].0@),
        ) by {
            vstd::seq_lib::to_multiset_contains(input, input[i]);
            assert(input.contains(input[i]));
            vstd::seq_lib::to_multiset_contains(sorted0, input[i]);
            let j = choose|j: int| 0 <= j < sorted0.len() && sorted0[j] == input[i];
            assert(sorted0[j].0@ != "/"@);
        }
    }
    ZarrTree { root }
}

/// Build the hierarchy of a SAFE product from its mapped tree paths, each
/// with the metadata probed for its variable (`None` when the probe failed,
/// which leaves the path out), under a root group with `root_attributes`.
/// The paths are taken in order; every kept variable is a node at exactly its
/// tree path, missing groups are created, and children end up sorted.
pub fn build_safe_tree(
    entries: Vec<(String, Option<ZarrNodeKind>)>,
    root_attributes: Vec<(String, JsonValue)>,
) -> (r: ZarrTree)
    ensures
        r.root.name@ == "/"@,
        r.root.path@ == "/"@,
        r.root.kind is Group,
        well_sorted(r.root),
        forall|i: int|
            0 <= i < entries@.len() && entries@[i].1 is Some ==> tree_paths(r.root).contains(
                #[trigger] entries@[i].0@,
            ),
{
    broadcast use vstd::multiset::group_multiset_axioms;

    let ghost input = entries@;
    let mut root = ZarrTreeNode {
        name: String::from_str("/"),
        path: String::from_str("/"),
        kind: ZarrNodeKind::Group { attributes: root_attributes },
        children: Vec::new(),
    };
    let mut rest = entries;
    let n = rest.len();
    let mut i: usize = 0;
    while i < n
        invariant
            n == input.len(),
            i <= n,
            rest@ == input.subrange(i as int, n as int),
            root.name@ == "/"@,
            root.path@ == "/"@,
            root.kind is Group,
            forall|j: int|
                0 <= j < i && input[j].1 is Some ==> tree_paths(root).contains(#[trigger] input[j].0@),
        decreases n - i,
    {
        let (path, probe) = rest.remove(0);
        proof {
            assert((path, probe) == input[i as int]);
            assert(input.subrange(i + 1, n as int) =~= input.subrange(i as int, n as int).drop_first());
        }
        match probe {
            Some(kind) => {
                let segments = segments_of(path.as_str());
                let ghost before = tree_paths(root);
                let leaf = Some(clone_string(&path));
                insert_node(&mut root, "/", &segments, 0, kind, &leaf);
                proof {
                    assert forall|j: int|
                        0 <= j < i && input[j].1 is Some implies tree_paths(root).contains(
                        #[trigger] input[j].0@,
                    ) by {
                        assert(before.count(input[j].0@) > 0);
                    }
                }
            },
            None => {},
        }
        i = i + 1;
    }
    sort_children(&mut root);
    ZarrTree { root }
}

/// Attach root-group attributes (from opened group metadata) to the tree root.
pub fn apply_root_attributes(tree: &mut ZarrTree, attributes: Vec<(String, JsonValue)>)
    ensures
        final(tree).root.kind == (ZarrNodeKind::Group { attributes }),
        final(tree).root.name == old(tree).root.name,
        final(tree).root.path == old(tree).root.path,
        final(tree).root.children == old(tree).root.children,
{
    tree.root.kind = ZarrNodeKind::Group { attributes };
}

/// The paths of the nodes below `n`, in `str::cmp` order.
pub open spec fn spec_collect_paths(n: ZarrTreeNode) -> Seq<Seq<char>> {
    choose|t: Seq<Seq<char>>|
        names_sorted(t) && t.to_multiset() == descendants(n).map_values(
            |x: ZarrTreeNode| x.path@,
        ).to_multiset()
}

fn push_subtree_paths(node: &ZarrTreeNode, out: &mut Vec<String>)
    ensures
        final(out)@.map_values(|x: String| x@) == old(out)@.map_values(|x: String| x@) + subtree(
            *node,
        ).map_values(|x: ZarrTreeNode| x.path@),
    decreases *node,
{
    let ghost start = out@.map_values(|x: String| x@);
    let ghost cs = node.children@;
    let ghost before = out@;
    out.push(clone_string(&node.path));
    proof {
        assert(out@.map_values(|x: String| x@) =~= before.map_values(|x: String| x@).push(node.path@));
        assert(seq![*node].map_values(|x: ZarrTreeNode| x.path@) =~= seq![node.path@]);
        assert(seq![*node] + forest(cs, 0) =~= seq![*node]);
    }
    let mut i: usize = 0;
    while i < node.children.len()
        invariant
            i <= node.children.len(),
            cs == node.children@,
            out@.map_values(|x: String| x@) == start + (seq![*node] + forest(cs, i as int)).map_values(
                |x: ZarrTreeNode| x.path@,
            ),
        decreases node.children.len() - i,
    {
        proof {
            assert(decreases_to!(*node => node.children@[i as int]));
        }
        push_subtree_paths(&node.children[i], out);
        proof {
            let pre = seq![*node] + forest(cs, i as int);
            let sub = subtree(cs[i as int]);
            assert(forest(cs, i + 1) == forest(cs, i as int) + sub);
            assert(seq![*node] + forest(cs, i + 1) =~= pre + sub);
            assert((pre + sub).map_values(|x: ZarrTreeNode| x.path@) =~= pre.map_values(
                |x: ZarrTreeNode| x.path@,
            ) + sub.map_values(|x: ZarrTreeNode| x.path@));
        }
        i = i + 1;
    }
    assert(subtree(*node) == seq![*node] + forest(cs, cs.len() as int));
}

impl ZarrTreeNode {
    /// Sorted hierarchy paths of the nodes below this one.
    pub fn collect_paths(&self) -> (r: Vec<String>)
        ensures
            r@.map_values(|x: String| x@) == spec_collect_paths(*self),
    {
        let ghost cs = self.children@;
        let mut out: Vec<String> = Vec::new();
        assert(out@.map_values(|x: String| x@) =~= forest(cs, 0).map_values(|x: ZarrTreeNode| x.path@));
        let mut i: usize = 0;
        while i < self.children.len()
            invariant
                i <= self.children.len(),
                cs == self.children@,
                out@.map_values(|x: String| x@) == forest(cs, i as int).map_values(
                    |x: ZarrTreeNode| x.path@,
                ),
            decreases self.children.len() - i,
        {
            push_subtree_paths(&self.children[i], &mut out);
            proof {
                let sub = subtree(cs[i as int]);
                assert(forest(cs, i + 1) == forest(cs, i as int) + sub);
                assert((forest(cs, i as int) + sub).map_values(|x: ZarrTreeNode| x.path@) =~= forest(
                    cs,
                    i as int,
                ).map_values(|x: ZarrTreeNode| x.path@) + sub.map_values(|x: ZarrTreeNode| x.path@));
            }
            i = i + 1;
        }
        let ghost unsorted = out@.map_values(|x: String| x@);
        let sorted = sort_strings(out);
        proof {
            let got = sorted@.map_values(|x: String| x@);
            let want = spec_collect_paths(*self);
            assert(unsorted == descendants(*self).map_values(|x: ZarrTreeNode| x.path@));
            assert(names_sorted(got) && got.to_multiset() == descendants(*self).map_values(
                |x: ZarrTreeNode| x.path@,
            ).to_multiset());
            assert(names_sorted(want) && want.to_multiset() == unsorted.to_multiset());
            crate::order::lemma_sorted_unique(got, want);
        }
        sorted
    }

    /// Whether two trees have the same node paths below their roots.
    pub fn is_isomorphic_to(&self, other: &ZarrTreeNode) -> (r: bool)
        ensures
            r == (spec_collect_paths(*self) == spec_collect_paths(*other)),
    {
        let a = self.collect_paths();
        let b = other.collect_paths();
        if a.len() != b.len() {
            assert(a@.map_values(|x: String| x@).len() != b@.map_values(|x: String| x@).len());
            return false;
        }
        let mut i: usize = 0;
        while i < a.len()
            invariant
                i <= a.len(),
                a.len() == b.len(),
                a@.map_values(|x: String| x@) == spec_collect_paths(*self),
                b@.map_values(|x: String| x@) == spec_collect_paths(*other),
                forall|j: int| 0 <= j < i ==> a@[j]@ == b@[j]@,
            decreases a.len() - i,
        {
            if a[i] != b[i] {
                assert(a@.map_values(|x: String| x@)[i as int] != b@.map_values(|x: String| x@)[i as int]);
                return false;
            }
            i = i + 1;
        }
        assert(a@.map_values(|x: String| x@) =~= b@.map_values(|x: String| x@));
        true
    }
}

} // verus!
