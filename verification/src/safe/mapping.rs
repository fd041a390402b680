//! Mapping SAFE NetCDF variables to hierarchy paths.
use vstd::prelude::*;

use crate::text::{
    chars_concat, chars_slice, chars_split_once, seq_starts_with, split_once_char, str_chars,
    str_starts_with, string_from_chars,
};
use crate::zarr::location::clone_string;
use crate::zarr::tree::{normalize_path, spec_normalize_path};

verus! {

/// NetCDF variable backing a hierarchy array leaf.
#[derive(Clone, Debug, PartialEq, Eq)]
pub struct ArraySource {
    /// Path of the NetCDF file inside the SAFE directory.
    pub nc_path: String,
    /// Variable name inside the NetCDF file.
    pub var_name: String,
}

/// Parsed Sentinel-3 product mapping (sentineltoolbox JSON format), each
/// table keyed by its first field, each key once.
#[derive(Clone, Debug)]
pub struct ProductMapping {
    /// EOPF product type code (e.g. `S03SLSLST`).
    pub product_type: String,
    /// Tree path → NetCDF source.
    pub arrays: Vec<(String, ArraySource)>,
    /// Suggested chunk sizes from mapping config (dimension name → size).
    pub chunk_sizes: Vec<(String, u64)>,
    /// Geolocation coord paths keyed by logical name (`latitude_in`, …).
    pub coord_paths: Vec<(String, String)>,
}

pub open spec fn coords_prefix() -> Seq<char> {
    "coords:"@
}

/// Tree path of a mapping target: `coords:name` lives under `/coords/`,
/// anything else is a hierarchy path made absolute.
pub open spec fn spec_target_path(target: Seq<char>) -> Seq<char> {
    if seq_starts_with(target, coords_prefix()) {
        "/coords/"@ + target.subrange(7, target.len() as int)
    } else {
        spec_normalize_path(target)
    }
}

/// A hierarchy path made absolute (`/` for empty).
pub fn normalize_tree_path(path: &str) -> (r: String)
    ensures
        r@ == spec_normalize_path(path@),
{
    normalize_path(path)
}

/// Tree path of a mapping target (see `spec_target_path`).
pub fn target_path(target: &str) -> (r: String)
    ensures
        r@ == spec_target_path(target@),
{
    proof {
        reveal_strlit("coords:");
    }
    if str_starts_with(target, "coords:") {
        let t = str_chars(target);
        let rest = chars_slice(&t, 7, t.len());
        let head = str_chars("/coords/");
        let all = chars_concat(&head, &rest);
        string_from_chars(&all)
    } else {
        normalize_path(target)
    }
}

/// `m` with `key` bound to `value`: replaced in place when present, else added.
pub open spec fn table_insert<V>(m: Seq<(Seq<char>, V)>, key: Seq<char>, value: V) -> Seq<(Seq<char>, V)> {
    if exists|i: int| 0 <= i < m.len() && m[i].0 == key {
        let i = choose|i: int| 0 <= i < m.len() && m[i].0 == key;
        m.update(i, (key, value))
    } else {
        m.push((key, value))
    }
}

pub open spec fn keys_unique<V>(m: Seq<(Seq<char>, V)>) -> bool {
    forall|i: int, j: int| 0 <= i < j < m.len() ==> m[i].0 != m[j].0
}

pub open spec fn source_view(s: ArraySource) -> (Seq<char>, Seq<char>) {
    (s.nc_path@, s.var_name@)
}

pub open spec fn arrays_view(m: Seq<(String, ArraySource)>) -> Seq<(Seq<char>, (Seq<char>, Seq<char>))> {
    m.map_values(|e: (String, ArraySource)| (e.0@, source_view(e.1)))
}

pub open spec fn coords_view(m: Seq<(String, String)>) -> Seq<(Seq<char>, Seq<char>)> {
    m.map_values(|e: (String, String)| (e.0@, e.1@))
}

/// The tables after the mapping entries `pairs` (source `file:variable`,
/// target), in order; a source without `:` is skipped.
pub open spec fn spec_mapping_tables(pairs: Seq<(String, String)>) -> (
    Seq<(Seq<char>, (Seq<char>, Seq<char>))>,
    Seq<(Seq<char>, Seq<char>)>,
)
    decreases pairs.len(),
{
    if pairs.len() == 0 {
        (Seq::empty(), Seq::empty())
    } else {
        let (arrays, coords) = spec_mapping_tables(pairs.drop_last());
        let (src, target) = pairs.last();
        match split_once_char(src@, ':') {
            None => (arrays, coords),
            Some((file, var)) => {
                let path = spec_target_path(target@);
                let coords2 = if seq_starts_with(target@, coords_prefix()) {
                    table_insert(coords, target@.subrange(7, target@.len() as int), path)
                } else {
                    coords
                };
                (table_insert(arrays, path, (file, var)), coords2)
            },
        }
    }
}

fn find_key<V>(m: &Vec<(String, V)>, key: &String) -> (r: Option<usize>)
    ensures
        match r {
            Some(i) => i < m@.len() && m@[i as int].0@ == key@,
            None => forall|i: int| 0 <= i < m@.len() ==> m@[i].0@ != key@,
        },
{
    let mut i: usize = 0;
    while i < m.len()
        invariant
            i <= m.len(),
            forall|j: int| 0 <= j < i ==> m@[j].0@ != key@,
        decreases m.len() - i,
    {
        if m[i].0 == *key {
            return Some(i);
        }
        i = i + 1;
    }
    None
}

proof fn lemma_unique_index<V>(m: Seq<(Seq<char>, V)>, key: Seq<char>, i: int)
    requires
        keys_unique(m),
        0 <= i < m.len(),
        m[i].0 == key,
    ensures
        (choose|k: int| 0 <= k < m.len() && m[k].0 == key) == i,
{
    let k = choose|k: int| 0 <= k < m.len() && m[k].0 == key;
    assert(0 <= k < m.len() && m[k].0 == key);
    if k != i {
        if k < i {
            assert(m[k].0 != m[i].0);
        } else {
            assert(m[i].0 != m[k].0);
        }
    }
}

fn arrays_insert(m: &mut Vec<(String, ArraySource)>, key: String, value: ArraySource)
    requires
        keys_unique(arrays_view(old(m)@)),
    ensures
        arrays_view(final(m)@) == table_insert(arrays_view(old(m)@), key@, source_view(value)),
        keys_unique(arrays_view(final(m)@)),
{
    let ghost mv = arrays_view(m@);
    match find_key(m, &key) {
        Some(i) => {
            proof {
                assert(mv[i as int].0 == key@);
                lemma_unique_index(mv, key@, i as int);
            }
            let ghost before = m@;
            m.set(i, (key, value));
            assert(arrays_view(m@) =~= mv.update(i as int, (key@, source_view(value))));
        },
        None => {
            proof {
                assert(!(exists|i: int| 0 <= i < mv.len() && mv[i].0 == key@)) by {
                    assert forall|i: int| 0 <= i < mv.len() implies mv[i].0 != key@ by {
                        assert(mv[i].0 == m@[i].0@);
                    }
                }
            }
            m.push((key, value));
            assert(arrays_view(m@) =~= mv.push((key@, source_view(value))));
        },
    }
}

fn coords_insert(m: &mut Vec<(String, String)>, key: String, value: String)
    requires
        keys_unique(coords_view(old(m)@)),
    ensures
        coords_view(final(m)@) == table_insert(coords_view(old(m)@), key@, value@),
        keys_unique(coords_view(final(m)@)),
{
    let ghost mv = coords_view(m@);
    match find_key(m, &key) {
        Some(i) => {
            proof {
                assert(mv[i as int].0 == key@);
                lemma_unique_index(mv, key@, i as int);
            }
            m.set(i, (key, value));
            assert(coords_view(m@) =~= mv.update(i as int, (key@, value@)));
        },
        None => {
            proof {
                assert(!(exists|i: int| 0 <= i < mv.len() && mv[i].0 == key@)) by {
                    assert forall|i: int| 0 <= i < mv.len() implies mv[i].0 != key@ by {
                        assert(mv[i].0 == m@[i].0@);
                    }
                }
            }
            m.push((key, value));
            assert(coords_view(m@) =~= mv.push((key@, value@)));
        },
    }
}

/// The mapping of a product type from its entries (in the order the mapping
/// file lists them) and its chunk sizes: each entry with a `file:variable`
/// source maps its target's tree path to that variable, and `coords:` targets
/// are also recorded by their coordinate name. A later entry for the same
/// path replaces an earlier one.
pub fn mapping_from_pairs(
    product_type: &str,
    pairs: &Vec<(String, String)>,
    chunk_sizes: Vec<(String, u64)>,
) -> (r: ProductMapping)
    ensures
        r.product_type@ == product_type@,
        (arrays_view(r.arrays@), coords_view(r.coord_paths@)) == spec_mapping_tables(pairs@),
        r.chunk_sizes@ == chunk_sizes@,
        keys_unique(arrays_view(r.arrays@)),
        keys_unique(coords_view(r.coord_paths@)),
{
    let mut arrays: Vec<(String, ArraySource)> = Vec::new();
    let mut coords: Vec<(String, String)> = Vec::new();
    let mut i: usize = 0;
    proof {
        reveal_strlit("coords:");
    }
    assert(arrays_view(arrays@) =~= Seq::<(Seq<char>, (Seq<char>, Seq<char>))>::empty());
    assert(coords_view(coords@) =~= Seq::<(Seq<char>, Seq<char>)>::empty());
    while i < pairs.len()
        invariant
            i <= pairs.len(),
            (arrays_view(arrays@), coords_view(coords@)) == spec_mapping_tables(
                pairs@.subrange(0, i as int),
            ),
            keys_unique(arrays_view(arrays@)),
            keys_unique(coords_view(coords@)),
        decreases pairs.len() - i,
    {
        let ghost pre = pairs@.subrange(0, i + 1);
        proof {
            assert(pre.drop_last() =~= pairs@.subrange(0, i as int));
            assert(pre.last() == pairs@[i as int]);
        }
        let src = str_chars(pairs[i].0.as_str());
        let target = pairs[i].1.as_str();
        match chars_split_once(&src, ':') {
            None => {},
            Some((file, var)) => {
                let path = target_path(target);
                if str_starts_with(target, "coords:") {
                    let t = str_chars(target);
                    proof {
                        reveal_strlit("coords:");
                        assert("coords:"@.len() == 7);
                        assert(t@.len() >= 7);
                    }
                    let name = chars_slice(&t, 7, t.len());
                    coords_insert(&mut coords, string_from_chars(&name), clone_string(&path));
                }
                let source = ArraySource { nc_path: string_from_chars(&file), var_name: string_from_chars(&var) };
                arrays_insert(&mut arrays, path, source);
            },
        }
        i = i + 1;
    }
    assert(pairs@.subrange(0, pairs@.len() as int) =~= pairs@);
    ProductMapping { product_type: String::from_str(product_type), arrays, chunk_sizes, coord_paths: coords }
}

/// What `serde_json::from_str::<HashMap<String, String>>` gives for a text:
/// the map of the JSON object's members (string keys to string values), or
/// `None` when the text is not such an object.
pub uninterp spec fn json_string_map_of(text: Seq<char>) -> Option<Map<Seq<char>, Seq<char>>>;

/// The pairs list the map `m`: each key once, every key of `m` among them,
/// each with its value in `m`.
pub open spec fn pairs_are_map(v: Seq<(String, String)>, m: Map<Seq<char>, Seq<char>>) -> bool {
    &&& forall|i: int, j: int| 0 <= i < j < v.len() ==> (#[trigger] v[i]).0@ != (#[trigger] v[j]).0@
    &&& forall|k: Seq<char>| m.dom().contains(k) <==> exists|i: int| 0 <= i < v.len() && (#[trigger] v[i]).0@ == k
    &&& forall|i: int| 0 <= i < v.len() ==> m.dom().contains((#[trigger] v[i]).0@) && m[v[i].0@] == v[i].1@
}

/// `serde_json::from_str` of a text into a `HashMap<String, String>`, its
/// entries listed in the order the map hands them out (which the map's
/// hashing decides, so no order is promised). `None` when the text is not a
/// JSON object whose values are all strings.
#[verifier::external_body]
fn parse_string_map(text: &str) -> (r: Option<Vec<(String, String)>>)
    ensures
        r is Some <==> json_string_map_of(text@) is Some,
        r matches Some(v) ==> pairs_are_map(v@, json_string_map_of(text@)->0),
{
    serde_json::from_str::<std::collections::HashMap<String, String>>(text).ok().map(|m| m.into_iter().collect())
}

/// The mapping of a product type from the text of its mapping file (a JSON
/// object from `file:variable` sources to targets) and its chunk sizes:
/// `None` when the text does not parse; else the tables that
/// `mapping_from_pairs` builds from the file's entries, taken in some order
/// (the order of a hash map, so when two entries give the same tree path,
/// which one wins is not fixed).
pub fn mapping_from_json(product_type: &str, map_json: &str, chunk_sizes: Vec<(String, u64)>) -> (r: Option<
    ProductMapping,
>)
    ensures
        r is None <==> json_string_map_of(map_json@) is None,
        r matches Some(m) ==> {
            &&& m.product_type@ == product_type@
            &&& m.chunk_sizes@ == chunk_sizes@
            &&& keys_unique(arrays_view(m.arrays@))
            &&& keys_unique(coords_view(m.coord_paths@))
            &&& exists|pairs: Seq<(String, String)>|
                pairs_are_map(pairs, json_string_map_of(map_json@)->0) && (arrays_view(m.arrays@), coords_view(
                    m.coord_paths@,
                )) == spec_mapping_tables(pairs)
        },
{
    match parse_string_map(map_json) {
        None => None,
        Some(pairs) => {
            let m = mapping_from_pairs(product_type, &pairs, chunk_sizes);
            proof {
                assert(pairs_are_map(pairs@, json_string_map_of(map_json@)->0));
            }
            Some(m)
        },
    }
}

} // verus!
