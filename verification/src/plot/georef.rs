//! Naming facts used when coordinates are looked up for an array.
use vstd::prelude::*;

use crate::json::{as_str, member_get, obj_get, spec_as_str, JsonValue};
use crate::json_text::{json_compact, json_compact_text};
use crate::text::{chars_rfind, chars_slice, chars_trim_end_char, rfind_char, str_chars, string_from_chars, trim_end_char};
use crate::zarr::location::clone_string;

verus! {

/// The group that holds an array: its path without trailing `/` and
/// without its final component; `/` at the top.
pub open spec fn spec_parent_path(p: Seq<char>) -> Seq<char> {
    let t = trim_end_char(p, '/');
    match rfind_char(t, '/') {
        Some(i) => if i == 0 {
            "/"@
        } else {
            t.subrange(0, i)
        },
        None => "/"@,
    }
}

pub fn parent_path(array_path: &str) -> (r: String)
    ensures
        r@ == spec_parent_path(array_path@),
{
    let cs = str_chars(array_path);
    let t = chars_trim_end_char(&cs, '/');
    match chars_rfind(&t, '/') {
        Some(i) => {
            if i == 0 {
                String::from_str("/")
            } else {
                proof {
                    crate::text::lemma_rfind_char(t@, '/');
                }
                let head = chars_slice(&t, 0, i);
                string_from_chars(&head)
            }
        },
        None => String::from_str("/"),
    }
}

/// The coordinate reference of an array: the first of `crs`, `_CRS`,
/// `spatial_ref`, `grid_mapping`, `epsg` that it has (a string as it is,
/// another value as JSON text); else its `grid_mapping_name` when that is a
/// string.
pub open spec fn spec_extract_crs(attrs: Seq<(String, JsonValue)>) -> Option<Seq<char>> {
    let keys = seq!["crs"@, "_CRS"@, "spatial_ref"@, "grid_mapping"@, "epsg"@];
    crs_from(attrs, keys, 0)
}

pub open spec fn crs_text(v: JsonValue) -> Seq<char> {
    match v {
        JsonValue::Str(s) => s@,
        _ => json_compact(v),
    }
}

/// The first of `keys[k..]` present in `attrs`, else `grid_mapping_name`.
pub open spec fn crs_from(attrs: Seq<(String, JsonValue)>, keys: Seq<Seq<char>>, k: int) -> Option<Seq<char>>
    decreases keys.len() - k,
{
    if k < 0 || k >= keys.len() {
        match member_get(attrs, "grid_mapping_name"@) {
            Some(v) => spec_as_str(v),
            None => None,
        }
    } else {
        match member_get(attrs, keys[k]) {
            Some(v) => Some(crs_text(v)),
            None => crs_from(attrs, keys, k + 1),
        }
    }
}

pub fn extract_crs(attributes: &Vec<(String, JsonValue)>) -> (r: Option<String>)
    ensures
        match spec_extract_crs(attributes@) {
            Some(t) => r matches Some(x) && x@ == t,
            None => r is None,
        },
{
    let ghost keys = seq!["crs"@, "_CRS"@, "spatial_ref"@, "grid_mapping"@, "epsg"@];
    let names = ["crs", "_CRS", "spatial_ref", "grid_mapping", "epsg"];
    let mut k: usize = 0;
    while k < 5
        invariant
            k <= 5,
            names@.len() == 5,
            keys == seq!["crs"@, "_CRS"@, "spatial_ref"@, "grid_mapping"@, "epsg"@],
            forall|j: int| 0 <= j < 5 ==> names@[j]@ == #[trigger] keys[j],
            spec_extract_crs(attributes@) == crs_from(attributes@, keys, k as int),
        decreases 5 - k,
    {
        match obj_get(attributes, names[k]) {
            Some(v) => {
                return Some(
                    match v {
                        JsonValue::Str(s) => clone_string(s),
                        _ => json_compact_text(v),
                    },
                );
            },
            None => {},
        }
        k = k + 1;
    }
    match obj_get(attributes, "grid_mapping_name") {
        Some(v) => match as_str(v) {
            Some(s) => Some(s.to_string()),
            None => None,
        },
        None => None,
    }
}

/// `key` is the name of no member of `attrs`.
pub open spec fn absent(attrs: Seq<(String, JsonValue)>, key: Seq<char>) -> bool {
    forall|j: int| 0 <= j < attrs.len() ==> (#[trigger] attrs[j]).0@ != key
}

proof fn lemma_member_get_first(attrs: Seq<(String, JsonValue)>, key: Seq<char>, i: int)
    requires
        0 <= i < attrs.len(),
        attrs[i].0@ == key,
        forall|j: int| 0 <= j < i ==> (#[trigger] attrs[j]).0@ != key,
    ensures
        member_get(attrs, key) == Some(attrs[i].1),
    decreases i,
{
    if i > 0 {
        assert forall|j: int| 0 <= j < i - 1 implies (#[trigger] attrs.drop_first()[j]).0@ != key by {
            assert(attrs.drop_first()[j] == attrs[j + 1]);
        }
        lemma_member_get_first(attrs.drop_first(), key, i - 1);
    }
}

proof fn lemma_member_get_absent(attrs: Seq<(String, JsonValue)>, key: Seq<char>)
    requires
        absent(attrs, key),
    ensures
        member_get(attrs, key) is None,
    decreases attrs.len(),
{
    if attrs.len() > 0 {
        assert forall|j: int| 0 <= j < attrs.drop_first().len() implies (#[trigger] attrs.drop_first()[j]).0@
            != key by {
            assert(attrs.drop_first()[j] == attrs[j + 1]);
        }
        lemma_member_get_absent(attrs.drop_first(), key);
    }
}

/// An array whose attributes name its CRS under `crs` with a string value
/// has that string as its CRS, whatever else its attributes hold.
pub proof fn lemma_crs_attribute(attrs: Seq<(String, JsonValue)>, i: int, s: String)
    requires
        0 <= i < attrs.len(),
        attrs[i].0@ == "crs"@,
        attrs[i].1 == JsonValue::Str(s),
        forall|j: int| 0 <= j < i ==> (#[trigger] attrs[j]).0@ != "crs"@,
    ensures
        spec_extract_crs(attrs) == Some(s@),
{
    lemma_member_get_first(attrs, "crs"@, i);
}

/// Without `crs`, the next of `_CRS`, `spatial_ref`, `grid_mapping`, `epsg`
/// that is present gives the CRS; without any of them, a string
/// `grid_mapping_name` does; else there is none.
pub proof fn lemma_crs_fallbacks(attrs: Seq<(String, JsonValue)>)
    requires
        absent(attrs, "crs"@),
    ensures
        !absent(attrs, "_CRS"@) ==> spec_extract_crs(attrs) is Some,
        absent(attrs, "_CRS"@) && absent(attrs, "spatial_ref"@) && absent(attrs, "grid_mapping"@)
            && absent(attrs, "epsg"@) ==> spec_extract_crs(attrs) == match member_get(
            attrs,
            "grid_mapping_name"@,
        ) {
            Some(JsonValue::Str(t)) => Some(t@),
            _ => None,
        },
{
    lemma_member_get_absent(attrs, "crs"@);
    let keys = seq!["crs"@, "_CRS"@, "spatial_ref"@, "grid_mapping"@, "epsg"@];
    assert(keys[0] == "crs"@);
    if !absent(attrs, "_CRS"@) {
        let i = choose|j: int| 0 <= j < attrs.len() && attrs[j].0@ == "_CRS"@;
        lemma_member_get_present(attrs, "_CRS"@, i);
        assert(keys[1] == "_CRS"@);
        assert(crs_from(attrs, keys, 1) is Some);
        assert(crs_from(attrs, keys, 0) == crs_from(attrs, keys, 1));
    }
    if absent(attrs, "_CRS"@) && absent(attrs, "spatial_ref"@) && absent(attrs, "grid_mapping"@)
        && absent(attrs, "epsg"@) {
        lemma_member_get_absent(attrs, "_CRS"@);
        lemma_member_get_absent(attrs, "spatial_ref"@);
        lemma_member_get_absent(attrs, "grid_mapping"@);
        lemma_member_get_absent(attrs, "epsg"@);
        assert(keys[1] == "_CRS"@ && keys[2] == "spatial_ref"@ && keys[3] == "grid_mapping"@ && keys[4]
            == "epsg"@);
        assert(crs_from(attrs, keys, 4) == crs_from(attrs, keys, 5));
        assert(crs_from(attrs, keys, 3) == crs_from(attrs, keys, 4));
        assert(crs_from(attrs, keys, 2) == crs_from(attrs, keys, 3));
        assert(crs_from(attrs, keys, 1) == crs_from(attrs, keys, 2));
        assert(crs_from(attrs, keys, 0) == crs_from(attrs, keys, 1));
    }
}

proof fn lemma_member_get_present(attrs: Seq<(String, JsonValue)>, key: Seq<char>, i: int)
    requires
        0 <= i < attrs.len(),
        attrs[i].0@ == key,
    ensures
        member_get(attrs, key) is Some,
    decreases i,
{
    if attrs[0].0@ != key {
        assert(attrs.drop_first()[i - 1] == attrs[i]);
        lemma_member_get_present(attrs.drop_first(), key, i - 1);
    }
}

} // verus!
