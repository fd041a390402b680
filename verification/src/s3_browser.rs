//! S3 entries of the open-product browser: the configured buckets and the
//! prefixes one level below a prefix.
use vstd::prelude::*;

use crate::file_browser::{item_tuple, items_view, BrowserItem};
use crate::order::{sort_by_key, sorted_by_key, lemma_map_multiset};
use crate::text::{
    chars_concat, chars_rsplit_once, chars_trim_end_char, rsplit_once_char, seq_ends_with,
    str_chars, str_ends_with, str_starts_with, string_from_chars, trim_end_char,
};
use crate::zarr::location::{clone_string, format_s3_uri, spec_format_s3_uri};

verus! {

/// `child` under `base`: just `child` when `base` is empty.
pub open spec fn spec_join_prefix(base: Seq<char>, child: Seq<char>) -> Seq<char> {
    if base.len() == 0 {
        child
    } else {
        base + seq!['/'] + child
    }
}

/// `child` under `base`: just `child` when `base` is empty.
pub fn join_prefix(base: &str, child: &str) -> (r: String)
    ensures
        r@ == spec_join_prefix(base@, child@),
{
    if base.is_empty() {
        String::from_str(child)
    } else {
        let a = str_chars(base);
        let mut s: Vec<char> = Vec::new();
        s.push('/');
        let b = str_chars(child);
        let ab = chars_concat(&a, &s);
        let all = chars_concat(&ab, &b);
        string_from_chars(&all)
    }
}

/// The bucket list: one directory per bucket, located at `s3://bucket`,
/// sorted by name.
pub fn bucket_items(buckets: &Vec<String>) -> (r: Vec<BrowserItem>)
    ensures
        sorted_by_key(r@),
        items_view(r@).to_multiset() == Seq::new(
            buckets@.len(),
            |i: int| (buckets@[i]@, spec_format_s3_uri(buckets@[i]@, Seq::empty()), true, false),
        ).to_multiset(),
{
    let ghost want = Seq::new(
        buckets@.len(),
        |i: int| (buckets@[i]@, spec_format_s3_uri(buckets@[i]@, Seq::empty()), true, false),
    );
    let mut items: Vec<BrowserItem> = Vec::new();
    let mut i: usize = 0;
    while i < buckets.len()
        invariant
            i <= buckets.len(),
            want == Seq::new(
                buckets@.len(),
                |i: int| (buckets@[i]@, spec_format_s3_uri(buckets@[i]@, Seq::empty()), true, false),
            ),
            items_view(items@) == want.subrange(0, i as int),
        decreases buckets.len() - i,
    {
        let ghost before = items@;
        proof {
            reveal_strlit("");
        }
        items.push(
            BrowserItem::Directory {
                name: clone_string(&buckets[i]),
                location: format_s3_uri(buckets[i].as_str(), ""),
                zarr_product: false,
            },
        );
        assert(items_view(items@) =~= items_view(before).push(want[i as int]));
        assert(want.subrange(0, i + 1) =~= want.subrange(0, i as int).push(want[i as int]));
        i = i + 1;
    }
    assert(want.subrange(0, want.len() as int) =~= want);
    let ghost unsorted = items@;
    let sorted = sort_by_key(items);
    proof {
        lemma_map_multiset(sorted@, unsorted, |i: BrowserItem| item_tuple(i));
    }
    sorted
}

/// Name shown for a listed S3 prefix: its last segment.
pub open spec fn prefix_name(p: Seq<char>) -> Seq<char> {
    let t = trim_end_char(p, '/');
    match rsplit_once_char(t, '/') {
        Some((_, n)) => n,
        None => t,
    }
}

/// The entry for a listed child prefix, unless its name is empty or hidden.
pub open spec fn spec_prefix_item(bucket: Seq<char>, prefix: Seq<char>, child: Seq<char>) -> Option<
    (Seq<char>, Seq<char>, bool, bool),
> {
    let name = prefix_name(child);
    if name.len() == 0 || name[0] == '.' {
        None
    } else {
        Some(
            (
                name,
                spec_format_s3_uri(bucket, spec_join_prefix(prefix, name)),
                true,
                seq_ends_with(name, ".zarr"@),
            ),
        )
    }
}

pub open spec fn prefix_items_spec(bucket: Seq<char>, prefix: Seq<char>, children: Seq<String>) -> Seq<
    (Seq<char>, Seq<char>, bool, bool),
>
    decreases children.len(),
{
    if children.len() == 0 {
        Seq::empty()
    } else {
        let prev = prefix_items_spec(bucket, prefix, children.drop_last());
        match spec_prefix_item(bucket, prefix, children.last()@) {
            Some(t) => prev.push(t),
            None => prev,
        }
    }
}

/// The entries for the child prefixes listed under `prefix` in `bucket`:
/// one directory per child whose last segment is neither empty nor hidden,
/// `.zarr` products first, then by name.
pub fn prefix_items(bucket: &str, prefix: &str, children: &Vec<String>) -> (r: Vec<BrowserItem>)
    ensures
        sorted_by_key(r@),
        items_view(r@).to_multiset() == prefix_items_spec(bucket@, prefix@, children@).to_multiset(),
{
    let mut items: Vec<BrowserItem> = Vec::new();
    let mut i: usize = 0;
    while i < children.len()
        invariant
            i <= children.len(),
            items_view(items@) == prefix_items_spec(bucket@, prefix@, children@.subrange(0, i as int)),
        decreases children.len() - i,
    {
        let ghost pre = children@.subrange(0, i + 1);
        proof {
            assert(pre.drop_last() =~= children@.subrange(0, i as int));
            assert(pre.last() == children@[i as int]);
        }
        let c = str_chars(children[i].as_str());
        let t = chars_trim_end_char(&c, '/');
        let name_chars = match chars_rsplit_once(&t, '/') {
            Some((_, n)) => n,
            None => t,
        };
        if name_chars.len() > 0 && name_chars[0] != '.' {
            let name = string_from_chars(&name_chars);
            let child_prefix = join_prefix(prefix, name.as_str());
            let zarr = str_ends_with(name.as_str(), ".zarr");
            let location = format_s3_uri(bucket, child_prefix.as_str());
            let ghost before = items@;
            items.push(BrowserItem::Directory { name, location, zarr_product: zarr });
            assert(items_view(items@) =~= items_view(before).push(item_tuple(items@.last())));
        }
        i = i + 1;
    }
    assert(children@.subrange(0, children@.len() as int) =~= children@);
    let ghost unsorted = items@;
    let sorted = sort_by_key(items);
    proof {
        lemma_map_multiset(sorted@, unsorted, |i: BrowserItem| item_tuple(i));
    }
    sorted
}

} // verus!
