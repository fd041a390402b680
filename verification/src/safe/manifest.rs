//! Reading fields out of a SAFE manifest's text.
use vstd::prelude::*;

use crate::text::{
    chars_concat, chars_find_sub, chars_slice, chars_trim, contains_sub, find_sub, lemma_find_sub,
    str_chars, str_contains, string_from_chars, trim_ws,
};

verus! {

/// The short product type that a manifest describes, from its wording.
pub open spec fn spec_infer_product_type(content: Seq<char>) -> Option<Seq<char>> {
    if contains_sub(content, "SLSTR Level 2 Land"@) || contains_sub(content, "SL_2_LST"@) {
        Some("SLSLST"@)
    } else if contains_sub(content, "SLSTR Level 1"@) {
        Some("SLSRBT"@)
    } else if contains_sub(content, "OLCI Level 1"@) {
        Some("OLCEFR"@)
    } else {
        None
    }
}

/// The short product type that a manifest describes, from its wording.
pub fn infer_product_type_from_manifest(content: &str) -> (r: Option<String>)
    ensures
        match spec_infer_product_type(content@) {
            Some(t) => r matches Some(s) && s@ == t,
            None => r is None,
        },
{
    if str_contains(content, "SLSTR Level 2 Land") || str_contains(content, "SL_2_LST") {
        return Some(String::from_str("SLSLST"));
    }
    if str_contains(content, "SLSTR Level 1") {
        return Some(String::from_str("SLSRBT"));
    }
    if str_contains(content, "OLCI Level 1") {
        return Some(String::from_str("OLCEFR"));
    }
    None
}

/// The trimmed text between the first `<tag>` and the first `</tag>` after
/// it, when there is such text and it is not blank.
pub open spec fn spec_tag_text(content: Seq<char>, tag: Seq<char>) -> Option<Seq<char>> {
    let open_tag = seq!['<'] + tag + seq!['>'];
    let close_tag = seq!['<', '/'] + tag + seq!['>'];
    match find_sub(content, open_tag) {
        None => None,
        Some(i) => {
            let olen = open_tag.len();
    let clen = content.len();
    let start = i + olen;
            let rest = content.subrange(start, content.len() as int);
            match find_sub(rest, close_tag) {
                None => None,
                Some(j) => {
                    let text = trim_ws(rest.subrange(0, j));
                    if text.len() == 0 {
                        None
                    } else {
                        Some(text)
                    }
                },
            }
        },
    }
}

fn tag_text_chars(content: &[char], tag: &[char]) -> (r: Option<Vec<char>>)
    ensures
        match spec_tag_text(content@, tag@) {
            Some(t) => r matches Some(v) && v@ == t,
            None => r is None,
        },
{
    let mut lt: Vec<char> = Vec::new();
    lt.push('<');
    let mut gt: Vec<char> = Vec::new();
    gt.push('>');
    let mut lts: Vec<char> = Vec::new();
    lts.push('<');
    lts.push('/');
    let o1 = chars_concat(&lt, tag);
    let open_tag = chars_concat(&o1, &gt);
    let c1 = chars_concat(&lts, tag);
    let close_tag = chars_concat(&c1, &gt);
    assert(open_tag@ =~= seq!['<'] + tag@ + seq!['>']);
    assert(close_tag@ =~= seq!['<', '/'] + tag@ + seq!['>']);
    let i = match chars_find_sub(content, &open_tag) {
        Some(i) => i,
        None => return None,
    };
    proof {
        lemma_find_sub(content@, open_tag@);
        assert(crate::text::matches_at(content@, open_tag@, i as int));
        assert(i + open_tag@.len() <= content@.len());
        assert(open_tag@.len() == open_tag.len());
    }
    let olen = open_tag.len();
    let clen = content.len();
    let start = i + olen;
    let rest = chars_slice(content, start, content.len());
    let j = match chars_find_sub(&rest, &close_tag) {
        Some(j) => j,
        None => return None,
    };
    proof {
        lemma_find_sub(rest@, close_tag@);
    }
    let inner = chars_slice(&rest, 0, j);
    let text = chars_trim(&inner);
    if text.len() == 0 {
        None
    } else {
        Some(text)
    }
}

/// The trimmed, non-blank text of the first `<tag>…</tag>` element.
pub fn extract_tag_text(content: &str, tag: &str) -> (r: Option<String>)
    ensures
        match spec_tag_text(content@, tag@) {
            Some(t) => r matches Some(s) && s@ == t,
            None => r is None,
        },
{
    let c = str_chars(content);
    let t = str_chars(tag);
    match tag_text_chars(&c, &t) {
        Some(v) => Some(string_from_chars(&v)),
        None => None,
    }
}

/// The text of the first `<inner>` element after the first `<outer`.
pub open spec fn spec_nested_text(content: Seq<char>, outer: Seq<char>, inner: Seq<char>) -> Option<
    Seq<char>,
> {
    match find_sub(content, seq!['<'] + outer) {
        None => None,
        Some(i) => spec_tag_text(content.subrange(i, content.len() as int), inner),
    }
}

/// The text of the first `<inner>` element after the first `<outer`.
pub fn extract_nested_text(content: &str, outer: &str, inner: &str) -> (r: Option<String>)
    ensures
        match spec_nested_text(content@, outer@, inner@) {
            Some(t) => r matches Some(s) && s@ == t,
            None => r is None,
        },
{
    let c = str_chars(content);
    let o = str_chars(outer);
    let mut lt: Vec<char> = Vec::new();
    lt.push('<');
    let outer_open = chars_concat(&lt, &o);
    assert(outer_open@ =~= seq!['<'] + outer@);
    let start = match chars_find_sub(&c, &outer_open) {
        Some(i) => i,
        None => return None,
    };
    proof {
        lemma_find_sub(c@, outer_open@);
    }
    let slice = chars_slice(&c, start, c.len());
    let t = str_chars(inner);
    match tag_text_chars(&slice, &t) {
        Some(v) => Some(string_from_chars(&v)),
        None => None,
    }
}

} // verus!
