//! What `s3.conf` writing and reading promise together: a file written for a
//! list of bucket entries reads back as the same list.
use vstd::prelude::*;

use super::creds::{
    ini_finish, ini_fold, ini_init, ini_step, section_get, spec_entries_from_sections,
    spec_entry_from_section, spec_format_bucket_entries, spec_format_bucket_entry,
    spec_parse_ini, EntryView, IniState, SectionView,
};
use crate::text::{
    find_char, is_ws, lemma_find_char_unique, lemma_lead_char, lemma_split_concat,
    lemma_split_none, lemma_trail_char, lemma_trim_exact, split_char, split_once_char,
    trim_end_char, trim_start_char, trim_ws,
};

verus! {

/// No line break in `s`.
pub open spec fn no_newline(s: Seq<char>) -> bool {
    forall|j: int| 0 <= j < s.len() ==> s[j] != '\n'
}

/// A value that a `key = value` line keeps as it is: no line break and no
/// whitespace at either end.
pub open spec fn clean_field(f: Seq<char>) -> bool {
    &&& no_newline(f)
    &&& f.len() > 0 ==> !is_ws(f[0]) && !is_ws(f.last())
}

/// An entry whose section reads back unchanged: clean fields, and a bucket
/// name that neither starts with `[` nor ends with `]`.
pub open spec fn clean_entry(e: EntryView) -> bool {
    &&& clean_field(e.bucket)
    &&& clean_field(e.access_key_id)
    &&& clean_field(e.secret_access_key)
    &&& clean_field(e.region)
    &&& clean_field(e.endpoint)
    &&& e.bucket.len() > 0 ==> e.bucket[0] != '[' && e.bucket.last() != ']'
}

/// Lines joined with `\n` between them.
pub open spec fn join_lines(ls: Seq<Seq<char>>) -> Seq<char>
    decreases ls.len(),
{
    if ls.len() == 0 {
        Seq::empty()
    } else if ls.len() == 1 {
        ls[0]
    } else {
        join_lines(ls.drop_last()) + seq!['\n'] + ls.last()
    }
}

pub open spec fn kv_line(key: Seq<char>, v: Seq<char>) -> Seq<char> {
    key + " = "@ + v
}

pub open spec fn header_line(name: Seq<char>) -> Seq<char> {
    "["@ + name + "]"@
}

/// The six lines of one bucket section.
pub open spec fn entry_lines(e: EntryView) -> Seq<Seq<char>> {
    seq![
        header_line(e.bucket),
        kv_line("type"@, "s3"@),
        kv_line("access_key_id"@, e.access_key_id),
        kv_line("secret_access_key"@, e.secret_access_key),
        kv_line("region"@, e.region),
        kv_line("endpoint"@, e.endpoint),
    ]
}

pub open spec fn all_lines(es: Seq<EntryView>) -> Seq<Seq<char>>
    decreases es.len(),
{
    if es.len() == 0 {
        Seq::empty()
    } else {
        all_lines(es.drop_last()) + entry_lines(es.last())
    }
}

/// The section that the lines of an entry read as.
pub open spec fn entry_section(e: EntryView) -> SectionView {
    SectionView {
        name: e.bucket,
        entries: seq![
            ("type"@, "s3"@),
            ("access_key_id"@, e.access_key_id),
            ("secret_access_key"@, e.secret_access_key),
            ("region"@, e.region),
            ("endpoint"@, e.endpoint),
        ],
    }
}

/// A key that a `key = value` line reads back: non-empty, no whitespace, no
/// `=`, and not starting like a comment or a header.
pub open spec fn plain_key(k: Seq<char>) -> bool {
    &&& k.len() > 0
    &&& forall|j: int| 0 <= j < k.len() ==> !is_ws(#[trigger] k[j]) && k[j] != '='
    &&& k[0] != '#' && k[0] != ';' && k[0] != '['
}

proof fn lemma_split_join(ls: Seq<Seq<char>>)
    requires
        ls.len() >= 1,
        forall|i: int| 0 <= i < ls.len() ==> no_newline(#[trigger] ls[i]),
    ensures
        split_char(join_lines(ls), '\n') == ls,
    decreases ls.len(),
{
    if ls.len() == 1 {
        lemma_split_none(ls[0], '\n');
        assert(seq![ls[0]] =~= ls);
    } else {
        let d = ls.drop_last();
        assert forall|i: int| 0 <= i < d.len() implies no_newline(#[trigger] d[i]) by {
            assert(d[i] == ls[i]);
        }
        lemma_split_join(d);
        lemma_split_concat(join_lines(d), ls.last(), '\n');
        assert(no_newline(ls[ls.len() - 1]));
        lemma_split_none(ls.last(), '\n');
        assert(d + seq![ls.last()] =~= ls);
    }
}

proof fn lemma_join_append(a: Seq<Seq<char>>, b: Seq<Seq<char>>)
    requires
        a.len() >= 1,
        b.len() >= 1,
    ensures
        join_lines(a + b) == join_lines(a) + seq!['\n'] + join_lines(b),
    decreases b.len(),
{
    let ab = a + b;
    if b.len() == 1 {
        assert(ab.drop_last() =~= a);
        assert(ab.last() == b[0]);
    } else {
        lemma_join_append(a, b.drop_last());
        assert(ab.drop_last() =~= a + b.drop_last());
        assert(ab.last() == b.last());
        assert(join_lines(ab) =~= join_lines(a) + seq!['\n'] + join_lines(b));
    }
}

proof fn lemma_entry_text(e: EntryView)
    ensures
        spec_format_bucket_entry(e) == join_lines(entry_lines(e)),
{
    reveal_strlit("[");
    reveal_strlit("]");
    reveal_strlit(" = ");
    reveal_strlit("type");
    reveal_strlit("s3");
    reveal_strlit("access_key_id");
    reveal_strlit("secret_access_key");
    reveal_strlit("region");
    reveal_strlit("endpoint");
    reveal_strlit("]\ntype = s3\naccess_key_id = ");
    reveal_strlit("\nsecret_access_key = ");
    reveal_strlit("\nregion = ");
    reveal_strlit("\nendpoint = ");
    let ls = entry_lines(e);
    assert(ls.drop_last().drop_last().drop_last().drop_last().drop_last() =~= seq![ls[0]]);
    assert(ls.drop_last().drop_last().drop_last().drop_last().last() == ls[1]);
    assert(ls.drop_last().drop_last().drop_last().last() == ls[2]);
    assert(ls.drop_last().drop_last().last() == ls[3]);
    assert(ls.drop_last().last() == ls[4]);
    assert(ls.last() == ls[5]);
    reveal_with_fuel(join_lines, 6);
    assert(spec_format_bucket_entry(e) =~= join_lines(ls));
}

proof fn lemma_lines_clean(e: EntryView)
    requires
        clean_entry(e),
    ensures
        forall|i: int| 0 <= i < entry_lines(e).len() ==> no_newline(#[trigger] entry_lines(e)[i]),
{
    reveal_strlit("[");
    reveal_strlit("]");
    reveal_strlit(" = ");
    reveal_strlit("type");
    reveal_strlit("s3");
    reveal_strlit("access_key_id");
    reveal_strlit("secret_access_key");
    reveal_strlit("region");
    reveal_strlit("endpoint");
    let ls = entry_lines(e);
    assert forall|i: int| 0 <= i < ls.len() implies no_newline(#[trigger] ls[i]) by {
        let l = ls[i];
        assert forall|j: int| 0 <= j < l.len() implies l[j] != '\n' by {
            if i == 0 {
                if 1 <= j < 1 + e.bucket.len() {
                    assert(l[j] == e.bucket[j - 1]);
                }
            } else if i >= 2 {
                let k = if i == 2 {
                    "access_key_id"@
                } else if i == 3 {
                    "secret_access_key"@
                } else if i == 4 {
                    "region"@
                } else {
                    "endpoint"@
                };
                let v = if i == 2 {
                    e.access_key_id
                } else if i == 3 {
                    e.secret_access_key
                } else if i == 4 {
                    e.region
                } else {
                    e.endpoint
                };
                assert(l == k + " = "@ + v);
                if j >= k.len() + 3 {
                    assert(l[j] == v[j - k.len() - 3]);
                }
            }
        }
    }
}

proof fn lemma_all_lines(es: Seq<EntryView>)
    requires
        es.len() >= 1,
        forall|i: int| 0 <= i < es.len() ==> clean_entry(#[trigger] es[i]),
    ensures
        spec_format_bucket_entries(es) == join_lines(all_lines(es)),
        all_lines(es).len() >= 1,
        forall|i: int| 0 <= i < all_lines(es).len() ==> no_newline(#[trigger] all_lines(es)[i]),
    decreases es.len(),
{
    let d = es.drop_last();
    let last = es.last();
    assert(clean_entry(es[es.len() - 1]));
    lemma_entry_text(last);
    lemma_lines_clean(last);
    if es.len() == 1 {
        assert(all_lines(d).len() == 0);
        assert(all_lines(es) =~= entry_lines(last));
    } else {
        assert forall|i: int| 0 <= i < d.len() implies clean_entry(#[trigger] d[i]) by {
            assert(d[i] == es[i]);
        }
        lemma_all_lines(d);
        lemma_join_append(all_lines(d), entry_lines(last));
        let all = all_lines(es);
        assert forall|i: int| 0 <= i < all.len() implies no_newline(#[trigger] all[i]) by {
            if i < all_lines(d).len() {
                assert(all[i] == all_lines(d)[i]);
            } else {
                assert(all[i] == entry_lines(last)[i - all_lines(d).len()]);
            }
        }
    }
}

proof fn lemma_fold_append(st: IniState, a: Seq<Seq<char>>, b: Seq<Seq<char>>)
    ensures
        ini_fold(st, a + b) == ini_fold(ini_fold(st, a), b),
    decreases b.len(),
{
    if b.len() == 0 {
        assert(a + b =~= a);
    } else {
        lemma_fold_append(st, a, b.drop_last());
        assert((a + b).drop_last() =~= a + b.drop_last());
        assert((a + b).last() == b.last());
    }
}

proof fn lemma_fold_prefix(st: IniState, ls: Seq<Seq<char>>, n: int)
    requires
        0 <= n < ls.len(),
    ensures
        ini_fold(st, ls.subrange(0, n + 1)) == ini_step(ini_fold(st, ls.subrange(0, n)), ls[n]),
{
    assert(ls.subrange(0, n + 1).drop_last() =~= ls.subrange(0, n));
}

proof fn lemma_step_header(st: IniState, b: Seq<char>)
    requires
        clean_field(b),
        b.len() > 0 ==> b[0] != '[' && b.last() != ']',
    ensures
        ini_step(st, header_line(b)) == (IniState {
            sections: ini_finish(st),
            current: Some(SectionView { name: b, entries: Seq::empty() }),
        }),
{
    reveal_strlit("[");
    reveal_strlit("]");
    let h = header_line(b);
    assert(h[0] == '[');
    assert(h[h.len() - 1] == ']');
    lemma_trim_exact(h, 0, h.len() as int);
    assert(h.subrange(0, h.len() as int) =~= h);
    assert(trim_ws(h) == h);
    let t = h.subrange(1, h.len() as int);
    assert(t =~= b + "]"@);
    assert(t[0] != '[') by {
        if b.len() > 0 {
            assert(t[0] == b[0]);
        } else {
            assert(t[0] == ']');
        }
    }
    lemma_lead_char(h, '[', 1);
    assert(trim_start_char(h, '[') == t);
    lemma_trail_char(t, ']', 1);
    let u = t.subrange(0, t.len() - 1);
    assert(u =~= b);
    assert(trim_end_char(t, ']') == u);
    lemma_trim_exact(b, 0, b.len() as int);
    assert(b.subrange(0, b.len() as int) =~= b);
}

proof fn lemma_step_kv(st: IniState, k: Seq<char>, v: Seq<char>)
    requires
        plain_key(k),
        clean_field(v),
        st.current is Some,
    ensures
        ini_step(st, kv_line(k, v)) == (IniState {
            sections: st.sections,
            current: Some(
                SectionView {
                    name: st.current->0.name,
                    entries: st.current->0.entries.push((k, v)),
                },
            ),
        }),
{
    reveal_strlit(" = ");
    let n = k.len() as int;
    let l = kv_line(k, v);
    assert(l[n] == ' ');
    assert(l[n + 1] == '=');
    assert(l[n + 2] == ' ');
    assert forall|j: int| 0 <= j < n implies l[j] == k[j] by {}
    assert forall|j: int| 0 <= j < v.len() implies l[n + 3 + j] == v[j] by {}
    let e = if v.len() > 0 {
        l.len() as int
    } else {
        n + 2
    };
    assert(!is_ws(k[0]));
    if v.len() > 0 {
        assert(l[e - 1] == v[v.len() - 1]);
    }
    lemma_trim_exact(l, 0, e);
    let line = l.subrange(0, e);
    assert(trim_ws(l) == line);
    assert(line[0] == k[0]);
    assert forall|j: int| 0 <= j < n + 1 implies line[j] != '=' by {
        if j < n {
            assert(line[j] == k[j]);
        }
    }
    lemma_find_char_unique(line, '=', n + 1);
    assert(find_char(line, '=') == Some(n + 1));
    let kp = line.subrange(0, n + 1);
    let vp = line.subrange(n + 2, e);
    assert(split_once_char(line, '=') == Some((kp, vp)));
    assert(kp[n] == ' ');
    assert forall|j: int| 0 <= j < n implies kp[j] == k[j] by {}
    lemma_trim_exact(kp, 0, n);
    assert(kp.subrange(0, n) =~= k);
    if v.len() > 0 {
        assert(vp[0] == ' ');
        assert forall|j: int| 0 <= j < v.len() implies vp[1 + j] == v[j] by {}
        lemma_trim_exact(vp, 1, vp.len() as int);
        assert(vp.subrange(1, vp.len() as int) =~= v);
    } else {
        assert(vp.len() == 0);
        lemma_trim_exact(vp, 0, 0);
        assert(vp.subrange(0, 0) =~= v);
    }
}

proof fn lemma_fold_entry(st: IniState, e: EntryView)
    requires
        clean_entry(e),
    ensures
        ini_fold(st, entry_lines(e)) == (IniState {
            sections: ini_finish(st),
            current: Some(entry_section(e)),
        }),
{
    reveal_strlit("type");
    reveal_strlit("s3");
    reveal_strlit("access_key_id");
    reveal_strlit("secret_access_key");
    reveal_strlit("region");
    reveal_strlit("endpoint");
    let ls = entry_lines(e);
    assert(plain_key("type"@));
    assert(plain_key("access_key_id"@));
    assert(plain_key("secret_access_key"@));
    assert(plain_key("region"@));
    assert(plain_key("endpoint"@));
    assert(clean_field("s3"@));
    let s0 = ini_fold(st, ls.subrange(0, 0));
    assert(s0 == st);
    lemma_fold_prefix(st, ls, 0);
    lemma_step_header(st, e.bucket);
    let s1 = ini_fold(st, ls.subrange(0, 1));
    lemma_fold_prefix(st, ls, 1);
    lemma_step_kv(s1, "type"@, "s3"@);
    let s2 = ini_fold(st, ls.subrange(0, 2));
    lemma_fold_prefix(st, ls, 2);
    lemma_step_kv(s2, "access_key_id"@, e.access_key_id);
    let s3 = ini_fold(st, ls.subrange(0, 3));
    lemma_fold_prefix(st, ls, 3);
    lemma_step_kv(s3, "secret_access_key"@, e.secret_access_key);
    let s4 = ini_fold(st, ls.subrange(0, 4));
    lemma_fold_prefix(st, ls, 4);
    lemma_step_kv(s4, "region"@, e.region);
    let s5 = ini_fold(st, ls.subrange(0, 5));
    lemma_fold_prefix(st, ls, 5);
    lemma_step_kv(s5, "endpoint"@, e.endpoint);
    assert(ls.subrange(0, 6) =~= ls);
    let s6 = ini_fold(st, ls);
    assert(s6.current->0.entries =~= entry_section(e).entries);
}

proof fn lemma_fold_all(es: Seq<EntryView>)
    requires
        es.len() >= 1,
        forall|i: int| 0 <= i < es.len() ==> clean_entry(#[trigger] es[i]),
    ensures
        ini_fold(ini_init(), all_lines(es)) == (IniState {
            sections: es.drop_last().map_values(|x: EntryView| entry_section(x)),
            current: Some(entry_section(es.last())),
        }),
    decreases es.len(),
{
    let d = es.drop_last();
    assert(clean_entry(es[es.len() - 1]));
    lemma_fold_append(ini_init(), all_lines(d), entry_lines(es.last()));
    if es.len() == 1 {
        assert(all_lines(d).len() == 0);
        lemma_fold_entry(ini_init(), es.last());
        assert(d.map_values(|x: EntryView| entry_section(x)) =~= Seq::<SectionView>::empty());
    } else {
        assert forall|i: int| 0 <= i < d.len() implies clean_entry(#[trigger] d[i]) by {
            assert(d[i] == es[i]);
        }
        lemma_fold_all(d);
        let mid = ini_fold(ini_init(), all_lines(d));
        lemma_fold_entry(mid, es.last());
        assert(ini_finish(mid) =~= d.map_values(|x: EntryView| entry_section(x)));
    }
}

proof fn lemma_section_reads_back(e: EntryView, path: Seq<char>)
    ensures
        spec_entry_from_section(entry_section(e), path) == Ok::<EntryView, Seq<char>>(e),
{
    reveal_strlit("type");
    reveal_strlit("access_key_id");
    reveal_strlit("secret_access_key");
    reveal_strlit("region");
    reveal_strlit("endpoint");
    let en = entry_section(e).entries;
    assert(en.drop_first()[0] == en[1]);
    assert(en.drop_first().drop_first()[0] == en[2]);
    assert(en.drop_first().drop_first().drop_first()[0] == en[3]);
    assert(en.drop_first().drop_first().drop_first().drop_first()[0] == en[4]);
    reveal_with_fuel(section_get, 6);
    assert("type"@ != "access_key_id"@);
    assert(section_get(en, "access_key_id"@) == Some(e.access_key_id));
    assert("access_key_id"@ != "secret_access_key"@);
    assert(section_get(en, "secret_access_key"@) == Some(e.secret_access_key));
    assert("access_key_id"@ != "region"@);
    assert(section_get(en, "region"@) == Some(e.region));
    let en4 = en.drop_first().drop_first().drop_first().drop_first();
    assert(en4[0].0 == "endpoint"@);
    assert(section_get(en4, "endpoint"@) == Some(e.endpoint));
    let en3 = en.drop_first().drop_first().drop_first();
    assert(en3[0].0 != "endpoint"@);
    assert(en3.drop_first() == en4);
    assert(section_get(en3, "endpoint"@) == Some(e.endpoint));
    let en2 = en.drop_first().drop_first();
    assert(en2[0].0 != "endpoint"@);
    assert(section_get(en2, "endpoint"@) == Some(e.endpoint));
    let en1 = en.drop_first();
    assert(en1[0].0 != "endpoint"@);
    assert(section_get(en1, "endpoint"@) == Some(e.endpoint));
    assert(en[0].0 != "endpoint"@);
    assert(section_get(en, "endpoint"@) == Some(e.endpoint));
}

proof fn lemma_sections_read_back(es: Seq<EntryView>, path: Seq<char>)
    ensures
        spec_entries_from_sections(es.map_values(|x: EntryView| entry_section(x)), path) == Ok::<
            Seq<EntryView>,
            Seq<char>,
        >(es),
    decreases es.len(),
{
    let secs = es.map_values(|x: EntryView| entry_section(x));
    if es.len() == 0 {
        assert(secs.len() == 0);
        assert(es =~= Seq::<EntryView>::empty());
    } else {
        let d = es.drop_last();
        lemma_sections_read_back(d, path);
        assert(secs.drop_last() =~= d.map_values(|x: EntryView| entry_section(x)));
        assert(secs.last() == entry_section(es.last()));
        lemma_section_reads_back(es.last(), path);
        assert(d.push(es.last()) =~= es);
    }
}

/// Writing bucket entries and reading the text back gives the same entries,
/// in the same order, for every list of entries whose fields hold no line
/// break and no whitespace at either end, and whose bucket names neither
/// start with `[` nor end with `]`.
pub proof fn lemma_bucket_entries_round_trip(es: Seq<EntryView>, path: Seq<char>)
    requires
        forall|i: int| 0 <= i < es.len() ==> clean_entry(#[trigger] es[i]),
    ensures
        spec_entries_from_sections(spec_parse_ini(spec_format_bucket_entries(es)), path) == Ok::<
            Seq<EntryView>,
            Seq<char>,
        >(es),
{
    let secs = es.map_values(|x: EntryView| entry_section(x));
    if es.len() == 0 {
        let text = spec_format_bucket_entries(es);
        assert(text.len() == 0);
        lemma_split_none(text, '\n');
        let lines = split_char(text, '\n');
        assert(lines.drop_last().len() == 0);
        lemma_trim_exact(lines.last(), 0, 0);
        assert(trim_ws(lines.last()).len() == 0);
        assert(ini_fold(ini_init(), lines.drop_last()) == ini_init());
        assert(ini_step(ini_init(), lines.last()) == ini_init());
        assert(ini_fold(ini_init(), lines) == ini_init());
        assert(spec_parse_ini(text) =~= secs);
    } else {
        lemma_all_lines(es);
        lemma_split_join(all_lines(es));
        lemma_fold_all(es);
        let st = ini_fold(ini_init(), all_lines(es));
        assert(ini_finish(st) =~= secs);
    }
    lemma_sections_read_back(es, path);
}

} // verus!
