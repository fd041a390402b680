//! S3 credentials: the rclone-style `s3.conf` INI format and the resolution chain.
use vstd::prelude::*;

use super::error::IoError;
use crate::order::{sort_by_key, SortKey, chars_lex_le, lex_le, lemma_map_multiset};
use crate::text::{
    chars_concat, chars_eq, chars_split, chars_split_once, chars_start_with, chars_trim,
    chars_trim_end_char, chars_trim_start_char, push_text, split_char, split_once_char, str_chars,
    string_from_chars, trim_end_char, trim_start_char, trim_ws,
};
use crate::zarr::location::clone_string;

verus! {

/// S3 connection parameters resolved from config file or environment.
#[derive(Debug, Clone, PartialEq, Eq)]
pub struct S3Config {
    /// Access key ID for the configured endpoint.
    pub access_key_id: String,
    /// Secret access key.
    pub secret_access_key: String,
    /// AWS or custom S3 region name.
    pub region: String,
    /// S3-compatible endpoint URL.
    pub endpoint: String,
}

/// One bucket section in `s3.conf` (section name equals the S3 bucket name).
#[derive(Debug, Clone, PartialEq, Eq)]
pub struct S3BucketEntry {
    pub bucket: String,
    pub access_key_id: String,
    pub secret_access_key: String,
    pub region: String,
    pub endpoint: String,
}

/// One `[name]` section of an INI file with its `key = value` entries in order.
#[derive(Debug, Clone, PartialEq, Eq)]
pub struct IniSection {
    pub name: String,
    pub entries: Vec<(String, String)>,
}

pub struct ConfigView {
    pub access_key_id: Seq<char>,
    pub secret_access_key: Seq<char>,
    pub region: Seq<char>,
    pub endpoint: Seq<char>,
}

pub struct EntryView {
    pub bucket: Seq<char>,
    pub access_key_id: Seq<char>,
    pub secret_access_key: Seq<char>,
    pub region: Seq<char>,
    pub endpoint: Seq<char>,
}

pub struct SectionView {
    pub name: Seq<char>,
    pub entries: Seq<(Seq<char>, Seq<char>)>,
}

impl View for S3Config {
    type V = ConfigView;

    open spec fn view(&self) -> ConfigView {
        ConfigView {
            access_key_id: self.access_key_id@,
            secret_access_key: self.secret_access_key@,
            region: self.region@,
            endpoint: self.endpoint@,
        }
    }
}

impl View for S3BucketEntry {
    type V = EntryView;

    open spec fn view(&self) -> EntryView {
        EntryView {
            bucket: self.bucket@,
            access_key_id: self.access_key_id@,
            secret_access_key: self.secret_access_key@,
            region: self.region@,
            endpoint: self.endpoint@,
        }
    }
}

pub open spec fn pair_view(p: (String, String)) -> (Seq<char>, Seq<char>) {
    (p.0@, p.1@)
}

impl View for IniSection {
    type V = SectionView;

    open spec fn view(&self) -> SectionView {
        SectionView { name: self.name@, entries: self.entries@.map_values(|p| pair_view(p)) }
    }
}

pub open spec fn sections_view(s: Seq<IniSection>) -> Seq<SectionView> {
    s.map_values(|x: IniSection| x@)
}

pub open spec fn entries_view(s: Seq<S3BucketEntry>) -> Seq<EntryView> {
    s.map_values(|x: S3BucketEntry| x@)
}

// ---------------------------------------------------------------------------
// The INI grammar
// ---------------------------------------------------------------------------
/// Parser state after some lines: finished sections and the open one.
pub struct IniState {
    pub sections: Seq<SectionView>,
    pub current: Option<SectionView>,
}

pub open spec fn ini_init() -> IniState {
    IniState { sections: Seq::empty(), current: None }
}

/// Name of a `[name]` header line (already trimmed).
pub open spec fn ini_header_name(line: Seq<char>) -> Seq<char> {
    trim_ws(trim_end_char(trim_start_char(line, '['), ']'))
}

/// Effect of one raw line: blank lines and `#`/`;` comments are skipped, a
/// line starting with `[` opens a section, and a `key = value` line inside a
/// section adds an entry (key and value trimmed). Other lines are ignored.
pub open spec fn ini_step(st: IniState, raw: Seq<char>) -> IniState {
    let line = trim_ws(raw);
    if line.len() == 0 || line[0] == '#' || line[0] == ';' {
        st
    } else if line[0] == '[' {
        IniState {
            sections: match st.current {
                Some(c) => st.sections.push(c),
                None => st.sections,
            },
            current: Some(SectionView { name: ini_header_name(line), entries: Seq::empty() }),
        }
    } else {
        match st.current {
            Some(c) => match split_once_char(line, '=') {
                Some((k, v)) => IniState {
                    sections: st.sections,
                    current: Some(
                        SectionView { name: c.name, entries: c.entries.push((trim_ws(k), trim_ws(v))) },
                    ),
                },
                None => st,
            },
            None => st,
        }
    }
}

pub open spec fn ini_fold(st: IniState, lines: Seq<Seq<char>>) -> IniState
    decreases lines.len(),
{
    if lines.len() == 0 {
        st
    } else {
        ini_step(ini_fold(st, lines.drop_last()), lines.last())
    }
}

pub open spec fn ini_finish(st: IniState) -> Seq<SectionView> {
    match st.current {
        Some(c) => st.sections.push(c),
        None => st.sections,
    }
}

/// The sections of an INI text. Lines are the pieces between `\n`
/// characters; since every line is trimmed, this reads a text the same way
/// `str::lines` followed by `trim` does.
pub open spec fn spec_parse_ini(content: Seq<char>) -> Seq<SectionView> {
    ini_finish(ini_fold(ini_init(), split_char(content, '\n')))
}

/// Value of the first entry named `key`.
pub open spec fn section_get(entries: Seq<(Seq<char>, Seq<char>)>, key: Seq<char>) -> Option<
    Seq<char>,
>
    decreases entries.len(),
{
    if entries.len() == 0 {
        None
    } else if entries[0].0 == key {
        Some(entries[0].1)
    } else {
        section_get(entries.drop_first(), key)
    }
}

fn clone_pair(p: &(String, String)) -> (r: (String, String))
    ensures
        pair_view(r) == pair_view(*p),
{
    (clone_string(&p.0), clone_string(&p.1))
}

impl IniSection {
    /// Value of the first entry named `key`.
    pub fn get(&self, key: &str) -> (r: Option<String>)
        ensures
            match r {
                Some(v) => section_get(self@.entries, key@) == Some(v@),
                None => section_get(self@.entries, key@) is None,
            },
    {
        let k = str_chars(key);
        let mut i: usize = 0;
        assert(self@.entries.subrange(0, self@.entries.len() as int) =~= self@.entries);
        while i < self.entries.len()
            invariant
                i <= self.entries.len(),
                section_get(self@.entries, key@) == section_get(
                    self@.entries.subrange(i as int, self@.entries.len() as int),
                    key@,
                ),
                k@ == key@,
            decreases self.entries.len() - i,
        {
            let ghost rest = self@.entries.subrange(i as int, self@.entries.len() as int);
            let ek = str_chars(self.entries[i].0.as_str());
            if chars_eq(&ek, &k) {
                assert(rest[0] == pair_view(self.entries@[i as int]));
                return Some(clone_string(&self.entries[i].1));
            }
            proof {
                assert(rest[0] == pair_view(self.entries@[i as int]));
                assert(rest.drop_first() =~= self@.entries.subrange(
                    i + 1,
                    self@.entries.len() as int,
                ));
            }
            i = i + 1;
        }
        None
    }
}

fn header_name(line: &[char]) -> (r: String)
    ensures
        r@ == ini_header_name(line@),
{
    let a = chars_trim_start_char(line, '[');
    let b = chars_trim_end_char(&a, ']');
    let c = chars_trim(&b);
    string_from_chars(&c)
}

fn ini_apply(sections: &mut Vec<IniSection>, current: &mut Option<IniSection>, raw: &[char])
    ensures
        ini_step(
            IniState { sections: sections_view(old(sections)@), current: opt_section_view(*old(current)) },
            raw@,
        ) == (IniState { sections: sections_view(final(sections)@), current: opt_section_view(*final(current)) }),
{
    let line = chars_trim(raw);
    if line.len() == 0 || line[0] == '#' || line[0] == ';' {
        return;
    }
    if line[0] == '[' {
        let taken = current.take();
        match taken {
            Some(sec) => {
                proof {
                    assert(sections_view(sections@.push(sec)) =~= sections_view(sections@).push(sec@));
                }
                sections.push(sec);
            },
            None => {},
        }
        *current = Some(IniSection { name: header_name(&line), entries: Vec::new() });
        proof {
            assert(current->0@.entries =~= Seq::<(Seq<char>, Seq<char>)>::empty());
        }
        return;
    }
    match current {
        Some(sec) => {
            match chars_split_once(&line, '=') {
                Some((k, v)) => {
                    let kt = chars_trim(&k);
                    let vt = chars_trim(&v);
                    let ghost before = sec.entries@;
                    sec.entries.push((string_from_chars(&kt), string_from_chars(&vt)));
                    proof {
                        assert(sec.entries@.map_values(|p| pair_view(p)) =~= before.map_values(
                            |p| pair_view(p),
                        ).push((trim_ws(k@), trim_ws(v@))));
                    }
                },
                None => {},
            }
        },
        None => {},
    }
}

pub open spec fn opt_section_view(s: Option<IniSection>) -> Option<SectionView> {
    match s {
        Some(x) => Some(x@),
        None => None,
    }
}

/// Parse an rclone-style INI text into its named sections, in file order.
/// Lines before the first `[section]` header are ignored.
pub fn parse_ini_sections(content: &str) -> (r: Vec<IniSection>)
    ensures
        sections_view(r@) == spec_parse_ini(content@),
{
    let chars = str_chars(content);
    let lines = chars_split(&chars, '\n');
    let ghost all = split_char(content@, '\n');
    let mut sections: Vec<IniSection> = Vec::new();
    let mut current: Option<IniSection> = None;
    let mut i: usize = 0;
    assert(sections_view(sections@) =~= Seq::<SectionView>::empty());
    while i < lines.len()
        invariant
            lines@.len() == all.len(),
            forall|k: int| 0 <= k < lines@.len() ==> #[trigger] lines@[k]@ == all[k],
            i <= lines.len(),
            ini_fold(ini_init(), all.subrange(0, i as int)) == (IniState {
                sections: sections_view(sections@),
                current: opt_section_view(current),
            }),
        decreases lines.len() - i,
    {
        ini_apply(&mut sections, &mut current, &lines[i]);
        proof {
            let pre = all.subrange(0, i + 1);
            assert(pre.drop_last() =~= all.subrange(0, i as int));
            assert(pre.last() == lines@[i as int]@);
        }
        i = i + 1;
    }
    proof {
        assert(all.subrange(0, all.len() as int) =~= all);
    }
    match current {
        Some(sec) => {
            proof {
                assert(sections_view(sections@.push(sec)) =~= sections_view(sections@).push(sec@));
            }
            sections.push(sec);
        },
        None => {},
    }
    sections
}

// ---------------------------------------------------------------------------
// Sections to credentials
// ---------------------------------------------------------------------------
pub open spec fn missing_key_text(key: Seq<char>, name: Seq<char>, path: Seq<char>) -> Seq<char> {
    "missing '"@ + key + "' in ["@ + name + "] of "@ + path
}

/// Credentials of a section, or the text of the error for the first of the
/// four required keys that is missing.
pub open spec fn spec_config_from_section(sec: SectionView, path: Seq<char>) -> Result<
    ConfigView,
    Seq<char>,
> {
    match section_get(sec.entries, "access_key_id"@) {
        None => Err(missing_key_text("access_key_id"@, sec.name, path)),
        Some(ak) => match section_get(sec.entries, "secret_access_key"@) {
            None => Err(missing_key_text("secret_access_key"@, sec.name, path)),
            Some(sk) => match section_get(sec.entries, "region"@) {
                None => Err(missing_key_text("region"@, sec.name, path)),
                Some(rg) => match section_get(sec.entries, "endpoint"@) {
                    None => Err(missing_key_text("endpoint"@, sec.name, path)),
                    Some(ep) => Ok(
                        ConfigView {
                            access_key_id: ak,
                            secret_access_key: sk,
                            region: rg,
                            endpoint: ep,
                        },
                    ),
                },
            },
        },
    }
}

pub open spec fn spec_entry_from_section(sec: SectionView, path: Seq<char>) -> Result<
    EntryView,
    Seq<char>,
> {
    match spec_config_from_section(sec, path) {
        Ok(c) => Ok(
            EntryView {
                bucket: sec.name,
                access_key_id: c.access_key_id,
                secret_access_key: c.secret_access_key,
                region: c.region,
                endpoint: c.endpoint,
            },
        ),
        Err(e) => Err(e),
    }
}

fn missing_key_error(key: &str, name: &String, path: &str) -> (r: IoError)
    ensures
        r == IoError::S3Credentials(r->S3Credentials_0),
        r->S3Credentials_0@ == missing_key_text(key@, name@, path@),
{
    let a = str_chars("missing '");
    let b = str_chars(key);
    let c = str_chars("' in [");
    let d = str_chars(name.as_str());
    let e = str_chars("] of ");
    let f = str_chars(path);
    let ab = chars_concat(&a, &b);
    let abc = chars_concat(&ab, &c);
    let abcd = chars_concat(&abc, &d);
    let abcde = chars_concat(&abcd, &e);
    let all = chars_concat(&abcde, &f);
    IoError::S3Credentials(string_from_chars(&all))
}

/// Credentials from a section; a missing key is an `S3Credentials` error
/// naming the key, the section and the file.
pub fn config_from_section(section: &IniSection, path: &str) -> (r: Result<S3Config, IoError>)
    ensures
        match spec_config_from_section(section@, path@) {
            Ok(c) => r matches Ok(cfg) && cfg@ == c,
            Err(t) => r matches Err(e) && e == IoError::S3Credentials(e->S3Credentials_0)
                && e->S3Credentials_0@ == t,
        },
{
    let ak = match section.get("access_key_id") {
        Some(v) => v,
        None => return Err(missing_key_error("access_key_id", &section.name, path)),
    };
    let sk = match section.get("secret_access_key") {
        Some(v) => v,
        None => return Err(missing_key_error("secret_access_key", &section.name, path)),
    };
    let rg = match section.get("region") {
        Some(v) => v,
        None => return Err(missing_key_error("region", &section.name, path)),
    };
    let ep = match section.get("endpoint") {
        Some(v) => v,
        None => return Err(missing_key_error("endpoint", &section.name, path)),
    };
    Ok(S3Config { access_key_id: ak, secret_access_key: sk, region: rg, endpoint: ep })
}

/// Bucket entry (section name and credentials) from a section.
pub fn bucket_entry_from_section(section: &IniSection, path: &str) -> (r: Result<
    S3BucketEntry,
    IoError,
>)
    ensures
        match spec_entry_from_section(section@, path@) {
            Ok(v) => r matches Ok(ent) && ent@ == v,
            Err(t) => r matches Err(e) && e == IoError::S3Credentials(e->S3Credentials_0)
                && e->S3Credentials_0@ == t,
        },
{
    let cfg = config_from_section(section, path)?;
    Ok(
        S3BucketEntry {
            bucket: clone_string(&section.name),
            access_key_id: cfg.access_key_id,
            secret_access_key: cfg.secret_access_key,
            region: cfg.region,
            endpoint: cfg.endpoint,
        },
    )
}

impl S3BucketEntry {
    /// The credentials of this entry, without the bucket name.
    pub fn to_s3_config(&self) -> (r: S3Config)
        ensures
            r@ == (ConfigView {
                access_key_id: self.access_key_id@,
                secret_access_key: self.secret_access_key@,
                region: self.region@,
                endpoint: self.endpoint@,
            }),
    {
        S3Config {
            access_key_id: clone_string(&self.access_key_id),
            secret_access_key: clone_string(&self.secret_access_key),
            region: clone_string(&self.region),
            endpoint: clone_string(&self.endpoint),
        }
    }
}

// ---------------------------------------------------------------------------
// Writing entries
// ---------------------------------------------------------------------------
/// The six lines of one bucket section.
pub open spec fn spec_format_bucket_entry(e: EntryView) -> Seq<char> {
    "["@ + e.bucket + "]\ntype = s3\naccess_key_id = "@ + e.access_key_id
        + "\nsecret_access_key = "@ + e.secret_access_key + "\nregion = "@ + e.region
        + "\nendpoint = "@ + e.endpoint
}

/// Sections for all entries, separated by a line break.
pub open spec fn spec_format_bucket_entries(es: Seq<EntryView>) -> Seq<char>
    decreases es.len(),
{
    if es.len() == 0 {
        Seq::empty()
    } else if es.len() == 1 {
        spec_format_bucket_entry(es[0])
    } else {
        spec_format_bucket_entries(es.drop_last()) + seq!['\n'] + spec_format_bucket_entry(
            es.last(),
        )
    }
}

fn format_entry_chars(entry: &S3BucketEntry) -> (r: Vec<char>)
    ensures
        r@ == spec_format_bucket_entry(entry@),
{
    let mut buf: Vec<char> = Vec::new();
    push_text(&mut buf, "[");
    push_text(&mut buf, entry.bucket.as_str());
    push_text(&mut buf, "]\ntype = s3\naccess_key_id = ");
    push_text(&mut buf, entry.access_key_id.as_str());
    push_text(&mut buf, "\nsecret_access_key = ");
    push_text(&mut buf, entry.secret_access_key.as_str());
    push_text(&mut buf, "\nregion = ");
    push_text(&mut buf, entry.region.as_str());
    push_text(&mut buf, "\nendpoint = ");
    push_text(&mut buf, entry.endpoint.as_str());
    assert(buf@ =~= spec_format_bucket_entry(entry@));
    buf
}

/// The `s3.conf` section written for one bucket.
pub fn format_bucket_entry(entry: &S3BucketEntry) -> (r: String)
    ensures
        r@ == spec_format_bucket_entry(entry@),
{
    let c = format_entry_chars(entry);
    string_from_chars(&c)
}

/// The whole `s3.conf` text for a list of buckets, in the given order.
pub fn format_bucket_entries(entries: &[S3BucketEntry]) -> (r: String)
    ensures
        r@ == spec_format_bucket_entries(entries@.map_values(|x: S3BucketEntry| x@)),
{
    let ghost es = entries@.map_values(|x: S3BucketEntry| x@);
    let mut buf: Vec<char> = Vec::new();
    let mut i: usize = 0;
    while i < entries.len()
        invariant
            i <= entries.len(),
            es == entries@.map_values(|x: S3BucketEntry| x@),
            buf@ == spec_format_bucket_entries(es.subrange(0, i as int)),
        decreases entries.len() - i,
    {
        if i > 0 {
            push_text(&mut buf, "\n");
            proof {
                reveal_strlit("\n");
            }
        }
        let one = format_entry_chars(&entries[i]);
        let joined = chars_concat(&buf, &one);
        buf = joined;
        proof {
            let pre = es.subrange(0, i + 1);
            assert(pre.drop_last() =~= es.subrange(0, i as int));
            assert(pre.last() == entries@[i as int]@);
            if i == 0 {
                assert(pre.len() == 1);
                assert(es.subrange(0, 0).len() == 0);
                assert(buf@ =~= spec_format_bucket_entry(pre[0]));
            } else {
                assert(buf@ =~= spec_format_bucket_entries(pre.drop_last()) + seq!['\n']
                    + spec_format_bucket_entry(pre.last()));
            }
        }
        i = i + 1;
    }
    assert(es.subrange(0, entries@.len() as int) =~= es);
    string_from_chars(&buf)
}

// ---------------------------------------------------------------------------
// Reading entries
// ---------------------------------------------------------------------------
impl SortKey for S3BucketEntry {
    open spec fn rank(&self) -> int {
        0
    }

    open spec fn name(&self) -> Seq<char> {
        self.bucket@
    }

    fn key_le_exec(&self, other: &Self) -> (r: bool) {
        let a = str_chars(self.bucket.as_str());
        let b = str_chars(other.bucket.as_str());
        chars_lex_le(&a, &b)
    }
}

/// Entries of all sections in file order, or the first section's error.
pub open spec fn spec_entries_from_sections(secs: Seq<SectionView>, path: Seq<char>) -> Result<
    Seq<EntryView>,
    Seq<char>,
>
    decreases secs.len(),
{
    if secs.len() == 0 {
        Ok(Seq::empty())
    } else {
        match spec_entries_from_sections(secs.drop_last(), path) {
            Err(e) => Err(e),
            Ok(prev) => match spec_entry_from_section(secs.last(), path) {
                Err(e) => Err(e),
                Ok(x) => Ok(prev.push(x)),
            },
        }
    }
}

/// Bucket names in non-decreasing `str::cmp` order.
pub open spec fn buckets_sorted(es: Seq<EntryView>) -> bool {
    forall|i: int, j: int| 0 <= i < j < es.len() ==> lex_le(#[trigger] es[i].bucket, #[trigger] es[j].bucket)
}

impl S3Config {
    /// Bucket entries of an `s3.conf` text, sorted by bucket name (stable).
    ///
    /// Every section must hold the four credential keys; the first section
    /// that lacks one gives the error. `path` only names the file in messages.
    pub fn bucket_entries_from_content(content: &str, path: &str) -> (r: Result<
        Vec<S3BucketEntry>,
        IoError,
    >)
        ensures
            match spec_entries_from_sections(spec_parse_ini(content@), path@) {
                Ok(list) => r matches Ok(v) && {
                    let got = entries_view(v@);
                    &&& got.to_multiset() == list.to_multiset()
                    &&& buckets_sorted(got)
                    &&& buckets_sorted(list) ==> got == list
                },
                Err(t) => r matches Err(e) && e == IoError::S3Credentials(e->S3Credentials_0)
                    && e->S3Credentials_0@ == t,
            },
    {
        let sections = parse_ini_sections(content);
        let ghost secs = sections_view(sections@);
        let mut entries: Vec<S3BucketEntry> = Vec::new();
        let mut i: usize = 0;
        assert(secs.subrange(0, 0).len() == 0);
        assert(entries_view(entries@) =~= Seq::<EntryView>::empty());
        while i < sections.len()
            invariant
                i <= sections.len(),
                secs == sections_view(sections@),
                secs == spec_parse_ini(content@),
                spec_entries_from_sections(secs.subrange(0, i as int), path@) == Ok::<
                    Seq<EntryView>,
                    Seq<char>,
                >(entries_view(entries@)),
            decreases sections.len() - i,
        {
            let ghost pre = secs.subrange(0, i + 1);
            proof {
                assert(pre.drop_last() =~= secs.subrange(0, i as int));
                assert(pre.last() == sections@[i as int]@);
            }
            match bucket_entry_from_section(&sections[i], path) {
                Ok(e) => {
                    let ghost before = entries@;
                    entries.push(e);
                    assert(entries_view(entries@) =~= entries_view(before).push(e@));
                },
                Err(err) => {
                    proof {
                        let t = spec_entry_from_section(sections@[i as int]@, path@);
                        assert(t is Err);
                        assert(spec_entries_from_sections(pre, path@) == Err::<Seq<EntryView>, Seq<char>>(t->Err_0));
                        lemma_entries_error_sticks(secs, path@, i as int + 1);
                        assert(spec_entries_from_sections(secs, path@) == Err::<Seq<EntryView>, Seq<char>>(t->Err_0));
                        assert(err == IoError::S3Credentials(err->S3Credentials_0));
                        assert(err->S3Credentials_0@ == t->Err_0);
                    }
                    return Err(err);
                },
            }
            i = i + 1;
        }
        proof {
            assert(secs.subrange(0, secs.len() as int) =~= secs);
        }
        let ghost unsorted = entries@;
        let sorted = sort_by_key(entries);
        proof {
            lemma_map_multiset(sorted@, unsorted, |x: S3BucketEntry| x@);
            let got = entries_view(sorted@);
            assert forall|a: int, b: int| 0 <= a < b < got.len() implies lex_le(
                #[trigger] got[a].bucket,
                #[trigger] got[b].bucket,
            ) by {
                assert(crate::order::elem_le(sorted@[a], sorted@[b]));
            }
            if buckets_sorted(entries_view(unsorted)) {
                assert forall|a: int, b: int| 0 <= a < b < unsorted.len() implies crate::order::elem_le(
                    #[trigger] unsorted[a],
                    #[trigger] unsorted[b],
                ) by {
                    assert(entries_view(unsorted)[a].bucket == unsorted[a].bucket@);
                    assert(entries_view(unsorted)[b].bucket == unsorted[b].bucket@);
                }
            }
        }
        Ok(sorted)
    }
}

proof fn lemma_entries_error_sticks(secs: Seq<SectionView>, path: Seq<char>, n: int)
    requires
        0 < n <= secs.len(),
        spec_entries_from_sections(secs.subrange(0, n), path) is Err,
    ensures
        spec_entries_from_sections(secs, path) == spec_entries_from_sections(secs.subrange(0, n), path),
    decreases secs.len() - n,
{
    if n < secs.len() {
        let pre = secs.subrange(0, n + 1);
        assert(pre.drop_last() =~= secs.subrange(0, n));
        lemma_entries_error_sticks(secs, path, n + 1);
    } else {
        assert(secs.subrange(0, n) =~= secs);
    }
}

} // verus!
