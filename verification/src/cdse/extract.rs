//! Which directory of an unpacked archive holds the product: a Zarr store
//! or a Sentinel-3 SAFE folder.
use vstd::prelude::*;

use crate::host::{path_extension, path_extension_of};
use crate::text::{ascii_lower, chars_ascii_lower, push_text, seq_ends_with, str_chars, str_ends_with, string_from_chars};
use crate::zarr::location::clone_string;

verus! {

/// What the filesystem showed of one directory entry.
#[derive(Clone, Debug)]
pub struct DirFacts {
    pub path: String,
    /// Final path component, when it is valid UTF-8.
    pub name: Option<String>,
    pub is_dir: bool,
    /// `.zgroup`, `.zmetadata` or `zarr.json` is a file inside.
    pub has_zarr_metadata: bool,
    /// `xfdumanifest.xml` is a file inside.
    pub has_safe_manifest: bool,
}

pub open spec fn name_ends_with(f: DirFacts, suffix: Seq<char>) -> bool {
    match f.name {
        Some(n) => seq_ends_with(n@, suffix),
        None => false,
    }
}

/// A directory named `*.zarr`.
pub open spec fn spec_zarr_named(f: DirFacts) -> bool {
    f.is_dir && name_ends_with(f, ".zarr"@)
}

/// A directory with Zarr metadata.
pub open spec fn spec_zarr_dir(f: DirFacts) -> bool {
    f.is_dir && f.has_zarr_metadata
}

/// A `*.SEN3` directory with a SAFE manifest.
pub open spec fn spec_safe_dir(f: DirFacts) -> bool {
    f.is_dir && name_ends_with(f, ".SEN3"@) && f.has_safe_manifest
}

fn name_has_suffix(f: &DirFacts, suffix: &str) -> (r: bool)
    ensures
        r == name_ends_with(*f, suffix@),
{
    match &f.name {
        Some(n) => str_ends_with(n.as_str(), suffix),
        None => false,
    }
}

pub fn is_zarr_named_dir(f: &DirFacts) -> (r: bool)
    ensures
        r == spec_zarr_named(*f),
{
    f.is_dir && name_has_suffix(f, ".zarr")
}

pub fn is_zarr_dir(f: &DirFacts) -> (r: bool)
    ensures
        r == spec_zarr_dir(*f),
{
    f.is_dir && f.has_zarr_metadata
}

pub fn is_safe_dir(f: &DirFacts) -> (r: bool)
    ensures
        r == spec_safe_dir(*f),
{
    f.is_dir && name_has_suffix(f, ".SEN3") && f.has_safe_manifest
}

/// A Zarr store or a SAFE folder.
pub fn is_product_dir(f: &DirFacts) -> (r: bool)
    ensures
        r == (spec_zarr_dir(*f) || spec_safe_dir(*f)),
{
    is_zarr_dir(f) || is_safe_dir(f)
}

/// A path whose extension is `zip` in any case.
pub open spec fn spec_is_zip_path(path: Seq<char>) -> bool {
    match path_extension_of(path) {
        Some(e) => ascii_lower(e) == "zip"@,
        None => false,
    }
}

/// Whether a downloaded file is a zip archive that needs unpacking.
pub fn is_zip_path(path: &str) -> (r: bool)
    ensures
        r == spec_is_zip_path(path@),
{
    match path_extension(path) {
        Some(e) => {
            let cs = str_chars(e.as_str());
            let lower = chars_ascii_lower(&cs);
            let z = str_chars("zip");
            crate::text::chars_eq(&lower, &z)
        },
        None => false,
    }
}

/// Why a SAFE product cannot be opened without SAFE support.
pub open spec fn safe_disabled_message(path: Seq<char>) -> Seq<char> {
    "found Sentinel-3 SAFE product at "@ + path
        + ", but SAFE support is disabled (rebuild with --features safe)"@
}

/// Accept a product directory: a SAFE folder only with SAFE support.
pub fn accept_product_dir(f: &DirFacts, safe_support: bool) -> (r: Result<String, String>)
    ensures
        !safe_support && spec_safe_dir(*f) ==> (r matches Err(e) && e@ == safe_disabled_message(f.path@)),
        !(!safe_support && spec_safe_dir(*f)) ==> (r matches Ok(p) && p@ == f.path@),
{
    if !safe_support && is_safe_dir(f) {
        let mut buf: Vec<char> = Vec::new();
        push_text(&mut buf, "found Sentinel-3 SAFE product at ");
        push_text(&mut buf, f.path.as_str());
        push_text(&mut buf, ", but SAFE support is disabled (rebuild with --features safe)");
        return Err(string_from_chars(&buf));
    }
    Ok(clone_string(&f.path))
}

/// What the scan for product folders does at one directory entry.
#[derive(Clone, Copy, Debug, PartialEq, Eq, Structural)]
pub struct ScanStep {
    /// Record it as a Zarr candidate.
    pub zarr: bool,
    /// Record it as a SAFE candidate.
    pub safe: bool,
    /// Scan the directories inside it.
    pub descend: bool,
}

/// The scan step at depth `depth`: nothing past `max_depth`; a Zarr store is
/// recorded and not entered; a `*.zarr` directory is recorded; a SAFE folder
/// is recorded and not entered; other directories are entered.
pub open spec fn spec_scan_step(f: DirFacts, depth: usize, max_depth: usize) -> ScanStep {
    if depth > max_depth {
        ScanStep { zarr: false, safe: false, descend: false }
    } else if spec_zarr_dir(f) {
        ScanStep { zarr: true, safe: false, descend: false }
    } else if spec_safe_dir(f) {
        ScanStep { zarr: spec_zarr_named(f), safe: true, descend: false }
    } else {
        ScanStep { zarr: spec_zarr_named(f), safe: false, descend: f.is_dir }
    }
}

pub fn candidate_step(f: &DirFacts, depth: usize, max_depth: usize) -> (r: ScanStep)
    ensures
        r == spec_scan_step(*f, depth, max_depth),
{
    if depth > max_depth {
        return ScanStep { zarr: false, safe: false, descend: false };
    }
    let zarr_dir = is_zarr_dir(f);
    let zarr = zarr_dir || is_zarr_named_dir(f);
    if zarr_dir {
        return ScanStep { zarr, safe: false, descend: false };
    }
    if is_safe_dir(f) {
        return ScanStep { zarr, safe: true, descend: false };
    }
    ScanStep { zarr, safe: false, descend: f.is_dir }
}

/// The first candidate that satisfies `p`.
pub open spec fn first_where(c: Seq<DirFacts>, p: spec_fn(DirFacts) -> bool) -> Option<int>
    decreases c.len(),
{
    if c.len() == 0 {
        None
    } else {
        match first_where(c.drop_last(), p) {
            Some(i) => Some(i),
            None => if p(c.last()) {
                Some(c.len() - 1)
            } else {
                None
            },
        }
    }
}

/// The Zarr candidate to open: the only one; else the first named `*.zarr`
/// with metadata, else the first with metadata, else the first named `*.zarr`.
pub open spec fn spec_prefer_zarr(c: Seq<DirFacts>) -> Option<int> {
    if c.len() == 0 {
        None
    } else if c.len() == 1 {
        Some(0)
    } else {
        match first_where(c, |f: DirFacts| spec_zarr_named(f) && spec_zarr_dir(f)) {
            Some(i) => Some(i),
            None => match first_where(c, |f: DirFacts| spec_zarr_dir(f)) {
                Some(i) => Some(i),
                None => first_where(c, |f: DirFacts| spec_zarr_named(f)),
            },
        }
    }
}

/// The SAFE candidate to open: the only one; else the first SAFE folder,
/// else the first.
pub open spec fn spec_prefer_safe(c: Seq<DirFacts>) -> Option<int> {
    if c.len() == 0 {
        None
    } else if c.len() == 1 {
        Some(0)
    } else {
        match first_where(c, |f: DirFacts| spec_safe_dir(f)) {
            Some(i) => Some(i),
            None => Some(0),
        }
    }
}

/// Index of the first candidate of kind `which` (0: named Zarr store,
/// 1: Zarr store, 2: named `*.zarr`, 3: SAFE folder).
fn find_first(c: &Vec<DirFacts>, which: u8) -> (r: Option<usize>)
    requires
        which < 4,
    ensures
        (match r {
            Some(i) => Some(i as int),
            None => None,
        }) == first_where(
            c@,
            if which == 0 {
                |f: DirFacts| spec_zarr_named(f) && spec_zarr_dir(f)
            } else if which == 1 {
                |f: DirFacts| spec_zarr_dir(f)
            } else if which == 2 {
                |f: DirFacts| spec_zarr_named(f)
            } else {
                |f: DirFacts| spec_safe_dir(f)
            },
        ),
{
    let ghost p = if which == 0 {
        |f: DirFacts| spec_zarr_named(f) && spec_zarr_dir(f)
    } else if which == 1 {
        |f: DirFacts| spec_zarr_dir(f)
    } else if which == 2 {
        |f: DirFacts| spec_zarr_named(f)
    } else {
        |f: DirFacts| spec_safe_dir(f)
    };
    let mut i: usize = 0;
    while i < c.len()
        invariant
            i <= c.len(),
            p == (if which == 0 {
                |f: DirFacts| spec_zarr_named(f) && spec_zarr_dir(f)
            } else if which == 1 {
                |f: DirFacts| spec_zarr_dir(f)
            } else if which == 2 {
                |f: DirFacts| spec_zarr_named(f)
            } else {
                |f: DirFacts| spec_safe_dir(f)
            }),
            first_where(c@.subrange(0, i as int), p) is None,
        decreases c.len() - i,
    {
        let ghost pre = c@.subrange(0, i as int);
        let ghost next = c@.subrange(0, i + 1);
        assert(next.drop_last() =~= pre);
        let f = &c[i];
        let hit = if which == 0 {
            is_zarr_named_dir(f) && is_zarr_dir(f)
        } else if which == 1 {
            is_zarr_dir(f)
        } else if which == 2 {
            is_zarr_named_dir(f)
        } else {
            is_safe_dir(f)
        };
        if hit {
            proof {
                assert(first_where(next, p) == Some(i as int));
                lemma_first_where_prefix(c@, p, i as int + 1);
            }
            return Some(i);
        }
        i = i + 1;
    }
    assert(c@.subrange(0, c@.len() as int) =~= c@);
    None
}

proof fn lemma_first_where_bounds(c: Seq<DirFacts>, p: spec_fn(DirFacts) -> bool)
    ensures
        first_where(c, p) matches Some(i) ==> 0 <= i < c.len() && p(c[i]),
    decreases c.len(),
{
    if c.len() > 0 {
        lemma_first_where_bounds(c.drop_last(), p);
    }
}

/// A hit in a prefix is the first hit of the whole list.
proof fn lemma_first_where_prefix(c: Seq<DirFacts>, p: spec_fn(DirFacts) -> bool, k: int)
    requires
        0 <= k <= c.len(),
        first_where(c.subrange(0, k), p) is Some,
    ensures
        first_where(c, p) == first_where(c.subrange(0, k), p),
    decreases c.len() - k,
{
    if k < c.len() {
        assert(c.subrange(0, k + 1).drop_last() =~= c.subrange(0, k));
        lemma_first_where_prefix(c, p, k + 1);
    } else {
        assert(c.subrange(0, k) =~= c);
    }
}

/// The Zarr candidate to open (see `spec_prefer_zarr`).
pub fn prefer_zarr_candidate(c: &Vec<DirFacts>) -> (r: Option<usize>)
    ensures
        r matches Some(i) ==> i < c@.len(),
        (match r {
            Some(i) => Some(i as int),
            None => None,
        }) == spec_prefer_zarr(c@),
{
    if c.len() == 0 {
        return None;
    }
    if c.len() == 1 {
        return Some(0);
    }
    proof {
        lemma_first_where_bounds(c@, |f: DirFacts| spec_zarr_named(f) && spec_zarr_dir(f));
        lemma_first_where_bounds(c@, |f: DirFacts| spec_zarr_dir(f));
        lemma_first_where_bounds(c@, |f: DirFacts| spec_zarr_named(f));
    }
    match find_first(c, 0) {
        Some(i) => Some(i),
        None => match find_first(c, 1) {
            Some(i) => Some(i),
            None => find_first(c, 2),
        },
    }
}

/// The SAFE candidate to open (see `spec_prefer_safe`).
pub fn prefer_safe_candidate(c: &Vec<DirFacts>) -> (r: Option<usize>)
    ensures
        r matches Some(i) ==> i < c@.len(),
        (match r {
            Some(i) => Some(i as int),
            None => None,
        }) == spec_prefer_safe(c@),
{
    if c.len() == 0 {
        return None;
    }
    if c.len() == 1 {
        return Some(0);
    }
    proof {
        lemma_first_where_bounds(c@, |f: DirFacts| spec_safe_dir(f));
    }
    match find_first(c, 3) {
        Some(i) => Some(i),
        None => Some(0),
    }
}

/// Where the search for the product root goes next.
#[derive(Clone, Debug)]
pub enum RootStep {
    /// The product root.
    Found(String),
    /// No openable product.
    Failed(String),
    /// Look inside this only subdirectory.
    Descend(String),
}

/// The decision of the product-root search at `root`: the root itself when
/// it is a product folder; else the preferred Zarr candidate, else the
/// preferred SAFE candidate (found by scanning below it); else its only
/// subdirectory; else no product.
pub fn product_root_step(
    root: &DirFacts,
    zarr: &Vec<DirFacts>,
    safe: &Vec<DirFacts>,
    child_dirs: &Vec<String>,
    safe_support: bool,
) -> (r: RootStep)
    ensures
        (spec_zarr_dir(*root) || spec_safe_dir(*root)) ==> match r {
            RootStep::Found(p) => p@ == root.path@ && !(!safe_support && spec_safe_dir(*root)),
            RootStep::Failed(e) => !safe_support && spec_safe_dir(*root) && e@ == safe_disabled_message(root.path@),
            RootStep::Descend(_) => false,
        },
        !(spec_zarr_dir(*root) || spec_safe_dir(*root)) ==> match spec_prefer_zarr(zarr@) {
            Some(i) => r matches RootStep::Found(p) && p@ == zarr@[i].path@,
            None => match spec_prefer_safe(safe@) {
                Some(i) => if !safe_support && spec_safe_dir(safe@[i]) {
                    r matches RootStep::Failed(e) && e@ == safe_disabled_message(safe@[i].path@)
                } else {
                    r matches RootStep::Found(p) && p@ == safe@[i].path@
                },
                None => if child_dirs@.len() == 1 {
                    r matches RootStep::Descend(c) && c@ == child_dirs@[0]@
                } else {
                    r matches RootStep::Failed(e) && e@ == "no Zarr (.zarr) or SAFE (.SEN3) product root found under "@
                        + root.path@
                },
            },
        },
{
    if is_product_dir(root) {
        return match accept_product_dir(root, safe_support) {
            Ok(p) => RootStep::Found(p),
            Err(e) => RootStep::Failed(e),
        };
    }
    match prefer_zarr_candidate(zarr) {
        Some(i) => {
            return RootStep::Found(clone_string(&zarr[i].path));
        },
        None => {},
    }
    match prefer_safe_candidate(safe) {
        Some(i) => {
            return match accept_product_dir(&safe[i], safe_support) {
                Ok(p) => RootStep::Found(p),
                Err(e) => RootStep::Failed(e),
            };
        },
        None => {},
    }
    if child_dirs.len() == 1 {
        return RootStep::Descend(clone_string(&child_dirs[0]));
    }
    let mut buf: Vec<char> = Vec::new();
    push_text(&mut buf, "no Zarr (.zarr) or SAFE (.SEN3) product root found under ");
    push_text(&mut buf, root.path.as_str());
    RootStep::Failed(string_from_chars(&buf))
}

} // verus!
