//! Opening products: which reader a location goes to, whether it is open
//! already, and the name it is shown under.
use vstd::prelude::*;

use crate::host::{path_file_name, path_file_name_of};
use crate::safe::product_type::is_safe_product_dir;
use crate::text::{
    chars_rsplit_once, chars_trim, push_text, rsplit_once_char, seq_ends_with, seq_starts_with, str_chars,
    str_is, str_starts_with, string_from_chars, trim_ws,
};
use crate::zarr::location::{
    clone_string, has_zarr_file_name, is_ancestor, resolve_zarr_product_path, resolved_root, s3_scheme,
};

verus! {

/// Which reader opens a product.
#[derive(Debug)]
pub enum OpenTarget {
    /// An EOPF Zarr store (local path, archive or `s3://` URI).
    Zarr(String),
    /// A Sentinel-3 SAFE folder.
    Safe(String),
}

/// Why a SAFE folder cannot be opened in a build without SAFE support.
pub open spec fn safe_disabled_msg() -> Seq<char> {
    "Sentinel-3 SAFE support was disabled at compile time (rebuild with --features safe)"@
}

/// A reader choice as a value: `Ok((is SAFE, path))` or the error text.
pub open spec fn target_view(r: Result<OpenTarget, String>) -> Result<(bool, Seq<char>), Seq<char>> {
    match r {
        Ok(OpenTarget::Zarr(p)) => Ok((false, p@)),
        Ok(OpenTarget::Safe(p)) => Ok((true, p@)),
        Err(e) => Err(e@),
    }
}

/// The reader for a local path `trimmed`, from what the disk said: whether
/// `trimmed` is a SAFE folder, its resolved product root, and whether that
/// root is a SAFE folder. A SAFE folder goes to the SAFE reader (the path
/// itself first, then its root), or is refused without SAFE support;
/// anything else is opened as a Zarr store at `trimmed`.
pub open spec fn spec_open_target_after_probe(
    trimmed: Seq<char>,
    safe_here: bool,
    resolved: Seq<char>,
    safe_at_root: bool,
    safe_support: bool,
) -> Result<(bool, Seq<char>), Seq<char>> {
    if safe_here {
        if safe_support {
            Ok((true, trimmed))
        } else {
            Err(safe_disabled_msg())
        }
    } else if safe_at_root {
        if safe_support {
            Ok((true, resolved))
        } else {
            Err(safe_disabled_msg())
        }
    } else {
        Ok((false, trimmed))
    }
}

fn safe_disabled() -> (r: String)
    ensures
        r@ == safe_disabled_msg(),
{
    String::from_str("Sentinel-3 SAFE support was disabled at compile time (rebuild with --features safe)")
}

/// The reader decided from the disk's answers (see `spec_open_target_after_probe`).
pub fn open_target_after_probe(
    trimmed: &str,
    safe_here: bool,
    resolved: &str,
    safe_at_root: bool,
    safe_support: bool,
) -> (r: Result<OpenTarget, String>)
    ensures
        target_view(r) == spec_open_target_after_probe(trimmed@, safe_here, resolved@, safe_at_root, safe_support),
{
    if safe_here {
        if !safe_support {
            return Err(safe_disabled());
        }
        return Ok(OpenTarget::Safe(String::from_str(trimmed)));
    }
    if safe_at_root {
        if !safe_support {
            return Err(safe_disabled());
        }
        return Ok(OpenTarget::Safe(String::from_str(resolved)));
    }
    Ok(OpenTarget::Zarr(String::from_str(trimmed)))
}

/// A `*.SEN3` name.
pub open spec fn sen3_named(p: Seq<char>) -> bool {
    path_file_name_of(p) matches Some(n) && seq_ends_with(n, ".SEN3"@)
}

/// Where `open_product` sends `input`: an empty input is refused; an
/// `s3://` URI is a Zarr store; a local path goes where
/// `open_target_after_probe` sends it for the disk's answers (which local
/// folders are SAFE folders, and the resolved product root).
pub fn open_product_target(input: &str, safe_support: bool) -> (r: Result<OpenTarget, String>)
    ensures
        trim_ws(input@).len() == 0 ==> (r matches Err(e) && e@ == "product path cannot be empty"@),
        trim_ws(input@).len() > 0 && seq_starts_with(trim_ws(input@), s3_scheme()) ==> (r matches Ok(
            OpenTarget::Zarr(p),
        ) && p@ == trim_ws(input@)),
        trim_ws(input@).len() > 0 && !seq_starts_with(trim_ws(input@), s3_scheme()) ==> exists|
            safe_here: bool,
            resolved: Seq<char>,
            safe_at_root: bool,
        |
            (safe_here ==> sen3_named(trim_ws(input@))) && (!safe_here ==> resolved_root(
                trim_ws(input@),
                resolved,
            )) && (safe_at_root ==> sen3_named(resolved)) && target_view(r)
                == spec_open_target_after_probe(trim_ws(input@), safe_here, resolved, safe_at_root, safe_support),
        trim_ws(input@).len() > 0 && !seq_starts_with(trim_ws(input@), s3_scheme()) ==> match r {
            Ok(OpenTarget::Zarr(p)) => p@ == trim_ws(input@),
            Ok(OpenTarget::Safe(p)) => safe_support && (p@ == trim_ws(input@) || is_ancestor(p@, trim_ws(input@)))
                && sen3_named(p@),
            Err(e) => !safe_support && e@ == safe_disabled_msg(),
        },
{
    let cs = str_chars(input);
    let t = chars_trim(&cs);
    let trimmed = string_from_chars(&t);
    if trimmed.as_str().is_empty() {
        return Err(String::from_str("product path cannot be empty"));
    }
    proof {
        reveal_strlit("s3://");
        assert("s3://"@ =~= s3_scheme());
    }
    if str_starts_with(trimmed.as_str(), "s3://") {
        return Ok(OpenTarget::Zarr(trimmed));
    }
    let safe_here = is_safe_product_dir(trimmed.as_str());
    if safe_here {
        let r = open_target_after_probe(trimmed.as_str(), true, trimmed.as_str(), false, safe_support);
        proof {
            assert(target_view(r) == spec_open_target_after_probe(trimmed@, true, trimmed@, false, safe_support));
        }
        return r;
    }
    let resolved = resolve_zarr_product_path(trimmed.as_str());
    let safe_at_root = is_safe_product_dir(resolved.as_str());
    let r = open_target_after_probe(trimmed.as_str(), false, resolved.as_str(), safe_at_root, safe_support);
    proof {
        assert(target_view(r) == spec_open_target_after_probe(trimmed@, false, resolved@, safe_at_root, safe_support));
    }
    r
}

/// What opening a location does.
#[derive(Debug)]
pub enum OpenDecision {
    /// Nothing (a blank location).
    Ignore,
    /// The product is open already (under this root).
    AlreadyOpen(String),
    /// Open it (the trimmed location).
    Open(String),
}

fn contains_root(roots: &Vec<String>, root: &str) -> (r: bool)
    ensures
        r == exists|i: int| 0 <= i < roots@.len() && roots@[i]@ == root@,
{
    let mut i: usize = 0;
    while i < roots.len()
        invariant
            i <= roots.len(),
            forall|k: int| 0 <= k < i ==> roots@[k]@ != root@,
        decreases roots.len() - i,
    {
        if str_is(roots[i].as_str(), root) {
            return true;
        }
        i = i + 1;
    }
    false
}

/// Whether `c` is among the open roots.
pub open spec fn root_is_open(open_roots: Seq<String>, c: Seq<char>) -> bool {
    exists|i: int| 0 <= i < open_roots.len() && open_roots[i]@ == c
}

/// Whether to open `location` given the roots of the open products: a
/// blank location is ignored; an `s3://` URI, or the product root of a
/// local path (as resolved on disk), that is among them is open already;
/// anything else is opened.
pub fn open_path_decision(location: &str, open_roots: &Vec<String>) -> (r: OpenDecision)
    ensures
        trim_ws(location@).len() == 0 ==> r is Ignore,
        trim_ws(location@).len() > 0 && seq_starts_with(trim_ws(location@), s3_scheme()) ==> if root_is_open(
            open_roots@,
            trim_ws(location@),
        ) {
            r matches OpenDecision::AlreadyOpen(p) && p@ == trim_ws(location@)
        } else {
            r matches OpenDecision::Open(p) && p@ == trim_ws(location@)
        },
        trim_ws(location@).len() > 0 && !seq_starts_with(trim_ws(location@), s3_scheme()) ==> exists|
            c: Seq<char>,
        |
            resolved_root(trim_ws(location@), c) && if root_is_open(open_roots@, c) {
                r matches OpenDecision::AlreadyOpen(p) && p@ == c
            } else {
                r matches OpenDecision::Open(p) && p@ == trim_ws(location@)
            },
        trim_ws(location@).len() > 0 && !seq_starts_with(trim_ws(location@), s3_scheme())
            && has_zarr_file_name(trim_ws(location@)) ==> if root_is_open(open_roots@, trim_ws(location@)) {
            r matches OpenDecision::AlreadyOpen(p) && p@ == trim_ws(location@)
        } else {
            r matches OpenDecision::Open(p) && p@ == trim_ws(location@)
        },
{
    let cs = str_chars(location);
    let t = chars_trim(&cs);
    let trimmed = string_from_chars(&t);
    if trimmed.as_str().is_empty() {
        return OpenDecision::Ignore;
    }
    proof {
        reveal_strlit("s3://");
        assert("s3://"@ =~= s3_scheme());
    }
    if !str_starts_with(trimmed.as_str(), "s3://") {
        let canonical = resolve_zarr_product_path(trimmed.as_str());
        proof {
            assert(resolved_root(trimmed@, canonical@));
        }
        if contains_root(open_roots, canonical.as_str()) {
            return OpenDecision::AlreadyOpen(canonical);
        }
        return OpenDecision::Open(trimmed);
    } else if contains_root(open_roots, trimmed.as_str()) {
        return OpenDecision::AlreadyOpen(trimmed);
    }
    OpenDecision::Open(trimmed)
}

/// The name a product is shown under: for an `s3://` URI its last
/// non-empty path segment; else the final component of its path; else
/// `product`.
pub open spec fn spec_product_name(root: Seq<char>) -> Option<Seq<char>> {
    if seq_starts_with(root, s3_scheme()) {
        let rest = root.subrange(5, root.len() as int);
        let last = match rsplit_once_char(rest, '/') {
            Some((_, b)) => b,
            None => rest,
        };
        if last.len() > 0 {
            Some(last)
        } else {
            None
        }
    } else {
        None
    }
}

pub fn product_name(root: &str) -> (r: String)
    ensures
        spec_product_name(root@) matches Some(n) ==> r@ == n,
        spec_product_name(root@) is None ==> match path_file_name_of(root@) {
            Some(n) => r@ == n,
            None => r@ == "product"@,
        },
{
    proof {
        reveal_strlit("s3://");
        assert("s3://"@ =~= s3_scheme());
    }
    if str_starts_with(root, "s3://") {
        let cs = str_chars(root);
        let rest = crate::text::chars_slice(&cs, 5, cs.len());
        let last = match chars_rsplit_once(&rest, '/') {
            Some((_, b)) => b,
            None => rest,
        };
        if last.len() > 0 {
            return string_from_chars(&last);
        }
    }
    match path_file_name(root) {
        Some(n) => n,
        None => String::from_str("product"),
    }
}

} // verus!
