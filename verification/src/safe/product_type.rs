//! The EOPF product type of a Sentinel-3 SAFE product name.
use vstd::prelude::*;

use crate::cdse::extract::{is_safe_dir, spec_safe_dir, DirFacts};
use crate::host::{path_file_name, path_file_name_of, path_is_dir, path_is_file, path_join, path_join_of};
use crate::text::{chars_concat, contains_sub, seq_ends_with, str_chars, str_contains, str_ends_with, string_from_chars};

verus! {

/// What `str::to_uppercase` gives for a text (Unicode upper-case mapping).
pub uninterp spec fn uppercase_of(s: Seq<char>) -> Seq<char>;

/// `str::to_uppercase`.
#[verifier::external_body]
pub(crate) fn str_to_uppercase(s: &str) -> (r: String)
    ensures
        r@ == uppercase_of(s@),
{
    s.to_uppercase()
}

/// Sentinel-3 SAFE file name token → EOPF product type, in the order tried.
pub open spec fn s3_patterns() -> Seq<(Seq<char>, Seq<char>)> {
    seq![
        ("SL_2_LST"@, "S03SLSLST"@),
        ("SL_2_FRP"@, "S03SLSFRP"@),
        ("SL_1_RBT"@, "S03SLSRBT"@),
        ("OL_2_LFR"@, "S03OLCLFR"@),
        ("OL_2_LRR"@, "S03OLCLRR"@),
        ("OL_2_WFR"@, "S03OLCLFR"@),
        ("OL_2_WRR"@, "S03OLCLRR"@),
        ("OL_1_EFR"@, "S03OLCEFR"@),
        ("OL_1_ERR"@, "S03OLCERR"@),
        ("OL_1_SPC"@, "S03OLCSPC"@),
        ("OL_1_RAC"@, "S03OLCRAC"@),
        ("SY_2_AOD"@, "S03SYNAOD"@),
        ("SY_2_VGP"@, "S03SYNVGT"@),
        ("SY_2_VG1"@, "S03SYNV01"@),
        ("SY_2_V10"@, "S03SYNV10"@),
        ("SY_2_VGK"@, "S03SYNVGK"@),
        ("SY_2_SDR"@, "S03SYNSDR"@),
    ]
}

/// The type of the first pattern (from index `k` on) whose token occurs in `upper`.
pub open spec fn first_pattern(upper: Seq<char>, k: int) -> Option<Seq<char>>
    decreases 17 - k,
{
    if k < 0 || k >= 17 {
        None
    } else if contains_sub(upper, s3_patterns()[k].0) {
        Some(s3_patterns()[k].1)
    } else {
        first_pattern(upper, k + 1)
    }
}

/// Why a name has no product type.
#[derive(Clone, Debug, PartialEq, Eq)]
pub enum ProductTypeError {
    /// The name does not mention `S3`.
    NotSentinel3(String),
    /// No known product token occurs in the name.
    Unsupported(String),
}

pub open spec fn product_type_error_text(e: ProductTypeError) -> Seq<char> {
    match e {
        ProductTypeError::NotSentinel3(n) => "not a Sentinel-3 SAFE product name: "@ + n@,
        ProductTypeError::Unsupported(n) => "unsupported Sentinel-3 SAFE product type for "@ + n@,
    }
}

impl ProductTypeError {
    pub fn message(&self) -> (r: String)
        ensures
            r@ == product_type_error_text(*self),
    {
        let (lead, name) = match self {
            ProductTypeError::NotSentinel3(n) => ("not a Sentinel-3 SAFE product name: ", n),
            ProductTypeError::Unsupported(n) => ("unsupported Sentinel-3 SAFE product type for ", n),
        };
        let a = str_chars(lead);
        let b = str_chars(name.as_str());
        let all = chars_concat(&a, &b);
        string_from_chars(&all)
    }
}

fn pattern(k: usize) -> (r: (&'static str, &'static str))
    requires
        k < 17,
    ensures
        r.0@ == s3_patterns()[k as int].0,
        r.1@ == s3_patterns()[k as int].1,
{
    if k == 0 { ("SL_2_LST", "S03SLSLST") }
    else if k == 1 { ("SL_2_FRP", "S03SLSFRP") }
    else if k == 2 { ("SL_1_RBT", "S03SLSRBT") }
    else if k == 3 { ("OL_2_LFR", "S03OLCLFR") }
    else if k == 4 { ("OL_2_LRR", "S03OLCLRR") }
    else if k == 5 { ("OL_2_WFR", "S03OLCLFR") }
    else if k == 6 { ("OL_2_WRR", "S03OLCLRR") }
    else if k == 7 { ("OL_1_EFR", "S03OLCEFR") }
    else if k == 8 { ("OL_1_ERR", "S03OLCERR") }
    else if k == 9 { ("OL_1_SPC", "S03OLCSPC") }
    else if k == 10 { ("OL_1_RAC", "S03OLCRAC") }
    else if k == 11 { ("SY_2_AOD", "S03SYNAOD") }
    else if k == 12 { ("SY_2_VGP", "S03SYNVGT") }
    else if k == 13 { ("SY_2_VG1", "S03SYNV01") }
    else if k == 14 { ("SY_2_V10", "S03SYNV10") }
    else if k == 15 { ("SY_2_VGK", "S03SYNVGK") }
    else { ("SY_2_SDR", "S03SYNSDR") }
}

/// Detect the EOPF product type from a `.SEN3` directory or file name: the
/// upper-cased name must mention `S3`, and the type is that of the first
/// known token it contains.
pub fn detect_product_type(name: &str) -> (r: Result<String, ProductTypeError>)
    ensures
        !contains_sub(uppercase_of(name@), "S3"@) ==> (r matches Err(
            ProductTypeError::NotSentinel3(n),
        ) && n@ == name@),
        contains_sub(uppercase_of(name@), "S3"@) ==> match first_pattern(uppercase_of(name@), 0) {
            Some(t) => r matches Ok(s) && s@ == t,
            None => r matches Err(ProductTypeError::Unsupported(n)) && n@ == name@,
        },
{
    let upper = str_to_uppercase(name);
    if !str_contains(upper.as_str(), "S3") {
        return Err(ProductTypeError::NotSentinel3(String::from_str(name)));
    }
    let mut k: usize = 0;
    while k < 17
        invariant
            k <= 17,
            upper@ == uppercase_of(name@),
            contains_sub(upper@, "S3"@),
            first_pattern(upper@, 0) == first_pattern(upper@, k as int),
        decreases 17 - k,
    {
        let (token, ptype) = pattern(k);
        if str_contains(upper.as_str(), token) {
            return Ok(String::from_str(ptype));
        }
        k = k + 1;
    }
    Err(ProductTypeError::Unsupported(String::from_str(name)))
}

/// The SAFE manifest inside `dir`: `dir/xfdumanifest.xml`.
pub fn safe_manifest_path(dir: &str) -> (r: String)
    ensures
        r@ == path_join_of(dir@, "xfdumanifest.xml"@),
{
    path_join(dir, "xfdumanifest.xml")
}

/// Returns `true` when `path` is a Sentinel-3 SAFE product directory: a
/// directory named `*.SEN3` that holds `xfdumanifest.xml`. The disk is asked
/// whether `path` is a directory and, only when it is one and the name fits,
/// whether `safe_manifest_path(path)` is a file; the answers are gathered as
/// `DirFacts` and the verdict is `is_safe_dir`'s.
pub fn is_safe_product_dir(path: &str) -> (r: bool)
    ensures
        r ==> (path_file_name_of(path@) matches Some(n) && seq_ends_with(n, ".SEN3"@)),
        exists|f: DirFacts|
            f.path@ == path@ && opt_name_view(f.name) == path_file_name_of(path@) && r == spec_safe_dir(f),
{
    let is_dir = path_is_dir(path);
    let name = path_file_name(path);
    let named = match &name {
        Some(n) => str_ends_with(n.as_str(), ".SEN3"),
        None => false,
    };
    let has_manifest = if is_dir && named {
        let manifest = safe_manifest_path(path);
        path_is_file(manifest.as_str())
    } else {
        false
    };
    // Only the SAFE test is made here, so the Zarr metadata is not looked for.
    let facts = DirFacts {
        path: String::from_str(path),
        name,
        is_dir,
        has_zarr_metadata: false,
        has_safe_manifest: has_manifest,
    };
    let r = is_safe_dir(&facts);
    proof {
        assert(opt_name_view(facts.name) == path_file_name_of(path@));
    }
    r
}

/// A file name as text.
pub open spec fn opt_name_view(n: Option<String>) -> Option<Seq<char>> {
    match n {
        Some(s) => Some(s@),
        None => None,
    }
}

} // verus!
