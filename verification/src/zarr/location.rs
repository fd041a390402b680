//! Product locations: local paths and `s3://bucket/prefix` URIs.
use vstd::prelude::*;

use crate::host::{
    path_exists, path_file_name, path_is_dir, path_is_file, path_join, path_parent,
    path_file_name_of, path_join_of, path_parent_of,
};
use crate::text::{
    is_ws, lead_ws, trail_ws, trim_start_ws, lead_char, trail_char, trim_start_char,
    lemma_find_char_none, lemma_find_char_unique,
    chars_end_with, chars_rsplit_once, chars_slice, chars_split_once, chars_start_with,
    chars_trim, chars_trim_char, chars_concat, lemma_rfind_char, rsplit_once_char,
    seq_ends_with, seq_starts_with, split_once_char, str_chars, string_from_chars, trim_char,
    trim_ws,
};

verus! {

/// Where a product lives: a local path or a prefix inside an S3 bucket.
#[derive(Debug, Clone, PartialEq, Eq)]
pub enum ProductLocation {
    Local(String),
    S3 { bucket: String, prefix: String },
}

/// A product location reduced to its Zarr root, with its canonical identifier.
#[derive(Debug, Clone, PartialEq, Eq)]
pub struct ResolvedProduct {
    pub canonical_id: String,
    pub location: ProductLocation,
}

/// Abstract value of a product location.
pub enum LocationView {
    Local(Seq<char>),
    S3(Seq<char>, Seq<char>),
}

impl View for ProductLocation {
    type V = LocationView;

    open spec fn view(&self) -> LocationView {
        match self {
            ProductLocation::Local(p) => LocationView::Local(p@),
            ProductLocation::S3 { bucket, prefix } => LocationView::S3(bucket@, prefix@),
        }
    }
}

/// Why a location string was refused.
#[derive(Debug, Clone, Copy, PartialEq, Eq)]
pub enum LocationError {
    /// The input is empty once surrounding whitespace is removed.
    Empty,
    /// An `s3://` URI with no bucket name.
    MissingBucket,
}

impl LocationError {
    pub fn message(&self) -> (r: String)
        ensures
            r@ == location_error_text(*self),
    {
        match self {
            LocationError::Empty => String::from_str("product location cannot be empty"),
            LocationError::MissingBucket => String::from_str(
                "invalid s3 URI: missing bucket name",
            ),
        }
    }
}

pub open spec fn location_error_text(e: LocationError) -> Seq<char> {
    match e {
        LocationError::Empty => "product location cannot be empty"@,
        LocationError::MissingBucket => "invalid s3 URI: missing bucket name"@,
    }
}

pub open spec fn s3_scheme() -> Seq<char> {
    seq!['s', '3', ':', '/', '/']
}

/// Bucket and prefix of the text that follows `s3://`.
pub open spec fn spec_parse_s3_uri(rest: Seq<char>) -> Result<LocationView, LocationError> {
    if rest.len() == 0 {
        Err(LocationError::MissingBucket)
    } else {
        match split_once_char(rest, '/') {
            Some((bucket, prefix)) => if bucket.len() == 0 {
                Err(LocationError::MissingBucket)
            } else {
                Ok(LocationView::S3(bucket, trim_char(prefix, '/')))
            },
            None => Ok(LocationView::S3(rest, Seq::empty())),
        }
    }
}

/// The location a user-typed string denotes.
pub open spec fn spec_parse_product_location(input: Seq<char>) -> Result<
    LocationView,
    LocationError,
> {
    let t = trim_ws(input);
    if t.len() == 0 {
        Err(LocationError::Empty)
    } else if seq_starts_with(t, s3_scheme()) {
        spec_parse_s3_uri(t.subrange(5, t.len() as int))
    } else {
        Ok(LocationView::Local(t))
    }
}

/// `s3://bucket` or `s3://bucket/prefix`.
pub open spec fn spec_format_s3_uri(bucket: Seq<char>, prefix: Seq<char>) -> Seq<char> {
    if prefix.len() == 0 {
        s3_scheme() + bucket
    } else {
        s3_scheme() + bucket + seq!['/'] + prefix
    }
}

/// The prefix one level up, or `None` for the bucket root.
pub open spec fn spec_parent_prefix(prefix: Seq<char>) -> Option<Seq<char>> {
    if prefix.len() == 0 {
        None
    } else {
        match rsplit_once_char(prefix, '/') {
            Some((parent, _)) => Some(parent),
            None => Some(Seq::empty()),
        }
    }
}

pub fn clone_string(s: &String) -> (r: String)
    ensures
        r@ == s@,
{
    s.clone()
}

fn parse_s3_uri(rest: &[char]) -> (r: Result<ProductLocation, LocationError>)
    ensures
        match r {
            Ok(loc) => spec_parse_s3_uri(rest@) == Ok::<LocationView, LocationError>(loc@),
            Err(e) => spec_parse_s3_uri(rest@) == Err::<LocationView, LocationError>(e),
        },
{
    if rest.len() == 0 {
        return Err(LocationError::MissingBucket);
    }
    match chars_split_once(rest, '/') {
        Some((bucket, prefix)) => {
            if bucket.len() == 0 {
                Err(LocationError::MissingBucket)
            } else {
                let p = normalize_prefix(&prefix);
                Ok(ProductLocation::S3 { bucket: string_from_chars(&bucket), prefix: p })
            }
        },
        None => Ok(ProductLocation::S3 { bucket: string_from_chars(rest), prefix: String::new() }),
    }
}

fn normalize_prefix(prefix: &[char]) -> (r: String)
    ensures
        r@ == trim_char(prefix@, '/'),
{
    let t = chars_trim_char(prefix, '/');
    string_from_chars(&t)
}

/// Parse a user-provided product location string (local path or `s3://` URI).
pub fn parse_product_location(input: &str) -> (r: Result<ProductLocation, LocationError>)
    ensures
        match r {
            Ok(loc) => spec_parse_product_location(input@) == Ok::<LocationView, LocationError>(
                loc@,
            ),
            Err(e) => spec_parse_product_location(input@) == Err::<LocationView, LocationError>(
                e,
            ),
        },
{
    let chars = str_chars(input);
    let t = chars_trim(&chars);
    if t.len() == 0 {
        return Err(LocationError::Empty);
    }
    let scheme = str_chars("s3://");
    proof {
        reveal_strlit("s3://");
        assert(scheme@ =~= s3_scheme());
    }
    if chars_start_with(&t, &scheme) {
        let rest = chars_slice(&t, 5, t.len());
        return parse_s3_uri(&rest);
    }
    Ok(ProductLocation::Local(string_from_chars(&t)))
}

/// `s3://bucket`, or `s3://bucket/prefix` when the prefix is not empty.
pub fn format_s3_uri(bucket: &str, prefix: &str) -> (r: String)
    ensures
        r@ == spec_format_s3_uri(bucket@, prefix@),
{
    let scheme = str_chars("s3://");
    proof {
        reveal_strlit("s3://");
        assert(scheme@ =~= s3_scheme());
    }
    let b = str_chars(bucket);
    let p = str_chars(prefix);
    let head = chars_concat(&scheme, &b);
    if p.len() == 0 {
        string_from_chars(&head)
    } else {
        let slash = vec!['/'];
        let with_slash = chars_concat(&head, &slash);
        let all = chars_concat(&with_slash, &p);
        string_from_chars(&all)
    }
}

/// The S3 prefix one level up (`""` at the first level), or `None` for `""`.
pub fn parent_prefix(prefix: &str) -> (r: Option<String>)
    ensures
        match r {
            Some(p) => spec_parent_prefix(prefix@) == Some(p@),
            None => spec_parent_prefix(prefix@) is None,
        },
{
    let p = str_chars(prefix);
    if p.len() == 0 {
        return None;
    }
    match chars_rsplit_once(&p, '/') {
        Some((parent, _)) => Some(string_from_chars(&parent)),
        None => Some(String::new()),
    }
}

/// A directory is a Zarr root when it holds `.zgroup` or `.zmetadata`.
pub open spec fn spec_zarr_root_verdict(is_dir: bool, has_zgroup: bool, has_zmetadata: bool) -> bool {
    is_dir && (has_zgroup || has_zmetadata)
}

/// Whether a path is a Zarr root, from what the disk said of it: whether it
/// is a directory, holds `.zgroup`, and holds `.zmetadata`.
pub fn zarr_root_verdict(is_dir: bool, has_zgroup: bool, has_zmetadata: bool) -> (r: bool)
    ensures
        r == spec_zarr_root_verdict(is_dir, has_zgroup, has_zmetadata),
{
    is_dir && (has_zgroup || has_zmetadata)
}

/// The two Zarr group markers inside `dir`: `dir/.zgroup` and `dir/.zmetadata`.
pub fn zarr_marker_paths(dir: &str) -> (r: (String, String))
    ensures
        r.0@ == path_join_of(dir@, ".zgroup"@),
        r.1@ == path_join_of(dir@, ".zmetadata"@),
{
    (path_join(dir, ".zgroup"), path_join(dir, ".zmetadata"))
}

/// Whether a local directory holds a Zarr group marker (`.zgroup` or
/// `.zmetadata`). The disk is asked whether `path` is a directory, then
/// (only for a directory) whether the markers of `zarr_marker_paths` exist,
/// `.zmetadata` only when `.zgroup` does not; the verdict on the answers is
/// `zarr_root_verdict`'s. What the disk answers is not known here.
pub fn is_local_zarr_root(path: &str) -> (r: bool)
    ensures
        exists|is_dir: bool, has_zgroup: bool, has_zmetadata: bool|
            r == spec_zarr_root_verdict(is_dir, has_zgroup, has_zmetadata),
{
    let is_dir = path_is_dir(path);
    if !is_dir {
        return zarr_root_verdict(false, false, false);
    }
    let (zgroup, zmeta) = zarr_marker_paths(path);
    let has_zgroup = path_exists(zgroup.as_str());
    let has_zmetadata = if has_zgroup {
        false
    } else {
        path_exists(zmeta.as_str())
    };
    zarr_root_verdict(true, has_zgroup, has_zmetadata)
}

/// Whether the final component of the path (as text) ends with `.zarr`.
pub open spec fn has_zarr_file_name(path: Seq<char>) -> bool {
    match path_file_name_of(path) {
        Some(name) => seq_ends_with(name, ".zarr"@),
        None => false,
    }
}

fn file_name_ends_with_zarr(path: &str) -> (r: bool)
    ensures
        r == has_zarr_file_name(path@),
{
    match path_file_name(path) {
        Some(name) => {
            let n = str_chars(name.as_str());
            let suffix = str_chars(".zarr");
            chars_end_with(&n, &suffix)
        },
        None => false,
    }
}

/// Next move while searching a local path and its ancestors for the Zarr root.
#[derive(Debug, Clone, PartialEq, Eq)]
pub enum LocalRootStep {
    /// The root is this path.
    Found(String),
    /// Ask the disk whether this path is a Zarr root.
    Probe(String),
    /// No ancestor is left to try.
    NotFound,
}

pub enum LocalRootStepView {
    Found(Seq<char>),
    Probe(Seq<char>),
    NotFound,
}

impl View for LocalRootStep {
    type V = LocalRootStepView;

    open spec fn view(&self) -> LocalRootStepView {
        match self {
            LocalRootStep::Found(p) => LocalRootStepView::Found(p@),
            LocalRootStep::Probe(p) => LocalRootStepView::Probe(p@),
            LocalRootStep::NotFound => LocalRootStepView::NotFound,
        }
    }
}

/// The move after the disk answered whether `current` is a Zarr root: it is
/// the root when the disk says so or its name ends with `.zarr`; otherwise
/// its parent is tried next, and without a parent the search is over.
pub open spec fn spec_local_root_after_probe(current: Seq<char>, is_root: bool) -> LocalRootStepView {
    if is_root || has_zarr_file_name(current) {
        LocalRootStepView::Found(current)
    } else {
        match path_parent_of(current) {
            Some(parent) => LocalRootStepView::Probe(parent),
            None => LocalRootStepView::NotFound,
        }
    }
}

/// Move of the local root search after the disk answered whether `current`
/// holds `.zgroup` or `.zmetadata`.
pub fn local_root_after_probe(current: &str, is_root: bool) -> (r: LocalRootStep)
    ensures
        r@ == spec_local_root_after_probe(current@, is_root),
        r matches LocalRootStep::Probe(p) ==> p@.len() < current@.len(),
{
    if is_root || file_name_ends_with_zarr(current) {
        return LocalRootStep::Found(clone_path(current));
    }
    match path_parent(current) {
        Some(parent) => LocalRootStep::Probe(parent),
        None => LocalRootStep::NotFound,
    }
}

/// The `k`-th candidate of the search: the path itself, then its parent,
/// its parent's parent, and so on.
pub open spec fn chain_at(path: Seq<char>, k: nat) -> Option<Seq<char>>
    decreases k,
{
    if k == 0 {
        Some(path)
    } else {
        match chain_at(path, (k - 1) as nat) {
            Some(c) => path_parent_of(c),
            None => None,
        }
    }
}

/// The search gets as far as the `k`-th candidate: it exists, and no
/// candidate before it is named `*.zarr`.
pub open spec fn search_reaches(path: Seq<char>, k: nat) -> bool {
    &&& chain_at(path, k) is Some
    &&& forall|j: nat| j < k ==> (#[trigger] chain_at(path, j) matches Some(c) && !has_zarr_file_name(c))
}

/// The search run with the disk's answers `answers` (one per candidate
/// probed, in order): each step is `spec_local_root_after_probe`'s; the
/// search ends at a root (`Some` of it) or with no candidate left (`Some`
/// of `path`), and is `None` when the answers run out first.
pub open spec fn run_search(path: Seq<char>, current: Seq<char>, answers: Seq<bool>) -> Option<Seq<char>>
    decreases answers.len(),
{
    if answers.len() == 0 {
        None
    } else {
        match spec_local_root_after_probe(current, answers[0]) {
            LocalRootStepView::Found(c) => Some(c),
            LocalRootStepView::Probe(p) => run_search(path, p, answers.drop_first()),
            LocalRootStepView::NotFound => Some(path),
        }
    }
}

/// The resolved root of `path` for the disk's answers: `path` itself when it
/// is a regular file, else the result of the search from `path`.
pub open spec fn spec_resolve_search(path: Seq<char>, is_file: bool, answers: Seq<bool>) -> Option<Seq<char>> {
    if is_file {
        Some(path)
    } else {
        run_search(path, path, answers)
    }
}

/// What holds of the resolved root `r` of `path` whatever the disk says: a
/// path named `*.zarr` is its own root; the root is the path or a candidate
/// the search reaches; and the search stops at the first candidate named
/// `*.zarr` at the latest.
pub open spec fn resolved_root(path: Seq<char>, r: Seq<char>) -> bool {
    &&& r == path || is_ancestor(r, path)
    &&& has_zarr_file_name(path) ==> r == path
    &&& r == path || exists|k: nat| search_reaches(path, k) && chain_at(path, k) == Some(r)
    &&& forall|j: nat|
        search_reaches(path, j) && has_zarr_file_name(#[trigger] chain_at(path, j)->0) ==> exists|k: nat|
            k <= j && chain_at(path, k) == Some(r)
}

proof fn lemma_chain_ends(path: Seq<char>, k: nat, j: nat)
    requires
        chain_at(path, k) is None,
        k <= j,
    ensures
        chain_at(path, j) is None,
    decreases j - k,
{
    if j > k {
        lemma_chain_ends(path, k, (j - 1) as nat);
    }
}

/// Normalize a user-selected path to the Zarr product root (`.zarr` directory
/// or `.zarr.zip` file).
///
/// A regular file is kept as it is. Otherwise the path and its ancestors are
/// tried in turn, each step decided by `local_root_after_probe` from the
/// disk's answer: the first one that is a Zarr root on disk or whose final
/// component ends with `.zarr` is returned; when none is, the input itself.
pub fn resolve_zarr_product_path(path: &str) -> (r: String)
    ensures
        resolved_root(path@, r@),
        exists|is_file: bool, answers: Seq<bool>| spec_resolve_search(path@, is_file, answers) == Some(r@),
{
    if path_is_file(path) {
        let r = clone_path(path);
        proof {
            assert(spec_resolve_search(path@, true, Seq::empty()) == Some(r@));
            assert(chain_at(path@, 0) == Some(path@));
            assert forall|j: nat|
                search_reaches(path@, j) && has_zarr_file_name(#[trigger] chain_at(path@, j)->0) implies exists|k: nat|
                k <= j && chain_at(path@, k) == Some(r@) by {
                assert(chain_at(path@, 0) == Some(r@));
            }
        }
        return r;
    }
    let mut current = clone_path(path);
    let ghost mut k: nat = 0;
    let ghost mut answers: Seq<bool> = Seq::empty();
    proof {
        assert(chain_at(path@, 0) == Some(path@));
        assert forall|x: Seq<bool>| #[trigger] run_search(path@, path@, answers + x) == run_search(path@, path@, x) by {
            assert(answers + x =~= x);
        }
    }
    loop
        invariant
            current@ == path@ || is_ancestor(current@, path@),
            search_reaches(path@, k),
            chain_at(path@, k) == Some(current@),
            forall|x: Seq<bool>| #[trigger] run_search(path@, path@, answers + x) == run_search(path@, current@, x),
        decreases current@.len(),
    {
        let is_root = is_local_zarr_root(current.as_str());
        let ghost one = seq![is_root];
        proof {
            assert(run_search(path@, path@, answers + one) == run_search(path@, current@, one));
            assert(one.drop_first() =~= Seq::<bool>::empty());
        }
        match local_root_after_probe(current.as_str(), is_root) {
            LocalRootStep::Found(c) => {
                proof {
                    assert(spec_resolve_search(path@, false, answers + one) == Some(c@));
                    assert(c@ == current@);
                    if k > 0 {
                        assert(chain_at(path@, 0) == Some(path@));
                        assert(!has_zarr_file_name(path@));
                    }
                    assert forall|j: nat|
                        search_reaches(path@, j) && has_zarr_file_name(#[trigger] chain_at(path@, j)->0) implies exists|
                        k2: nat,
                    | k2 <= j && chain_at(path@, k2) == Some(c@) by {
                        if j < k {
                            assert(chain_at(path@, j) matches Some(cc) && !has_zarr_file_name(cc));
                        }
                    }
                }
                return c;
            },
            LocalRootStep::Probe(parent) => {
                proof {
                    let old_answers = answers;
                    assert forall|x: Seq<bool>| #[trigger] run_search(path@, path@, old_answers.push(is_root) + x)
                        == run_search(path@, parent@, x) by {
                        assert(old_answers.push(is_root) + x =~= old_answers + (one + x));
                        assert(run_search(path@, path@, old_answers + (one + x)) == run_search(path@, current@, one + x));
                        assert((one + x)[0] == is_root);
                        assert((one + x).drop_first() =~= x);
                    }
                    answers = old_answers.push(is_root);
                    assert(path_parent_of(current@) == Some(parent@));
                    assert(!has_zarr_file_name(current@));
                    lemma_ancestor_step(parent@, current@, path@);
                    assert(chain_at(path@, k + 1) == Some(parent@));
                    assert forall|j: nat| j < k + 1 implies (#[trigger] chain_at(path@, j) matches Some(c)
                        && !has_zarr_file_name(c)) by {
                        if j < k {
                        }
                    }
                    k = k + 1;
                }
                current = parent;
            },
            LocalRootStep::NotFound => {
                let r = clone_path(path);
                proof {
                    assert(spec_resolve_search(path@, false, answers + one) == Some(r@));
                    assert(!has_zarr_file_name(current@));
                    assert(path_parent_of(current@) is None);
                    assert(chain_at(path@, k + 1) is None);
                    assert(chain_at(path@, 0) == Some(path@));
                    if k > 0 {
                        assert(!has_zarr_file_name(path@));
                    }
                    assert forall|j: nat|
                        search_reaches(path@, j) && has_zarr_file_name(#[trigger] chain_at(path@, j)->0) implies exists|
                        k2: nat,
                    | k2 <= j && chain_at(path@, k2) == Some(r@) by {
                        if j < k {
                            assert(chain_at(path@, j) matches Some(cc) && !has_zarr_file_name(cc));
                        } else if j == k {
                        } else {
                            lemma_chain_ends(path@, k + 1, j);
                        }
                    }
                }
                return r;
            },
        }
    }
}

fn clone_path(path: &str) -> (r: String)
    ensures
        r@ == path@,
{
    String::from_str(path)
}

/// `anc` is reached from `path` by taking `Path::parent` one or more times.
pub open spec fn is_ancestor(anc: Seq<char>, path: Seq<char>) -> bool
    decreases path.len(),
{
    match path_parent_of(path) {
        Some(p) => if p.len() < path.len() {
            p == anc || is_ancestor(anc, p)
        } else {
            false
        },
        None => false,
    }
}

proof fn lemma_ancestor_step(parent: Seq<char>, current: Seq<char>, path: Seq<char>)
    requires
        current == path || is_ancestor(current, path),
        path_parent_of(current) == Some(parent),
        parent.len() < current.len(),
    ensures
        is_ancestor(parent, path),
    decreases path.len(),
{
    assert(is_ancestor(parent, current));
    if current == path {
    } else {
        let p = path_parent_of(path)->0;
        if p == current {
            assert(is_ancestor(parent, p));
        } else {
            lemma_ancestor_step(parent, current, p);
        }
        assert(is_ancestor(parent, path));
    }
}

/// Canonical identifier and location for a local product: its resolved root.
pub fn resolve_local_product(path: &str) -> (r: ResolvedProduct)
    ensures
        resolved_root(path@, r.canonical_id@),
        r.location@ == LocationView::Local(r.canonical_id@),
{
    let resolved = resolve_zarr_product_path(path);
    let id = clone_string(&resolved);
    ResolvedProduct { canonical_id: id, location: ProductLocation::Local(resolved) }
}

/// Canonical identifier and location for an S3 product whose Zarr root prefix
/// has been found.
pub fn resolved_s3_product(bucket: &str, root_prefix: &str) -> (r: ResolvedProduct)
    ensures
        r.canonical_id@ == spec_format_s3_uri(bucket@, root_prefix@),
        r.location@ == LocationView::S3(bucket@, root_prefix@),
{
    let id = format_s3_uri(bucket, root_prefix);
    ResolvedProduct {
        canonical_id: id,
        location: ProductLocation::S3 {
            bucket: String::from_str(bucket),
            prefix: String::from_str(root_prefix),
        },
    }
}

/// Next move while searching an S3 prefix and its ancestors for the Zarr root.
#[derive(Debug, Clone, PartialEq, Eq)]
pub enum S3RootStep {
    /// The root is this prefix.
    Found(String),
    /// Ask the store whether this prefix holds `.zgroup` or `.zmetadata`.
    Probe(String),
    /// No ancestor is left to try.
    NotFound,
}

pub enum S3RootStepView {
    Found(Seq<char>),
    Probe(Seq<char>),
    NotFound,
}

impl View for S3RootStep {
    type V = S3RootStepView;

    open spec fn view(&self) -> S3RootStepView {
        match self {
            S3RootStep::Found(p) => S3RootStepView::Found(p@),
            S3RootStep::Probe(p) => S3RootStepView::Probe(p@),
            S3RootStep::NotFound => S3RootStepView::NotFound,
        }
    }
}

/// What to do with a prefix about to be tried: a `.zarr` name is the root
/// without asking the store; anything else is probed.
pub open spec fn spec_s3_root_try(prefix: Seq<char>) -> S3RootStepView {
    if seq_ends_with(prefix, ".zarr"@) {
        S3RootStepView::Found(prefix)
    } else {
        S3RootStepView::Probe(prefix)
    }
}

/// First move of the S3 root search, for the user's prefix.
pub fn s3_root_first_step(prefix: &str) -> (r: S3RootStep)
    ensures
        r@ == spec_s3_root_try(prefix@),
{
    let p = str_chars(prefix);
    let suffix = str_chars(".zarr");
    if chars_end_with(&p, &suffix) {
        S3RootStep::Found(String::from_str(prefix))
    } else {
        S3RootStep::Probe(String::from_str(prefix))
    }
}

/// Move after the store answered whether `current` holds a Zarr group marker.
pub fn s3_root_after_probe(current: &str, is_root: bool) -> (r: S3RootStep)
    ensures
        is_root ==> r@ == S3RootStepView::Found(current@),
        !is_root ==> match spec_parent_prefix(current@) {
            Some(parent) => r@ == spec_s3_root_try(parent),
            None => r@ == S3RootStepView::NotFound,
        },
{
    if is_root {
        return S3RootStep::Found(String::from_str(current));
    }
    match parent_prefix(current) {
        Some(parent) => s3_root_first_step(parent.as_str()),
        None => S3RootStep::NotFound,
    }
}

/// How far `resolve_product_location` gets without asking an S3 store.
#[derive(Debug, Clone, PartialEq, Eq)]
pub enum Resolution {
    /// The location is resolved.
    Done(ResolvedProduct),
    /// An S3 location whose Zarr root is still to be searched, starting with `step`.
    SearchS3 { bucket: String, prefix: String, step: S3RootStep },
}

/// Normalize a product location to its Zarr root and canonical identifier.
///
/// A local path is resolved on disk (`resolve_zarr_product_path`). For an S3
/// location the first step of the root search is returned; the caller runs
/// the search (`s3_root_after_probe`) and finishes with `resolved_s3_product`.
pub fn resolve_product_location(loc: ProductLocation) -> (r: Resolution)
    ensures
        match loc@ {
            LocationView::Local(p) => r matches Resolution::Done(res) && resolved_root(p, res.canonical_id@)
                && res.location@ == LocationView::Local(
                res.canonical_id@,
            ),
            LocationView::S3(b, pre) => r matches Resolution::SearchS3 { bucket, prefix, step }
                && bucket@ == b && prefix@ == pre && step@ == spec_s3_root_try(pre),
        },
{
    match loc {
        ProductLocation::Local(p) => Resolution::Done(resolve_local_product(p.as_str())),
        ProductLocation::S3 { bucket, prefix } => {
            let step = s3_root_first_step(prefix.as_str());
            Resolution::SearchS3 { bucket, prefix, step }
        },
    }
}

pub open spec fn s3_root_not_found_text(bucket: Seq<char>, prefix: Seq<char>) -> Seq<char> {
    "could not find zarr root under s3://"@ + bucket + seq!['/'] + prefix
        + " (no .zgroup, .zmetadata, or .zarr suffix found)"@
}

/// The error text when no prefix from `prefix` up to the bucket root is a Zarr root.
pub fn s3_root_not_found(bucket: &str, prefix: &str) -> (r: String)
    ensures
        r@ == s3_root_not_found_text(bucket@, prefix@),
{
    let a = str_chars("could not find zarr root under s3://");
    let b = str_chars(bucket);
    let c = str_chars("/");
    let d = str_chars(prefix);
    let e = str_chars(" (no .zgroup, .zmetadata, or .zarr suffix found)");
    let ab = chars_concat(&a, &b);
    let abc = chars_concat(&ab, &c);
    let abcd = chars_concat(&abc, &d);
    let all = chars_concat(&abcd, &e);
    proof {
        reveal_strlit("/");
    }
    string_from_chars(&all)
}

/// Each step of the S3 root search moves to a strictly shorter prefix, so the
/// search ends.
pub proof fn lemma_parent_prefix_shorter(prefix: Seq<char>)
    ensures
        spec_parent_prefix(prefix) matches Some(p) ==> p.len() < prefix.len(),
        spec_parent_prefix(prefix) is None <==> prefix.len() == 0,
{
    lemma_rfind_char(prefix, '/');
}

/// Parsing what `format_s3_uri` wrote gives back the bucket and prefix: for a
/// non-empty bucket without `/`, a prefix that neither starts nor ends with
/// `/`, and a URI that does not end in whitespace.
pub proof fn lemma_s3_uri_round_trip(bucket: Seq<char>, prefix: Seq<char>)
    requires
        bucket.len() > 0,
        !bucket.contains('/'),
        prefix.len() > 0 ==> prefix[0] != '/' && prefix.last() != '/',
        !is_ws(spec_format_s3_uri(bucket, prefix).last()),
    ensures
        spec_parse_product_location(spec_format_s3_uri(bucket, prefix)) == Ok::<
            LocationView,
            LocationError,
        >(LocationView::S3(bucket, prefix)),
{
    let u = spec_format_s3_uri(bucket, prefix);
    assert(u[0] == 's');
    assert(lead_ws(u) == 0);
    assert(trail_ws(u) == 0);
    assert(trim_start_ws(u) =~= u);
    assert(trim_ws(u) =~= u);
    assert(u.subrange(0, 5) =~= s3_scheme());
    let rest = u.subrange(5, u.len() as int);
    if prefix.len() == 0 {
        assert(rest =~= bucket);
        assert forall|j: int| 0 <= j < rest.len() implies rest[j] != '/' by {
            if rest[j] == '/' {
                assert(bucket.contains(rest[j]));
            }
        }
        lemma_find_char_none(rest, '/');
        assert(prefix =~= Seq::<char>::empty());
        assert(spec_parse_s3_uri(rest) == Ok::<LocationView, LocationError>(
            LocationView::S3(bucket, prefix),
        ));
    } else {
        assert(rest =~= bucket + seq!['/'] + prefix);
        let k = bucket.len() as int;
        assert forall|j: int| 0 <= j < k implies rest[j] != '/' by {
            assert(rest[j] == bucket[j]);
            if rest[j] == '/' {
                assert(bucket.contains(rest[j]));
            }
        }
        lemma_find_char_unique(rest, '/', k);
        assert(rest.subrange(0, k) =~= bucket);
        assert(rest.subrange(k + 1, rest.len() as int) =~= prefix);
        assert(lead_char(prefix, '/') == 0);
        assert(trim_start_char(prefix, '/') =~= prefix);
        assert(trail_char(prefix, '/') == 0);
        assert(trim_char(prefix, '/') =~= prefix);
        assert(split_once_char(rest, '/') == Some((bucket, prefix)));
        assert(spec_parse_s3_uri(rest) == Ok::<LocationView, LocationError>(
            LocationView::S3(bucket, prefix),
        ));
    }
    assert(seq_starts_with(trim_ws(u), s3_scheme()));
    assert(trim_ws(u).subrange(5, trim_ws(u).len() as int) == rest);
}

} // verus!
