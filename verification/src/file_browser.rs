//! The in-app file and S3 browser of the open-product dialog: locations,
//! entries, navigation, and where browsing starts.
use vstd::prelude::*;

use crate::host::{path_file_name, path_file_name_of, path_is_dir, path_join, path_parent, path_parent_of};
use crate::order::{lex_le, sort_by_key, SortKey, chars_lex_le, sorted_by_key};
use crate::text::{
    chars_trim, seq_ends_with, seq_starts_with, str_chars, str_ends_with, str_starts_with,
    string_from_chars, trim_ws,
};
use crate::zarr::location::{
    clone_string, format_s3_uri, parent_prefix, parse_product_location, s3_scheme,
    spec_format_s3_uri, spec_parent_prefix, spec_parse_product_location, LocationView,
    ProductLocation,
};

verus! {

/// Current browse location in the open-product dialog.
#[derive(Clone, Debug, PartialEq, Eq)]
pub enum BrowserLocation {
    /// Local directory path.
    Local(String),
    /// Top-level list of buckets from the S3 config file.
    S3Root,
    /// A prefix within a configured S3 bucket.
    S3 { bucket: String, prefix: String },
}

pub enum BrowserLocationView {
    Local(Seq<char>),
    S3Root,
    S3(Seq<char>, Seq<char>),
}

impl View for BrowserLocation {
    type V = BrowserLocationView;

    open spec fn view(&self) -> BrowserLocationView {
        match self {
            BrowserLocation::Local(p) => BrowserLocationView::Local(p@),
            BrowserLocation::S3Root => BrowserLocationView::S3Root,
            BrowserLocation::S3 { bucket, prefix } => BrowserLocationView::S3(bucket@, prefix@),
        }
    }
}

/// Entry shown in the in-app file / S3 browser.
#[derive(Clone, Debug)]
pub enum BrowserItem {
    /// Subdirectory or S3 prefix; `zarr_product` marks openable `.zarr` products.
    Directory {
        /// Display name (final path segment).
        name: String,
        /// Full path or `s3://` URI to open or navigate into.
        location: String,
        /// Whether double-click opens this entry as a Zarr product.
        zarr_product: bool,
    },
    /// Local `.zarr.zip` archive.
    ZipArchive {
        /// File name.
        name: String,
        /// Absolute filesystem path.
        location: String,
    },
}

pub open spec fn item_location(i: BrowserItem) -> Seq<char> {
    match i {
        BrowserItem::Directory { location, .. } => location@,
        BrowserItem::ZipArchive { location, .. } => location@,
    }
}

pub open spec fn item_name(i: BrowserItem) -> Seq<char> {
    match i {
        BrowserItem::Directory { name, .. } => name@,
        BrowserItem::ZipArchive { name, .. } => name@,
    }
}

impl BrowserItem {
    /// Path or URI associated with this browser entry.
    pub fn location(&self) -> (r: &str)
        ensures
            r@ == item_location(*self),
    {
        match self {
            BrowserItem::Directory { location, .. } => location.as_str(),
            BrowserItem::ZipArchive { location, .. } => location.as_str(),
        }
    }
}

/// Entries are listed Zarr products first, then by name; archives by name.
impl SortKey for BrowserItem {
    open spec fn rank(&self) -> int {
        match self {
            BrowserItem::Directory { zarr_product, .. } => if *zarr_product {
                0
            } else {
                1
            },
            BrowserItem::ZipArchive { .. } => 0,
        }
    }

    open spec fn name(&self) -> Seq<char> {
        item_name(*self)
    }

    fn key_le_exec(&self, other: &Self) -> (r: bool) {
        let (ra, na) = item_key(self);
        let (rb, nb) = item_key(other);
        if ra < rb {
            return true;
        }
        if rb < ra {
            return false;
        }
        let a = str_chars(na);
        let b = str_chars(nb);
        chars_lex_le(&a, &b)
    }
}

fn item_key(i: &BrowserItem) -> (r: (u8, &str))
    ensures
        r.0 as int == i.rank(),
        r.1@ == i.name(),
{
    match i {
        BrowserItem::Directory { zarr_product, name, .. } => (
            if *zarr_product {
                0
            } else {
                1
            },
            name.as_str(),
        ),
        BrowserItem::ZipArchive { name, .. } => (0, name.as_str()),
    }
}

/// The location bar text of a location.
pub open spec fn spec_display_label(l: BrowserLocationView) -> Seq<char> {
    match l {
        BrowserLocationView::Local(p) => p,
        BrowserLocationView::S3Root => "s3:// (configured buckets)"@,
        BrowserLocationView::S3(b, p) => spec_format_s3_uri(b, p),
    }
}

/// The location a typed hint names: none for blank text, an S3 location for
/// a valid `s3://` URI, else the trimmed text as a local path.
pub open spec fn spec_from_path_hint(hint: Seq<char>) -> Option<BrowserLocationView> {
    let t = trim_ws(hint);
    if t.len() == 0 {
        None
    } else if seq_starts_with(t, s3_scheme()) {
        match spec_parse_product_location(t) {
            Ok(LocationView::S3(b, p)) => Some(BrowserLocationView::S3(b, p)),
            Ok(LocationView::Local(p)) => Some(BrowserLocationView::Local(p)),
            Err(_) => None,
        }
    } else {
        Some(BrowserLocationView::Local(t))
    }
}

/// One level up: the parent directory, the bucket list from a bucket root,
/// or the parent prefix.
pub open spec fn spec_go_up(l: BrowserLocationView) -> Option<BrowserLocationView> {
    match l {
        BrowserLocationView::Local(p) => match path_parent_of(p) {
            Some(q) => Some(BrowserLocationView::Local(q)),
            None => None,
        },
        BrowserLocationView::S3Root => None,
        BrowserLocationView::S3(b, p) => if p.len() == 0 {
            Some(BrowserLocationView::S3Root)
        } else {
            match spec_parent_prefix(p) {
                Some(q) => Some(BrowserLocationView::S3(b, q)),
                None => None,
            }
        },
    }
}

pub open spec fn opt_location_view(o: Option<BrowserLocation>) -> Option<BrowserLocationView> {
    match o {
        Some(l) => Some(l@),
        None => None,
    }
}

impl BrowserLocation {
    /// Returns `true` for S3 bucket or prefix locations.
    pub fn is_s3(&self) -> (r: bool)
        ensures
            r == !(self@ is Local),
    {
        match self {
            BrowserLocation::Local(_) => false,
            _ => true,
        }
    }

    /// Human-readable label for the location bar.
    pub fn display_label(&self) -> (r: String)
        ensures
            r@ == spec_display_label(self@),
    {
        match self {
            BrowserLocation::Local(p) => clone_string(p),
            BrowserLocation::S3Root => String::from_str("s3:// (configured buckets)"),
            BrowserLocation::S3 { bucket, prefix } => format_s3_uri(bucket.as_str(), prefix.as_str()),
        }
    }

    /// Parse a typed path hint into a browse location, if possible.
    pub fn from_path_hint(hint: &str) -> (r: Option<BrowserLocation>)
        ensures
            opt_location_view(r) == spec_from_path_hint(hint@),
    {
        let h = str_chars(hint);
        let t = chars_trim(&h);
        if t.len() == 0 {
            return None;
        }
        let trimmed = string_from_chars(&t);
        if str_starts_with(trimmed.as_str(), "s3://") {
            proof {
                reveal_strlit("s3://");
                assert("s3://"@ =~= s3_scheme());
            }
            return match parse_product_location(trimmed.as_str()) {
                Ok(ProductLocation::S3 { bucket, prefix }) => Some(BrowserLocation::S3 { bucket, prefix }),
                Ok(ProductLocation::Local(p)) => Some(BrowserLocation::Local(p)),
                Err(_) => None,
            };
        }
        proof {
            reveal_strlit("s3://");
            assert("s3://"@ =~= s3_scheme());
        }
        Some(BrowserLocation::Local(trimmed))
    }

    /// Navigate to the parent directory or S3 prefix.
    pub fn go_up(&self) -> (r: Option<BrowserLocation>)
        ensures
            opt_location_view(r) == spec_go_up(self@),
    {
        match self {
            BrowserLocation::Local(p) => match path_parent(p.as_str()) {
                Some(q) => Some(BrowserLocation::Local(q)),
                None => None,
            },
            BrowserLocation::S3Root => None,
            BrowserLocation::S3 { bucket, prefix } => {
                if prefix.as_str().is_empty() {
                    Some(BrowserLocation::S3Root)
                } else {
                    match parent_prefix(prefix.as_str()) {
                        Some(parent) => Some(
                            BrowserLocation::S3 { bucket: clone_string(bucket), prefix: parent },
                        ),
                        None => None,
                    }
                }
            },
        }
    }

    /// The path whose kind decides **Up** for a local directory: its parent
    /// (none at the top, and none for S3 locations).
    pub fn up_probe_path(&self) -> (r: Option<String>)
        ensures
            match self@ {
                BrowserLocationView::Local(p) => match path_parent_of(p) {
                    Some(q) => r matches Some(s) && s@ == q,
                    None => r is None,
                },
                _ => r is None,
            },
    {
        match self {
            BrowserLocation::Local(p) => path_parent(p.as_str()),
            _ => None,
        }
    }

    /// Whether **Up** is enabled, given whether the local parent is a
    /// directory on disk (see `spec_can_go_up_given`).
    pub fn can_go_up_given(&self, parent_is_dir: bool) -> (r: bool)
        ensures
            r == spec_can_go_up_given(self@, parent_is_dir),
    {
        match self {
            BrowserLocation::Local(p) => match path_parent(p.as_str()) {
                Some(_) => parent_is_dir,
                None => false,
            },
            BrowserLocation::S3Root => false,
            BrowserLocation::S3 { .. } => true,
        }
    }

    /// Returns `true` when the **Up** button should be enabled: always inside
    /// a bucket, never at the bucket list, and for a local directory when its
    /// parent (`up_probe_path`) is a directory on disk.
    pub fn can_go_up(&self) -> (r: bool)
        ensures
            self@ is S3Root ==> !r,
            self@ is S3 ==> r,
            self@ matches BrowserLocationView::Local(p) && path_parent_of(p) is None ==> !r,
            exists|parent_is_dir: bool| r == spec_can_go_up_given(self@, parent_is_dir),
    {
        let parent_is_dir = match self.up_probe_path() {
            Some(q) => path_is_dir(q.as_str()),
            None => false,
        };
        self.can_go_up_given(parent_is_dir)
    }
}

/// **Up** is enabled inside a bucket, never at the bucket list, and for a
/// local path when it has a parent and that parent is a directory.
pub open spec fn spec_can_go_up_given(l: BrowserLocationView, parent_is_dir: bool) -> bool {
    match l {
        BrowserLocationView::Local(p) => path_parent_of(p) is Some && parent_is_dir,
        BrowserLocationView::S3Root => false,
        BrowserLocationView::S3(_, _) => true,
    }
}

/// Where to browse for an `s3://` product URI: its prefix, or the prefix
/// above it when it names a `.zarr` product.
pub open spec fn spec_initial_s3_location(uri: Seq<char>) -> Option<BrowserLocationView> {
    match spec_parse_product_location(uri) {
        Ok(LocationView::S3(b, p)) => Some(
            BrowserLocationView::S3(
                b,
                if seq_ends_with(p, ".zarr"@) {
                    match spec_parent_prefix(p) {
                        Some(q) => q,
                        None => Seq::empty(),
                    }
                } else {
                    p
                },
            ),
        ),
        _ => None,
    }
}

/// Where to browse for an `s3://` product URI (see `spec_initial_s3_location`).
pub fn initial_s3_browser_location(uri: &str) -> (r: Option<BrowserLocation>)
    ensures
        opt_location_view(r) == spec_initial_s3_location(uri@),
{
    match parse_product_location(uri) {
        Ok(ProductLocation::S3 { bucket, prefix }) => {
            let browse_prefix = if str_ends_with(prefix.as_str(), ".zarr") {
                match parent_prefix(prefix.as_str()) {
                    Some(p) => p,
                    None => String::new(),
                }
            } else {
                prefix
            };
            Some(BrowserLocation::S3 { bucket, prefix: browse_prefix })
        },
        _ => None,
    }
}

/// Returns `true` when `name` is a Zarr zip archive file.
pub fn is_zarr_zip(name: &str) -> (r: bool)
    ensures
        r == seq_ends_with(name@, ".zarr.zip"@),
{
    str_ends_with(name, ".zarr.zip")
}

/// A directory looks like a Zarr product when its name ends with `.zarr` or
/// it holds `.zgroup` or `.zmetadata`.
pub open spec fn spec_zarr_dir_verdict(name: Seq<char>, has_zgroup: bool, has_zmetadata: bool) -> bool {
    seq_ends_with(name, ".zarr"@) || has_zgroup || has_zmetadata
}

/// Whether a directory named `name` looks like a Zarr product, given whether
/// it holds `.zgroup` and whether it holds `.zmetadata`.
pub fn zarr_dir_verdict(name: &str, has_zgroup: bool, has_zmetadata: bool) -> (r: bool)
    ensures
        r == spec_zarr_dir_verdict(name@, has_zgroup, has_zmetadata),
{
    str_ends_with(name, ".zarr") || has_zgroup || has_zmetadata
}

/// Returns `true` when a directory looks like a Zarr product: its name ends
/// with `.zarr`, or it holds `.zgroup` or `.zmetadata` on disk. For other
/// names the disk is asked whether the markers of `zarr_marker_paths(path)`
/// exist (`.zmetadata` only when `.zgroup` does not), and the verdict is
/// `zarr_dir_verdict`'s for its answers.
pub fn is_zarr_product_dir(name: &str, path: &str) -> (r: bool)
    ensures
        seq_ends_with(name@, ".zarr"@) ==> r,
        exists|has_zgroup: bool, has_zmetadata: bool|
            r == spec_zarr_dir_verdict(name@, has_zgroup, has_zmetadata),
{
    let named = str_ends_with(name, ".zarr");
    if named {
        return zarr_dir_verdict(name, false, false);
    }
    let (zgroup, zmeta) = crate::zarr::location::zarr_marker_paths(path);
    let has_zgroup = crate::host::path_exists(zgroup.as_str());
    let has_zmetadata = if has_zgroup {
        false
    } else {
        crate::host::path_exists(zmeta.as_str())
    };
    zarr_dir_verdict(name, has_zgroup, has_zmetadata)
}

/// What the disk says of a candidate directory for browsing.
pub struct DirProbe {
    /// The candidate path.
    pub path: String,
    /// Whether it is a directory.
    pub is_dir: bool,
    /// Whether it looks like a Zarr product directory.
    pub is_zarr: bool,
    /// Its parent, when it has one and the parent is a directory.
    pub parent_dir: Option<String>,
}

/// The directory to browse from one candidate: the parent of a Zarr product
/// directory (when that parent is a directory), the directory itself, or the
/// parent of something that is not a directory; `None` when none applies.
pub open spec fn spec_dir_from_probe(p: DirProbe) -> Option<Seq<char>> {
    if p.is_dir {
        if p.is_zarr && p.parent_dir is Some {
            Some(p.parent_dir->0@)
        } else {
            Some(p.path@)
        }
    } else {
        match p.parent_dir {
            Some(d) => Some(d@),
            None => None,
        }
    }
}

/// The starting directory: from the last product root, else from the typed
/// hint, else the home directory, else `/`.
pub open spec fn spec_browser_dir(root: Option<DirProbe>, hint: Option<DirProbe>, home: Option<
    String,
>) -> Seq<char> {
    match (root, hint) {
        (Some(r), _) if spec_dir_from_probe(r) is Some => spec_dir_from_probe(r)->0,
        (_, Some(h)) if spec_dir_from_probe(h) is Some => spec_dir_from_probe(h)->0,
        _ => match home {
            Some(h) => h@,
            None => "/"@,
        },
    }
}

fn dir_from_probe(p: &DirProbe) -> (r: Option<String>)
    ensures
        match spec_dir_from_probe(*p) {
            Some(d) => r matches Some(s) && s@ == d,
            None => r is None,
        },
{
    if p.is_dir {
        if p.is_zarr {
            match &p.parent_dir {
                Some(d) => return Some(clone_string(d)),
                None => {},
            }
        }
        Some(clone_string(&p.path))
    } else {
        match &p.parent_dir {
            Some(d) => Some(clone_string(d)),
            None => None,
        }
    }
}

/// The starting directory decided from what the disk said of the candidates
/// (see `spec_browser_dir`).
pub fn browser_dir_decision(root: &Option<DirProbe>, hint: &Option<DirProbe>, home: &Option<String>) -> (r:
    String)
    ensures
        r@ == spec_browser_dir(*root, *hint, *home),
{
    match root {
        Some(rp) => match dir_from_probe(rp) {
            Some(d) => return d,
            None => {},
        },
        None => {},
    }
    match hint {
        Some(hp) => match dir_from_probe(hp) {
            Some(d) => return d,
            None => {},
        },
        None => {},
    }
    match home {
        Some(h) => clone_string(h),
        None => String::from_str("/"),
    }
}

/// What holds of a probe whatever the disk said: only a directory is taken
/// for a Zarr product, a directory named `*.zarr` always is, and a parent
/// kept is the path's parent.
pub open spec fn probe_consistent(p: DirProbe) -> bool {
    &&& p.is_zarr ==> p.is_dir
    &&& p.is_dir && (path_file_name_of(p.path@) matches Some(n) && seq_ends_with(n, ".zarr"@)) ==> p.is_zarr
    &&& p.parent_dir matches Some(q) ==> path_parent_of(p.path@) == Some(q@)
}

fn probe_dir(path: &str) -> (r: DirProbe)
    ensures
        r.path@ == path@,
        probe_consistent(r),
{
    let is_dir = path_is_dir(path);
    let name = match path_file_name(path) {
        Some(n) => n,
        None => String::new(),
    };
    assert(path_file_name_of(path@) matches Some(n) ==> n == name@);
    let is_zarr = if is_dir {
        is_zarr_product_dir(name.as_str(), path)
    } else {
        false
    };
    let parent_dir = match path_parent(path) {
        Some(q) => if path_is_dir(q.as_str()) {
            Some(q)
        } else {
            None
        },
        None => None,
    };
    DirProbe { path: String::from_str(path), is_dir, is_zarr, parent_dir }
}

/// The typed hint names a local path: it is not blank and not an `s3://` URI.
pub open spec fn hint_is_local(path_hint: Seq<char>) -> bool {
    trim_ws(path_hint).len() > 0 && !seq_starts_with(trim_ws(path_hint), s3_scheme())
}

/// Initial local directory for browsing (parent of a `.zarr` product when
/// applicable): the candidates are the last product root, then the typed
/// hint (unless blank or an `s3://` URI), then `home`, then `/`. What is
/// returned is what `browser_dir_decision` gives for the disk's answers.
pub fn initial_browser_dir(path_hint: &str, store_root: &Option<String>, home: &Option<String>) -> (r:
    String)
    ensures
        exists|rp: Option<DirProbe>, hp: Option<DirProbe>|
            (rp is Some <==> store_root is Some) && (rp matches Some(p) ==> p.path@ == store_root->0@
                && probe_consistent(p)) && (hp is Some <==> hint_is_local(path_hint@)) && (hp matches Some(
                p,
            ) ==> p.path@ == trim_ws(path_hint@) && probe_consistent(p)) && r@ == spec_browser_dir(rp, hp, *home),
{
    let root_probe = match store_root {
        Some(r) => Some(probe_dir(r.as_str())),
        None => None,
    };
    let h = str_chars(path_hint);
    let t = chars_trim(&h);
    let trimmed = string_from_chars(&t);
    let hint_probe = if t.len() > 0 && !str_starts_with(trimmed.as_str(), "s3://") {
        Some(probe_dir(trimmed.as_str()))
    } else {
        None
    };
    let r = browser_dir_decision(&root_probe, &hint_probe, home);
    proof {
        reveal_strlit("s3://");
        assert("s3://"@ =~= s3_scheme());
        assert((root_probe is Some <==> store_root is Some) && (root_probe matches Some(p) ==> p.path@
            == store_root->0@ && probe_consistent(p)) && (hint_probe is Some <==> hint_is_local(path_hint@))
            && (hint_probe matches Some(p) ==> p.path@ == trim_ws(path_hint@) && probe_consistent(p))
            && r@ == spec_browser_dir(root_probe, hint_probe, *home));
    }
    r
}

/// The S3 location to start browsing at: the typed hint's when it is a
/// usable `s3://` URI, else the last product root's when it is one.
pub open spec fn spec_initial_s3_choice(hint: Seq<char>, root: Option<String>) -> Option<
    BrowserLocationView,
> {
    let t = trim_ws(hint);
    if seq_starts_with(t, s3_scheme()) && spec_initial_s3_location(t) is Some {
        spec_initial_s3_location(t)
    } else {
        match root {
            Some(r) => if seq_starts_with(r@, s3_scheme()) {
                spec_initial_s3_location(r@)
            } else {
                None
            },
            None => None,
        }
    }
}

/// Initial browse location from a typed path hint and optional last-opened
/// product root: an `s3://` hint or root browses its S3 prefix, anything else
/// a local directory (`initial_browser_dir`).
pub fn initial_browser_location(path_hint: &str, store_root: &Option<String>, home: &Option<String>) -> (r:
    BrowserLocation)
    ensures
        match spec_initial_s3_choice(path_hint@, *store_root) {
            Some(l) => r@ == l,
            None => r@ is Local,
        },
{
    let h = str_chars(path_hint);
    let t = chars_trim(&h);
    let trimmed = string_from_chars(&t);
    proof {
        reveal_strlit("s3://");
        assert("s3://"@ =~= s3_scheme());
    }
    if str_starts_with(trimmed.as_str(), "s3://") {
        match initial_s3_browser_location(trimmed.as_str()) {
            Some(loc) => return loc,
            None => {},
        }
    }
    match store_root {
        Some(root) => {
            if str_starts_with(root.as_str(), "s3://") {
                match initial_s3_browser_location(root.as_str()) {
                    Some(loc) => return loc,
                    None => {},
                }
            }
        },
        None => {},
    }
    BrowserLocation::Local(initial_browser_dir(path_hint, store_root, home))
}

/// A local directory entry as read from disk.
pub struct LocalEntry {
    /// File name.
    pub name: String,
    /// Full path.
    pub location: String,
    /// Whether it is a directory.
    pub is_dir: bool,
    /// For a directory: whether it holds `.zgroup` or `.zmetadata`.
    pub has_zarr_marker: bool,
}

/// The browser entry for a directory entry: hidden entries and files other
/// than `.zarr.zip` archives are left out.
pub open spec fn spec_entry_item(e: LocalEntry) -> Option<(Seq<char>, Seq<char>, bool, bool)> {
    if e.name@.len() > 0 && e.name@[0] == '.' {
        None
    } else if e.is_dir {
        Some((e.name@, e.location@, true, seq_ends_with(e.name@, ".zarr"@) || e.has_zarr_marker))
    } else if seq_ends_with(e.name@, ".zarr.zip"@) {
        Some((e.name@, e.location@, false, false))
    } else {
        None
    }
}

/// A browser item as (name, location, is a directory, is a Zarr product).
pub open spec fn item_tuple(i: BrowserItem) -> (Seq<char>, Seq<char>, bool, bool) {
    match i {
        BrowserItem::Directory { name, location, zarr_product } => (name@, location@, true, zarr_product),
        BrowserItem::ZipArchive { name, location } => (name@, location@, false, false),
    }
}

/// The items kept from `entries`, in order, directories or archives only.
pub open spec fn kept_items(entries: Seq<LocalEntry>, dirs: bool) -> Seq<(Seq<char>, Seq<char>, bool, bool)>
    decreases entries.len(),
{
    if entries.len() == 0 {
        Seq::empty()
    } else {
        let prev = kept_items(entries.drop_last(), dirs);
        match spec_entry_item(entries.last()) {
            Some(t) => if t.2 == dirs {
                prev.push(t)
            } else {
                prev
            },
            None => prev,
        }
    }
}

pub open spec fn items_view(s: Seq<BrowserItem>) -> Seq<(Seq<char>, Seq<char>, bool, bool)> {
    s.map_values(|i: BrowserItem| item_tuple(i))
}

fn keep(entries: &Vec<LocalEntry>, dirs: bool) -> (r: Vec<BrowserItem>)
    ensures
        items_view(r@) == kept_items(entries@, dirs),
        forall|k: int| 0 <= k < r@.len() ==> (r@[k] is Directory <==> dirs),
{
    let mut out: Vec<BrowserItem> = Vec::new();
    let mut i: usize = 0;
    while i < entries.len()
        invariant
            i <= entries.len(),
            items_view(out@) == kept_items(entries@.subrange(0, i as int), dirs),
            forall|k: int| 0 <= k < out@.len() ==> (out@[k] is Directory <==> dirs),
        decreases entries.len() - i,
    {
        let e = &entries[i];
        let ghost pre = entries@.subrange(0, i + 1);
        proof {
            assert(pre.drop_last() =~= entries@.subrange(0, i as int));
            assert(pre.last() == entries@[i as int]);
        }
        let ghost before = out@;
        let hidden = str_starts_with(e.name.as_str(), ".");
        proof {
            reveal_strlit(".");
            let dot = "."@;
            assert(dot =~= seq!['.']);
            assert(hidden == seq_starts_with(e.name@, dot));
            if e.name@.len() > 0 {
                assert(e.name@.subrange(0, 1) =~= seq![e.name@[0]]);
                if e.name@[0] == '.' {
                    assert(e.name@.subrange(0, 1) =~= dot);
                }
                if hidden {
                    assert(e.name@.subrange(0, 1)[0] == dot[0]);
                }
            }
            assert(hidden == (e.name@.len() > 0 && e.name@[0] == '.'));
        }
        if !hidden {
            if e.is_dir {
                if dirs {
                    let zarr = str_ends_with(e.name.as_str(), ".zarr") || e.has_zarr_marker;
                    out.push(
                        BrowserItem::Directory {
                            name: clone_string(&e.name),
                            location: clone_string(&e.location),
                            zarr_product: zarr,
                        },
                    );
                    assert(items_view(out@) =~= items_view(before).push(item_tuple(out@.last())));
                }
            } else if is_zarr_zip(e.name.as_str()) {
                if !dirs {
                    out.push(
                        BrowserItem::ZipArchive {
                            name: clone_string(&e.name),
                            location: clone_string(&e.location),
                        },
                    );
                    assert(items_view(out@) =~= items_view(before).push(item_tuple(out@.last())));
                }
            }
        }
        i = i + 1;
    }
    assert(entries@.subrange(0, entries@.len() as int) =~= entries@);
    out
}

/// The browser entries of a local directory listing: hidden entries left
/// out, directories first (Zarr products first, then by name), then zip
/// archives by name.
pub fn directory_items(entries: &Vec<LocalEntry>) -> (r: Vec<BrowserItem>)
    ensures
        ({
            let d = kept_items(entries@, true);
            let z = kept_items(entries@, false);
            &&& r@.len() == d.len() + z.len()
            &&& items_view(r@.subrange(0, d.len() as int)).to_multiset() == d.to_multiset()
            &&& items_view(r@.subrange(d.len() as int, r@.len() as int)).to_multiset()
                == z.to_multiset()
            &&& sorted_by_key(r@.subrange(0, d.len() as int))
            &&& sorted_by_key(r@.subrange(d.len() as int, r@.len() as int))
        }),
{
    let dirs = keep(entries, true);
    let zips = keep(entries, false);
    let ghost d0 = dirs@;
    let ghost z0 = zips@;
    let sd = sort_by_key(dirs);
    let sz = sort_by_key(zips);
    proof {
        crate::order::lemma_map_multiset(sd@, d0, |i: BrowserItem| item_tuple(i));
        crate::order::lemma_map_multiset(sz@, z0, |i: BrowserItem| item_tuple(i));
    }
    let mut items = sd;
    let ghost a = items@;
    let mut sz2 = sz;
    let ghost b = sz2@;
    items.append(&mut sz2);
    proof {
        assert(items@.subrange(0, a.len() as int) =~= a);
        assert(items@.subrange(a.len() as int, items@.len() as int) =~= b);
    }
    items
}

} // verus!
