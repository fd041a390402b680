//! Downloading an S3-hosted Zarr product: naming the local folder, checking
//! the product location, and the progress reported along the way.
use vstd::prelude::*;

use super::error::IoError;
use super::location::{clone_string, LocationView, ResolvedProduct, ProductLocation, s3_scheme};
use crate::text::{
    chars_concat, chars_rsplit_once, chars_start_with, chars_trim_end_char, rsplit_once_char,
    seq_starts_with, str_chars, string_from_chars, trim_end_char,
};

verus! {

/// Progress snapshot for an in-flight S3 product download.
#[derive(Debug, Clone, PartialEq, Eq)]
pub struct DownloadProgress {
    /// Number of objects written so far.
    pub objects_done: usize,
    /// Total bytes written so far.
    pub bytes_done: u64,
    /// Key of the object most recently completed.
    pub current_key: String,
}

impl DownloadProgress {
    /// The snapshot after one more object of `nbytes` bytes, named `key`, was
    /// written; `None` when a counter would overflow.
    pub fn after_object(&self, nbytes: u64, key: &str) -> (r: Option<DownloadProgress>)
        ensures
            match r {
                Some(p) => self.objects_done + 1 <= usize::MAX && self.bytes_done + nbytes
                    <= u64::MAX && p.objects_done == self.objects_done + 1 && p.bytes_done
                    == self.bytes_done + nbytes && p.current_key@ == key@,
                None => self.objects_done + 1 > usize::MAX || self.bytes_done + nbytes
                    > u64::MAX,
            },
    {
        if self.objects_done == usize::MAX {
            return None;
        }
        match self.bytes_done.checked_add(nbytes) {
            Some(b) => Some(
                DownloadProgress {
                    objects_done: self.objects_done + 1,
                    bytes_done: b,
                    current_key: String::from_str(key),
                },
            ),
            None => None,
        }
    }
}

/// Returns true when `root_path` is an `s3://` product URI.
pub fn is_s3_product(root_path: &str) -> (r: bool)
    ensures
        r == seq_starts_with(root_path@, s3_scheme()),
{
    let p = str_chars(root_path);
    let scheme = str_chars("s3://");
    proof {
        reveal_strlit("s3://");
        assert(scheme@ =~= s3_scheme());
    }
    chars_start_with(&p, &scheme)
}

/// Last `/`-separated segment of a prefix once trailing slashes are removed.
pub open spec fn last_segment(prefix: Seq<char>) -> Seq<char> {
    let t = trim_end_char(prefix, '/');
    match rsplit_once_char(t, '/') {
        Some((_, name)) => name,
        None => t,
    }
}

pub open spec fn spec_product_folder_name(prefix: Seq<char>) -> Result<Seq<char>, Seq<char>> {
    if last_segment(prefix).len() == 0 {
        Err("empty S3 prefix"@)
    } else {
        Ok(last_segment(prefix))
    }
}

/// Name of the local folder for a product: the last segment of its prefix.
/// A prefix whose last segment is empty is an `S3Download` error.
pub fn product_folder_name(prefix: &str) -> (r: Result<String, IoError>)
    ensures
        match spec_product_folder_name(prefix@) {
            Ok(n) => r matches Ok(s) && s@ == n,
            Err(t) => r matches Err(e) && e == IoError::S3Download(e->S3Download_0)
                && e->S3Download_0@ == t,
        },
{
    let p = str_chars(prefix);
    let t = chars_trim_end_char(&p, '/');
    let name = match chars_rsplit_once(&t, '/') {
        Some((_, n)) => n,
        None => t,
    };
    if name.len() == 0 {
        Err(IoError::S3Download(String::from_str("empty S3 prefix")))
    } else {
        Ok(string_from_chars(&name))
    }
}

pub open spec fn destination_exists_text(dest: Seq<char>) -> Seq<char> {
    "destination already exists: "@ + dest
}

/// The error for a download whose destination folder is already there.
pub fn destination_exists(dest: &str) -> (r: IoError)
    ensures
        r == IoError::S3Download(r->S3Download_0),
        r->S3Download_0@ == destination_exists_text(dest@),
{
    let a = str_chars("destination already exists: ");
    let b = str_chars(dest);
    let all = chars_concat(&a, &b);
    IoError::S3Download(string_from_chars(&all))
}

/// Bucket and prefix of a product, from the outcome of parsing and resolving
/// its root path (a failure given as its message text). A failure, or a
/// local product, is an `S3Download` error.
pub fn parse_s3_location(resolved: Result<ResolvedProduct, String>) -> (r: Result<
    (String, String),
    IoError,
>)
    ensures
        match resolved {
            Err(msg) => r matches Err(e) && e == IoError::S3Download(e->S3Download_0)
                && e->S3Download_0@ == msg@,
            Ok(res) => match res.location@ {
                LocationView::S3(b, p) => r matches Ok((bucket, prefix)) && bucket@ == b
                    && prefix@ == p,
                LocationView::Local(_) => r matches Err(e) && e == IoError::S3Download(
                    e->S3Download_0,
                ) && e->S3Download_0@ == "not an S3 product"@,
            },
        },
{
    match resolved {
        Err(msg) => Err(IoError::S3Download(msg)),
        Ok(res) => match res.location {
            ProductLocation::S3 { bucket, prefix } => Ok((bucket, prefix)),
            ProductLocation::Local(_) => Err(
                IoError::S3Download(String::from_str("not an S3 product")),
            ),
        },
    }
}

} // verus!
