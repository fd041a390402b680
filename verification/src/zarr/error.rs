//! Error types for Zarr store and S3 I/O.
use vstd::prelude::*;

use crate::text::{str_chars, string_from_chars, chars_concat};

verus! {

/// I/O and configuration errors when opening stores or reading arrays.
///
/// Each variant carries the human-readable detail; `message` renders the
/// full text.
#[derive(Debug, Clone, PartialEq, Eq)]
pub enum IoError {
    /// A required local path does not exist.
    FileNotFound(String),
    /// S3 credentials could not be resolved or parsed.
    S3Credentials(String),
    /// Failed to construct or use an S3 client.
    S3Client(String),
    /// Downloading an S3 product failed.
    S3Download(String),
    /// Zarr store-level read or traversal failure.
    ZarrStore(String),
    /// Zarr array open or chunk read failure.
    ZarrArray(String),
    /// Zarr group open or metadata failure.
    ZarrGroup(String),
    /// Unsupported Zarr layout, dtype, or storage backend.
    UnsupportedFormat(String),
    /// Underlying OS I/O error (its text).
    Io(String),
}

/// The fixed text that precedes the detail of each error kind.
pub open spec fn io_error_lead(e: IoError) -> Seq<char> {
    match e {
        IoError::FileNotFound(_) => "file not found: "@,
        IoError::S3Credentials(_) => "S3 credentials error: "@,
        IoError::S3Client(_) => "S3 client error: "@,
        IoError::S3Download(_) => "S3 download error: "@,
        IoError::ZarrStore(_) => "Zarr store error: "@,
        IoError::ZarrArray(_) => "Zarr array error: "@,
        IoError::ZarrGroup(_) => "Zarr group error: "@,
        IoError::UnsupportedFormat(_) => "unsupported format: "@,
        IoError::Io(_) => ""@,
    }
}

pub open spec fn io_error_detail(e: IoError) -> Seq<char> {
    match e {
        IoError::FileNotFound(s) => s@,
        IoError::S3Credentials(s) => s@,
        IoError::S3Client(s) => s@,
        IoError::S3Download(s) => s@,
        IoError::ZarrStore(s) => s@,
        IoError::ZarrArray(s) => s@,
        IoError::ZarrGroup(s) => s@,
        IoError::UnsupportedFormat(s) => s@,
        IoError::Io(s) => s@,
    }
}

impl IoError {
    /// Full error text: the kind's lead followed by the detail.
    pub fn message(&self) -> (r: String)
        ensures
            r@ == io_error_lead(*self) + io_error_detail(*self),
    {
        let (lead, detail) = match self {
            IoError::FileNotFound(s) => ("file not found: ", s),
            IoError::S3Credentials(s) => ("S3 credentials error: ", s),
            IoError::S3Client(s) => ("S3 client error: ", s),
            IoError::S3Download(s) => ("S3 download error: ", s),
            IoError::ZarrStore(s) => ("Zarr store error: ", s),
            IoError::ZarrArray(s) => ("Zarr array error: ", s),
            IoError::ZarrGroup(s) => ("Zarr group error: ", s),
            IoError::UnsupportedFormat(s) => ("unsupported format: ", s),
            IoError::Io(s) => ("", s),
        };
        let a = str_chars(lead);
        let b = str_chars(detail.as_str());
        let all = chars_concat(&a, &b);
        string_from_chars(&all)
    }
}

} // verus!
