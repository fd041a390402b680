//! Queries of the local filesystem and `std::path` operations on path text.
//!
//! What the filesystem answers depends on the disk at the time of the call, so
//! the probes promise nothing about their result. The path operations are pure
//! functions of their arguments and are given names below; the extension is
//! computed here from the file name, as `Path::extension` documents it.
use vstd::prelude::*;

use crate::text::{chars_rsplit_once, rsplit_once_char, str_chars, string_from_chars};

verus! {

/// What `Path::parent` returns for a path, taken as text.
pub uninterp spec fn path_parent_of(path: Seq<char>) -> Option<Seq<char>>;

/// What `Path::file_name` returns for a path, taken as text.
pub uninterp spec fn path_file_name_of(path: Seq<char>) -> Option<Seq<char>>;

/// What `Path::join` returns for a base path and a relative path, taken as text.
pub uninterp spec fn path_join_of(base: Seq<char>, child: Seq<char>) -> Seq<char>;

/// `Path::is_file`: whether the path names a regular file right now.
/// Nothing is promised of the answer.
#[verifier::external_body]
pub(crate) fn path_is_file(path: &str) -> bool {
    std::path::Path::new(path).is_file()
}

/// `Path::is_dir`: whether the path names a directory right now.
/// Nothing is promised of the answer.
#[verifier::external_body]
pub(crate) fn path_is_dir(path: &str) -> bool {
    std::path::Path::new(path).is_dir()
}

/// `Path::exists`: whether anything exists at the path right now.
/// Nothing is promised of the answer.
#[verifier::external_body]
pub(crate) fn path_exists(path: &str) -> bool {
    std::path::Path::new(path).exists()
}

/// `Path::parent`, with the result as text. The parent is the path without
/// its final component: a strict prefix of the path's text (the standard
/// library returns a sub-slice of the original path). Non-UTF-8 results do not
/// arise from UTF-8 input.
#[verifier::external_body]
pub(crate) fn path_parent(path: &str) -> (r: Option<String>)
    ensures
        r matches Some(p) ==> path_parent_of(path@) == Some(p@) && p@.len() < path@.len(),
        r is None ==> path_parent_of(path@) is None,
{
    std::path::Path::new(path).parent().map(|p| p.to_string_lossy().into_owned())
}

/// `Path::file_name`, with the result as text.
#[verifier::external_body]
pub(crate) fn path_file_name(path: &str) -> (r: Option<String>)
    ensures
        r matches Some(n) ==> path_file_name_of(path@) == Some(n@),
        r is None ==> path_file_name_of(path@) is None,
{
    std::path::Path::new(path).file_name().map(|n| n.to_string_lossy().into_owned())
}

/// `Path::extension`, as its documentation states it: none without a file
/// name, none when the file name holds no `.`, none when it begins with `.`
/// and holds no other `.`; otherwise the part of the file name after its
/// last `.`.
pub open spec fn path_extension_of(path: Seq<char>) -> Option<Seq<char>> {
    match path_file_name_of(path) {
        None => None,
        Some(name) => match rsplit_once_char(name, '.') {
            None => None,
            Some((before, after)) => if before.len() == 0 {
                None
            } else {
                Some(after)
            },
        },
    }
}

/// The extension of a path (see `path_extension_of`).
pub(crate) fn path_extension(path: &str) -> (r: Option<String>)
    ensures
        match path_extension_of(path@) {
            Some(e) => r matches Some(s) && s@ == e,
            None => r is None,
        },
{
    match path_file_name(path) {
        None => None,
        Some(name) => {
            let cs = str_chars(name.as_str());
            match chars_rsplit_once(&cs, '.') {
                None => None,
                Some((before, after)) => if before.len() == 0 {
                    None
                } else {
                    Some(string_from_chars(&after))
                },
            }
        },
    }
}

/// `Path::join`, with the result as text.
#[verifier::external_body]
pub(crate) fn path_join(base: &str, child: &str) -> (r: String)
    ensures
        r@ == path_join_of(base@, child@),
{
    std::path::Path::new(base).join(child).to_string_lossy().into_owned()
}

} // verus!
