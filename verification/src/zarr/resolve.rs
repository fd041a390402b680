//! Where S3 credentials come from: config files, environment variables, and
//! the order in which they are tried.
//!
//! Reading files and the environment is left to the caller, which hands the
//! text it found (or the text of the read error) to the functions here.
use vstd::prelude::*;

use super::creds::{
    config_from_section, parse_ini_sections, sections_view, spec_config_from_section,
    spec_parse_ini, ConfigView, IniSection, S3Config, SectionView,
};
use super::error::IoError;
use crate::host::{path_join, path_join_of};
use crate::order::{names_sorted, sort_strings};
use crate::text::{chars_concat, str_chars, string_from_chars};
use crate::zarr::location::clone_string;

verus! {

/// A config file as the caller found it: its path, and its text or the text
/// of the error that reading it gave.
pub struct ConfigFile {
    pub path: String,
    pub content: Result<String, String>,
}

/// The four credential variables of one naming scheme, as set in the
/// environment (`None` when unset).
pub struct EnvCredentials {
    pub access_key_id: Option<String>,
    pub secret_access_key: Option<String>,
    pub endpoint: Option<String>,
    pub region: Option<String>,
}

pub open spec fn read_error_text(path: Seq<char>, err: Seq<char>) -> Seq<char> {
    "cannot read S3 config "@ + path + ": "@ + err
}

/// The default config location shown in messages.
pub open spec fn spec_config_hint(windows: bool) -> Seq<char> {
    if windows {
        "%APPDATA%\\cp-rs\\s3.conf"@
    } else {
        "~/.config/cp-rs/s3.conf"@
    }
}

pub open spec fn no_credentials_text(windows: bool) -> Seq<char> {
    "no S3 credentials found place a config at "@ + spec_config_hint(windows)
        + ", or set S3_*/AWS_* environment variables"@
}

/// Index of the first section named `bucket`.
pub open spec fn find_section(secs: Seq<SectionView>, bucket: Seq<char>) -> Option<int>
    decreases secs.len(),
{
    if secs.len() == 0 {
        None
    } else if secs[0].name == bucket {
        Some(0)
    } else {
        match find_section(secs.drop_first(), bucket) {
            Some(i) => Some(i + 1),
            None => None,
        }
    }
}

/// Credentials for `bucket` from the text of a config file: `None` when no
/// section has that name, else the first such section's credentials or the
/// text of its missing-key error.
pub open spec fn spec_config_for_bucket(content: Seq<char>, bucket: Seq<char>, path: Seq<char>) -> Result<
    Option<ConfigView>,
    Seq<char>,
> {
    let secs = spec_parse_ini(content);
    match find_section(secs, bucket) {
        None => Ok(None),
        Some(i) => match spec_config_from_section(secs[i], path) {
            Ok(c) => Ok(Some(c)),
            Err(e) => Err(e),
        },
    }
}

/// What a config file gives for `bucket`: read errors and section errors are
/// errors, a file without the bucket gives `None`.
pub open spec fn spec_file_lookup(f: Option<ConfigFile>, bucket: Seq<char>) -> Result<
    Option<ConfigView>,
    Seq<char>,
> {
    match f {
        None => Ok(None),
        Some(file) => match file.content {
            Err(e) => Err(read_error_text(file.path@, e@)),
            Ok(c) => spec_config_for_bucket(c@, bucket, file.path@),
        },
    }
}

/// Credentials from one set of variables: all four must be set.
pub open spec fn spec_env_config(env: EnvCredentials) -> Option<ConfigView> {
    match (env.access_key_id, env.secret_access_key, env.endpoint, env.region) {
        (Some(ak), Some(sk), Some(ep), Some(rg)) => Some(
            ConfigView {
                access_key_id: ak@,
                secret_access_key: sk@,
                region: rg@,
                endpoint: ep@,
            },
        ),
        _ => None,
    }
}

/// The resolution chain: explicit file, default file, `S3_*` variables,
/// `AWS_*` variables; the first that has credentials for the bucket wins, and
/// an error in a file that is tried stops the chain.
pub open spec fn spec_resolve(
    bucket: Seq<char>,
    explicit: Option<ConfigFile>,
    default: Option<ConfigFile>,
    s3_env: EnvCredentials,
    aws_env: EnvCredentials,
    windows: bool,
) -> Result<ConfigView, Seq<char>> {
    match spec_file_lookup(explicit, bucket) {
        Err(e) => Err(e),
        Ok(Some(c)) => Ok(c),
        Ok(None) => match spec_file_lookup(default, bucket) {
            Err(e) => Err(e),
            Ok(Some(c)) => Ok(c),
            Ok(None) => match spec_env_config(s3_env) {
                Some(c) => Ok(c),
                None => match spec_env_config(aws_env) {
                    Some(c) => Ok(c),
                    None => Err(no_credentials_text(windows)),
                },
            },
        },
    }
}

/// The default config location shown in messages.
pub fn default_config_hint(windows: bool) -> (r: &'static str)
    ensures
        r@ == spec_config_hint(windows),
{
    if windows {
        "%APPDATA%\\cp-rs\\s3.conf"
    } else {
        "~/.config/cp-rs/s3.conf"
    }
}

fn concat3(a: &str, b: &str, c: &str) -> (r: String)
    ensures
        r@ == a@ + b@ + c@,
{
    let x = str_chars(a);
    let y = str_chars(b);
    let z = str_chars(c);
    let xy = chars_concat(&x, &y);
    let xyz = chars_concat(&xy, &z);
    string_from_chars(&xyz)
}

fn read_error(path: &str, err: &str) -> (r: IoError)
    ensures
        r == IoError::S3Credentials(r->S3Credentials_0),
        r->S3Credentials_0@ == read_error_text(path@, err@),
{
    let a = concat3("cannot read S3 config ", path, ": ");
    let b = str_chars(a.as_str());
    let c = str_chars(err);
    let all = chars_concat(&b, &c);
    IoError::S3Credentials(string_from_chars(&all))
}

fn first_section_named(sections: &Vec<IniSection>, bucket: &str) -> (r: Option<usize>)
    ensures
        match find_section(sections_view(sections@), bucket@) {
            None => r is None,
            Some(i) => r matches Some(k) && k as int == i,
        },
        r matches Some(k) ==> k < sections@.len(),
{
    let ghost secs = sections_view(sections@);
    let target = bucket.to_string();
    let mut i: usize = 0;
    assert(secs.subrange(0, secs.len() as int) =~= secs);
    while i < sections.len()
        invariant
            i <= sections.len(),
            secs == sections_view(sections@),
            target@ == bucket@,
            find_section(secs, bucket@) == match find_section(
                secs.subrange(i as int, secs.len() as int),
                bucket@,
            ) {
                Some(j) => Some(j + i),
                None => None::<int>,
            },
        decreases sections.len() - i,
    {
        let ghost rest = secs.subrange(i as int, secs.len() as int);
        assert(rest[0] == sections@[i as int]@);
        if sections[i].name == target {
            return Some(i);
        }
        assert(rest.drop_first() =~= secs.subrange(i + 1, secs.len() as int));
        i = i + 1;
    }
    None
}

impl S3Config {
    /// Credentials for `bucket` from the text of a config file at `path`:
    /// `Ok(None)` when the file has no section of that name, so that the
    /// caller can go on down the chain.
    pub fn from_ini_content(content: &str, bucket: &str, path: &str) -> (r: Result<
        Option<S3Config>,
        IoError,
    >)
        ensures
            match spec_config_for_bucket(content@, bucket@, path@) {
                Ok(None) => r matches Ok(None),
                Ok(Some(c)) => r matches Ok(Some(cfg)) && cfg@ == c,
                Err(t) => r matches Err(e) && e == IoError::S3Credentials(e->S3Credentials_0)
                    && e->S3Credentials_0@ == t,
            },
    {
        let sections = parse_ini_sections(content);
        match first_section_named(&sections, bucket) {
            None => Ok(None),
            Some(i) => {
                assert(sections_view(sections@)[i as int] == sections@[i as int]@);
                match config_from_section(&sections[i], path) {
                    Ok(c) => Ok(Some(c)),
                    Err(e) => Err(e),
                }
            },
        }
    }

    /// Credentials from one set of environment variables, when all four are set.
    pub fn from_env_values(env: &EnvCredentials) -> (r: Option<S3Config>)
        ensures
            match spec_env_config(*env) {
                None => r is None,
                Some(c) => r matches Some(cfg) && cfg@ == c,
            },
    {
        match (&env.access_key_id, &env.secret_access_key, &env.endpoint, &env.region) {
            (Some(ak), Some(sk), Some(ep), Some(rg)) => Some(
                S3Config {
                    access_key_id: clone_string(ak),
                    secret_access_key: clone_string(sk),
                    region: clone_string(rg),
                    endpoint: clone_string(ep),
                },
            ),
            _ => None,
        }
    }

    fn from_file(file: &Option<ConfigFile>, bucket: &str) -> (r: Result<Option<S3Config>, IoError>)
        ensures
            match spec_file_lookup(*file, bucket@) {
                Ok(None) => r matches Ok(None),
                Ok(Some(c)) => r matches Ok(Some(cfg)) && cfg@ == c,
                Err(t) => r matches Err(e) && e == IoError::S3Credentials(e->S3Credentials_0)
                    && e->S3Credentials_0@ == t,
            },
    {
        match file {
            None => Ok(None),
            Some(f) => match &f.content {
                Err(msg) => Err(read_error(f.path.as_str(), msg.as_str())),
                Ok(text) => S3Config::from_ini_content(text.as_str(), bucket, f.path.as_str()),
            },
        }
    }

    /// Resolve S3 credentials for `bucket` following the priority chain:
    /// the explicit config file, the default config file (`None` when it does
    /// not exist), the `S3_*` variables, then the `AWS_*` variables.
    ///
    /// A file that has no section named after the bucket is skipped; a file
    /// that cannot be read, or whose bucket section lacks a key, is an error.
    pub fn resolve(
        bucket: &str,
        explicit: &Option<ConfigFile>,
        default: &Option<ConfigFile>,
        s3_env: &EnvCredentials,
        aws_env: &EnvCredentials,
        windows: bool,
    ) -> (r: Result<S3Config, IoError>)
        ensures
            match spec_resolve(bucket@, *explicit, *default, *s3_env, *aws_env, windows) {
                Ok(c) => r matches Ok(cfg) && cfg@ == c,
                Err(t) => r matches Err(e) && e == IoError::S3Credentials(e->S3Credentials_0)
                    && e->S3Credentials_0@ == t,
            },
    {
        match S3Config::from_file(explicit, bucket) {
            Err(e) => return Err(e),
            Ok(Some(c)) => return Ok(c),
            Ok(None) => {},
        }
        match S3Config::from_file(default, bucket) {
            Err(e) => return Err(e),
            Ok(Some(c)) => return Ok(c),
            Ok(None) => {},
        }
        match S3Config::from_env_values(s3_env) {
            Some(c) => return Ok(c),
            None => {},
        }
        match S3Config::from_env_values(aws_env) {
            Some(c) => return Ok(c),
            None => {},
        }
        let msg = concat3(
            "no S3 credentials found place a config at ",
            default_config_hint(windows),
            ", or set S3_*/AWS_* environment variables",
        );
        Err(IoError::S3Credentials(msg))
    }
}

/// Section names of a config text, in file order.
pub open spec fn spec_section_names(content: Seq<char>) -> Seq<Seq<char>> {
    spec_parse_ini(content).map_values(|s: SectionView| s.name)
}

/// `acc` followed by each name of `names` that is not already there.
pub open spec fn merge_names(acc: Seq<Seq<char>>, names: Seq<Seq<char>>) -> Seq<Seq<char>>
    decreases names.len(),
{
    if names.len() == 0 {
        acc
    } else {
        let m = merge_names(acc, names.drop_last());
        if m.contains(names.last()) {
            m
        } else {
            m.push(names.last())
        }
    }
}

pub open spec fn spec_file_names(f: ConfigFile) -> Result<Seq<Seq<char>>, Seq<char>> {
    match f.content {
        Err(e) => Err(read_error_text(f.path@, e@)),
        Ok(c) => Ok(spec_section_names(c@)),
    }
}

/// Bucket names of the explicit file (all of them) and then of the default
/// file (those not already listed); a file that cannot be read is an error.
pub open spec fn spec_configured_names(explicit: Option<ConfigFile>, default: Option<ConfigFile>) -> Result<
    Seq<Seq<char>>,
    Seq<char>,
> {
    let first = match explicit {
        None => Ok(Seq::empty()),
        Some(f) => spec_file_names(f),
    };
    match first {
        Err(e) => Err(e),
        Ok(a) => match default {
            None => Ok(a),
            Some(f) => match spec_file_names(f) {
                Err(e) => Err(e),
                Ok(b) => Ok(merge_names(a, b)),
            },
        },
    }
}

fn file_names(f: &ConfigFile) -> (r: Result<Vec<String>, IoError>)
    ensures
        match spec_file_names(*f) {
            Ok(ns) => r matches Ok(v) && v@.map_values(|x: String| x@) == ns,
            Err(t) => r matches Err(e) && e == IoError::S3Credentials(e->S3Credentials_0)
                && e->S3Credentials_0@ == t,
        },
{
    match &f.content {
        Err(msg) => Err(read_error(f.path.as_str(), msg.as_str())),
        Ok(text) => {
            let sections = parse_ini_sections(text.as_str());
            let ghost secs = sections_view(sections@);
            let mut names: Vec<String> = Vec::new();
            let mut i: usize = 0;
            while i < sections.len()
                invariant
                    i <= sections.len(),
                    secs == sections_view(sections@),
                    names@.map_values(|x: String| x@) == secs.subrange(0, i as int).map_values(
                        |s: SectionView| s.name,
                    ),
                decreases sections.len() - i,
            {
                let ghost before = names@;
                names.push(clone_string(&sections[i].name));
                proof {
                    assert(names@.map_values(|x: String| x@) =~= before.map_values(|x: String| x@).push(
                        sections@[i as int].name@,
                    ));
                    assert(secs.subrange(0, i + 1).map_values(|s: SectionView| s.name)
                        =~= secs.subrange(0, i as int).map_values(|s: SectionView| s.name).push(
                        secs[i as int].name,
                    ));
                }
                i = i + 1;
            }
            assert(secs.subrange(0, secs.len() as int) =~= secs);
            Ok(names)
        },
    }
}

fn contains_name(v: &Vec<String>, name: &String) -> (r: bool)
    ensures
        r == v@.map_values(|x: String| x@).contains(name@),
{
    let ghost m = v@.map_values(|x: String| x@);
    let mut i: usize = 0;
    while i < v.len()
        invariant
            i <= v.len(),
            m == v@.map_values(|x: String| x@),
            forall|j: int| 0 <= j < i ==> m[j] != name@,
        decreases v.len() - i,
    {
        if v[i] == *name {
            assert(m[i as int] == name@);
            return true;
        }
        i = i + 1;
    }
    false
}

impl S3Config {
    /// Bucket names configured in the explicit file and the default file
    /// (`None` when it does not exist), without repeating a default-file name
    /// that is already listed, sorted in `str::cmp` order.
    pub fn list_configured_buckets(explicit: &Option<ConfigFile>, default: &Option<ConfigFile>) -> (r:
        Result<Vec<String>, IoError>)
        ensures
            match spec_configured_names(*explicit, *default) {
                Ok(ns) => r matches Ok(v) && {
                    let got = v@.map_values(|x: String| x@);
                    &&& names_sorted(got)
                    &&& got.to_multiset() == ns.to_multiset()
                },
                Err(t) => r matches Err(e) && e == IoError::S3Credentials(e->S3Credentials_0)
                    && e->S3Credentials_0@ == t,
            },
    {
        let mut buckets: Vec<String> = match explicit {
            None => Vec::new(),
            Some(f) => file_names(f)?,
        };
        assert(buckets@.map_values(|x: String| x@) =~= match explicit {
            None => Seq::<Seq<char>>::empty(),
            Some(f) => spec_file_names(*f)->Ok_0,
        });
        match default {
            None => {},
            Some(f) => {
                let from_default = file_names(f)?;
                let ghost acc = buckets@.map_values(|x: String| x@);
                let ghost names = from_default@.map_values(|x: String| x@);
                let mut i: usize = 0;
                while i < from_default.len()
                    invariant
                        i <= from_default.len(),
                        names == from_default@.map_values(|x: String| x@),
                        buckets@.map_values(|x: String| x@) == merge_names(
                            acc,
                            names.subrange(0, i as int),
                        ),
                    decreases from_default.len() - i,
                {
                    proof {
                        let pre = names.subrange(0, i + 1);
                        assert(pre.drop_last() =~= names.subrange(0, i as int));
                        assert(pre.last() == from_default@[i as int]@);
                    }
                    if !contains_name(&buckets, &from_default[i]) {
                        let ghost before = buckets@;
                        buckets.push(clone_string(&from_default[i]));
                        assert(buckets@.map_values(|x: String| x@) =~= before.map_values(
                            |x: String| x@,
                        ).push(from_default@[i as int]@));
                    }
                    i = i + 1;
                }
                assert(names.subrange(0, names.len() as int) =~= names);
            },
        }
        Ok(sort_strings(buckets))
    }
}

/// The default `s3.conf` under a base directory: `%APPDATA%\cp-rs\s3.conf`
/// on Windows, `$HOME/.config/cp-rs/s3.conf` elsewhere.
pub open spec fn spec_default_config_path(base: Seq<char>, windows: bool) -> Seq<char> {
    if windows {
        path_join_of(path_join_of(base, "cp-rs"@), "s3.conf"@)
    } else {
        path_join_of(path_join_of(path_join_of(base, ".config"@), "cp-rs"@), "s3.conf"@)
    }
}

/// The first of the override variables that is set and not empty.
pub open spec fn spec_explicit_config_path(viewer_var: Option<String>, s3_var: Option<String>) -> Option<
    Seq<char>,
> {
    match viewer_var {
        Some(v) if v@.len() > 0 => Some(v@),
        _ => match s3_var {
            Some(v) if v@.len() > 0 => Some(v@),
            _ => None,
        },
    }
}

impl S3Config {
    /// Path used for the default `s3.conf`, given the platform's base
    /// directory (`APPDATA` on Windows, `HOME` elsewhere; `None` when unset).
    pub fn default_s3_config_path(base: &Option<String>, windows: bool) -> (r: Option<String>)
        ensures
            match base {
                None => r is None,
                Some(b) => r matches Some(p) && p@ == spec_default_config_path(b@, windows),
            },
    {
        match base {
            None => None,
            Some(b) => {
                if windows {
                    let a = path_join(b.as_str(), "cp-rs");
                    Some(path_join(a.as_str(), "s3.conf"))
                } else {
                    let a = path_join(b.as_str(), ".config");
                    let c = path_join(a.as_str(), "cp-rs");
                    Some(path_join(c.as_str(), "s3.conf"))
                }
            },
        }
    }

    /// Path of the S3 config file that the app reads and writes: the
    /// `COPERNICUS_VIEWER_S3_CONFIG` or `S3_CONFIG` override when set and not
    /// empty, else the default path.
    pub fn effective_s3_config_path(
        viewer_var: &Option<String>,
        s3_var: &Option<String>,
        default: &Option<String>,
    ) -> (r: Option<String>)
        ensures
            match spec_explicit_config_path(*viewer_var, *s3_var) {
                Some(p) => r matches Some(q) && q@ == p,
                None => match default {
                    Some(d) => r matches Some(q) && q@ == d@,
                    None => r is None,
                },
            },
    {
        match viewer_var {
            Some(v) => {
                if !v.as_str().is_empty() {
                    return Some(clone_string(v));
                }
            },
            None => {},
        }
        match s3_var {
            Some(v) => {
                if !v.as_str().is_empty() {
                    return Some(clone_string(v));
                }
            },
            None => {},
        }
        match default {
            Some(d) => Some(clone_string(d)),
            None => None,
        }
    }
}

} // verus!
