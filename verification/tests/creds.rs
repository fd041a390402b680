use copernicus_viewer::zarr::creds::{
    format_bucket_entries, format_bucket_entry, parse_ini_sections, S3BucketEntry, S3Config,
};
use copernicus_viewer::zarr::error::IoError;
use copernicus_viewer::zarr::resolve::{default_config_hint, ConfigFile, EnvCredentials};

const TWO_BUCKETS: &str = "[bucket-a]\n\
     type = s3\n\
     access_key_id = AK_A\n\
     secret_access_key = SK_A\n\
     region = eu-west-1\n\
     endpoint = https://s3.a.example.com\n\
     \n\
     [bucket-b]\n\
     type = s3\n\
     access_key_id = AK_B\n\
     secret_access_key = SK_B\n\
     region = us-east-1\n\
     endpoint = https://s3.b.example.com\n";

fn file(path: &str, text: &str) -> Option<ConfigFile> {
    Some(ConfigFile { path: path.to_string(), content: Ok(text.to_string()) })
}

fn no_env() -> EnvCredentials {
    EnvCredentials { access_key_id: None, secret_access_key: None, endpoint: None, region: None }
}

fn entry(b: &str, ak: &str, sk: &str, rg: &str, ep: &str) -> S3BucketEntry {
    S3BucketEntry {
        bucket: b.to_string(),
        access_key_id: ak.to_string(),
        secret_access_key: sk.to_string(),
        region: rg.to_string(),
        endpoint: ep.to_string(),
    }
}

#[test]
fn default_config_path_follows_platform_convention() {
    let home = Some("/home/u".to_string());
    let p = S3Config::default_s3_config_path(&home, false).expect("default config path");
    assert_eq!(
        std::path::PathBuf::from(p),
        std::path::Path::new("/home/u").join(".config").join("cp-rs").join("s3.conf")
    );
    let appdata = Some("C:/Users/u/AppData".to_string());
    let p = S3Config::default_s3_config_path(&appdata, true).expect("default config path");
    assert_eq!(
        std::path::PathBuf::from(p),
        std::path::Path::new("C:/Users/u/AppData").join("cp-rs").join("s3.conf")
    );
    assert!(S3Config::default_s3_config_path(&None, false).is_none());
}

#[test]
fn list_configured_buckets_reads_all_sections() {
    let buckets = S3Config::list_configured_buckets(&file("/tmp/s3.conf", TWO_BUCKETS), &None).unwrap();
    assert!(buckets.contains(&"bucket-a".to_string()));
    assert!(buckets.contains(&"bucket-b".to_string()));
}

#[test]
fn list_configured_buckets_merges_and_sorts() {
    let other = "[zz]\naccess_key_id = x\n[bucket-a]\n";
    let buckets = S3Config::list_configured_buckets(
        &file("/tmp/a.conf", TWO_BUCKETS),
        &file("/tmp/b.conf", other),
    )
    .unwrap();
    assert_eq!(buckets, vec!["bucket-a".to_string(), "bucket-b".to_string(), "zz".to_string()]);
    let unreadable = Some(ConfigFile { path: "/x".to_string(), content: Err("denied".to_string()) });
    assert_eq!(
        S3Config::list_configured_buckets(&unreadable, &None).unwrap_err(),
        IoError::S3Credentials("cannot read S3 config /x: denied".to_string())
    );
}

#[test]
fn parse_ini_selects_matching_section() {
    let cfg = S3Config::from_ini_content(TWO_BUCKETS, "bucket-b", "/tmp/s3.conf")
        .unwrap()
        .expect("section bucket-b should be found");
    assert_eq!(cfg.access_key_id, "AK_B");
    assert_eq!(cfg.secret_access_key, "SK_B");
    assert_eq!(cfg.region, "us-east-1");
    assert_eq!(cfg.endpoint, "https://s3.b.example.com");
}

#[test]
fn parse_ini_returns_none_when_no_section_matches() {
    let text = "[my-remote]\n\
         type = s3\n\
         access_key_id = AKID\n\
         secret_access_key = SKEY\n\
         region = eu-west-1\n\
         endpoint = https://s3.example.com\n";
    let result = S3Config::from_ini_content(text, "unknown-bucket", "/tmp/s3.conf").unwrap();
    assert!(result.is_none());
}

#[test]
fn missing_key_is_reported() {
    let text = "[b]\naccess_key_id = a\nregion = r\nendpoint = e\n";
    let err = S3Config::from_ini_content(text, "b", "/etc/s3.conf").unwrap_err();
    assert_eq!(
        err,
        IoError::S3Credentials("missing 'secret_access_key' in [b] of /etc/s3.conf".to_string())
    );
    assert_eq!(
        err.message(),
        "S3 credentials error: missing 'secret_access_key' in [b] of /etc/s3.conf"
    );
}

#[test]
fn ini_parsing_skips_comments_and_orphans() {
    let text = "orphan = 1\n# c\n; c\n[ s1 ]\n k = v = w \nnot a pair\n[s2]";
    let secs = parse_ini_sections(text);
    assert_eq!(secs.len(), 2);
    assert_eq!(secs[0].name, "s1");
    assert_eq!(secs[0].entries, vec![("k".to_string(), "v = w".to_string())]);
    assert_eq!(secs[0].get("k"), Some("v = w".to_string()));
    assert_eq!(secs[1].name, "s2");
    assert!(secs[1].entries.is_empty());
}

#[test]
fn save_and_load_bucket_entries_round_trip() {
    let entries = vec![
        entry("bucket-a", "AK_A", "SK_A", "eu-west-1", "https://s3.a.example.com"),
        entry("bucket-b", "AK_B", "SK_B", "us-east-1", "https://s3.b.example.com"),
    ];
    let text = format_bucket_entries(&entries);
    let loaded = S3Config::bucket_entries_from_content(&text, "/tmp/s3.conf").unwrap();
    assert_eq!(loaded, entries);
}

#[test]
fn loaded_entries_are_sorted_by_bucket() {
    let entries = vec![
        entry("zz", "a", "b", "c", "d"),
        entry("aa", "e", "f", "g", "h"),
    ];
    let text = format_bucket_entries(&entries);
    let loaded = S3Config::bucket_entries_from_content(&text, "p").unwrap();
    assert_eq!(loaded[0].bucket, "aa");
    assert_eq!(loaded[1].bucket, "zz");
    assert_eq!(loaded[1].to_s3_config().access_key_id, "a");
}

#[test]
fn entry_text_layout() {
    let e = entry("b", "k", "s", "r", "e");
    assert_eq!(
        format_bucket_entry(&e),
        "[b]\ntype = s3\naccess_key_id = k\nsecret_access_key = s\nregion = r\nendpoint = e"
    );
}

#[test]
fn resolution_chain_order() {
    let s3_env = EnvCredentials {
        access_key_id: Some("E1".to_string()),
        secret_access_key: Some("E2".to_string()),
        endpoint: Some("E3".to_string()),
        region: Some("E4".to_string()),
    };
    let cfg = S3Config::resolve("bucket-a", &file("/x", TWO_BUCKETS), &None, &s3_env, &no_env(), false).unwrap();
    assert_eq!(cfg.access_key_id, "AK_A");
    let cfg = S3Config::resolve("other", &file("/x", TWO_BUCKETS), &None, &s3_env, &no_env(), false).unwrap();
    assert_eq!(cfg.access_key_id, "E1");
    assert_eq!(cfg.region, "E4");
    assert_eq!(cfg.endpoint, "E3");
    let err = S3Config::resolve("other", &None, &None, &no_env(), &no_env(), false).unwrap_err();
    assert_eq!(
        err,
        IoError::S3Credentials(
            "no S3 credentials found place a config at ~/.config/cp-rs/s3.conf, or set S3_*/AWS_* environment variables"
                .to_string()
        )
    );
    assert_eq!(default_config_hint(true), "%APPDATA%\\cp-rs\\s3.conf");
}

#[test]
fn effective_path_prefers_overrides() {
    let d = Some("/d".to_string());
    assert_eq!(S3Config::effective_s3_config_path(&None, &None, &d), d);
    assert_eq!(
        S3Config::effective_s3_config_path(&Some(String::new()), &Some("/s".to_string()), &d),
        Some("/s".to_string())
    );
    assert_eq!(
        S3Config::effective_s3_config_path(&Some("/v".to_string()), &Some("/s".to_string()), &d),
        Some("/v".to_string())
    );
}
