use copernicus_viewer::file_browser::{
    directory_items, initial_browser_dir, initial_browser_location, is_zarr_product_dir,
    is_zarr_zip, BrowserItem, BrowserLocation, LocalEntry,
};
use copernicus_viewer::s3_browser::{bucket_items, join_prefix, prefix_items};

#[test]
fn detects_zarr_product_by_suffix() {
    assert!(is_zarr_product_dir("sample.zarr", "/tmp/sample.zarr"));
    assert!(!is_zarr_product_dir("data", "/tmp/data"));
}

#[test]
fn prefers_home_or_root_for_empty_hint() {
    let dir = initial_browser_dir("", &None, &None);
    assert!(std::path::Path::new(&dir).is_absolute());
    let dir = initial_browser_dir("", &None, &Some("/home/user".to_string()));
    assert_eq!(dir, "/home/user");
}

#[test]
fn from_path_hint_parses_s3_uri() {
    let loc = BrowserLocation::from_path_hint("s3://my-bucket/eopf/product.zarr").unwrap();
    assert_eq!(
        loc,
        BrowserLocation::S3 {
            bucket: "my-bucket".to_string(),
            prefix: "eopf/product.zarr".to_string(),
        }
    );
}

#[test]
fn from_path_hint_parses_local_path() {
    let loc = BrowserLocation::from_path_hint("/data/product.zarr").unwrap();
    assert_eq!(loc, BrowserLocation::Local("/data/product.zarr".to_string()));
    assert!(BrowserLocation::from_path_hint("   ").is_none());
}

#[test]
fn s3_go_up_from_prefix_to_bucket_root() {
    let loc = BrowserLocation::S3 {
        bucket: "b".to_string(),
        prefix: "eopf/product.zarr".to_string(),
    };
    assert_eq!(
        loc.go_up(),
        Some(BrowserLocation::S3 {
            bucket: "b".to_string(),
            prefix: "eopf".to_string(),
        })
    );
}

#[test]
fn s3_go_up_from_bucket_root_to_s3_root() {
    let loc = BrowserLocation::S3 {
        bucket: "b".to_string(),
        prefix: String::new(),
    };
    assert_eq!(loc.go_up(), Some(BrowserLocation::S3Root));
    assert_eq!(BrowserLocation::S3Root.go_up(), None);
    assert!(!BrowserLocation::S3Root.can_go_up());
    assert!(loc.can_go_up());
}

#[test]
fn initial_s3_location_uses_parent_of_zarr_product() {
    let loc = initial_browser_location("s3://bucket/eopf/product.zarr", &None, &None);
    assert_eq!(
        loc,
        BrowserLocation::S3 {
            bucket: "bucket".to_string(),
            prefix: "eopf".to_string(),
        }
    );
}

#[test]
fn labels_and_kinds() {
    assert_eq!(BrowserLocation::S3Root.display_label(), "s3:// (configured buckets)");
    let loc = BrowserLocation::S3 { bucket: "b".to_string(), prefix: "p".to_string() };
    assert_eq!(loc.display_label(), "s3://b/p");
    assert!(loc.is_s3());
    assert!(!BrowserLocation::Local("/x".to_string()).is_s3());
    assert!(is_zarr_zip("a.zarr.zip"));
    assert!(!is_zarr_zip("a.zip"));
    assert!(!is_zarr_zip("p.SAFE.zip"));
    assert!(!is_zarr_zip("a.zarr"));
}

#[test]
fn join_prefix_handles_empty_base() {
    assert_eq!(join_prefix("", "foo"), "foo");
    assert_eq!(join_prefix("a", "b"), "a/b");
}

#[test]
fn bucket_list_is_sorted() {
    let items = bucket_items(&vec!["zeta".to_string(), "alpha".to_string()]);
    assert_eq!(items.len(), 2);
    assert_eq!(items[0].location(), "s3://alpha");
    assert_eq!(items[1].location(), "s3://zeta");
}

#[test]
fn prefix_listing_puts_products_first() {
    let children = vec![
        "eopf/b/".to_string(),
        "eopf/a.zarr/".to_string(),
        "eopf/.hidden/".to_string(),
        "eopf/a/".to_string(),
    ];
    let items = prefix_items("bucket", "eopf", &children);
    let locations: Vec<&str> = items.iter().map(|i| i.location()).collect();
    assert_eq!(
        locations,
        vec!["s3://bucket/eopf/a.zarr", "s3://bucket/eopf/a", "s3://bucket/eopf/b"]
    );
    match &items[0] {
        BrowserItem::Directory { zarr_product, .. } => assert!(*zarr_product),
        _ => panic!("expected a directory"),
    }
}

#[test]
fn local_listing_orders_directories_then_archives() {
    let e = |name: &str, is_dir: bool, marker: bool| LocalEntry {
        name: name.to_string(),
        location: format!("/d/{name}"),
        is_dir,
        has_zarr_marker: marker,
    };
    let entries = vec![
        e("z.zarr.zip", false, false),
        e("other.zip", false, false),
        e("plain", true, false),
        e(".git", true, false),
        e("b.zarr", true, false),
        e("notes.txt", false, false),
        e("grp", true, true),
    ];
    let items = directory_items(&entries);
    let locations: Vec<&str> = items.iter().map(|i| i.location()).collect();
    assert_eq!(locations, vec!["/d/b.zarr", "/d/grp", "/d/plain", "/d/z.zarr.zip"]);
}
