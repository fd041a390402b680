use copernicus_viewer::zarr::download::{
    destination_exists, is_s3_product, parse_s3_location, product_folder_name, DownloadProgress,
};
use copernicus_viewer::zarr::error::IoError;
use copernicus_viewer::zarr::location::{resolved_s3_product, ResolvedProduct, ProductLocation};

#[test]
fn product_folder_name_from_prefix() {
    assert_eq!(
        product_folder_name("eopf/products/S03OLCEFR_202309.zarr").unwrap(),
        "S03OLCEFR_202309.zarr"
    );
    assert_eq!(product_folder_name("product.zarr/").unwrap(), "product.zarr");
}

#[test]
fn rejects_empty_prefix() {
    assert!(product_folder_name("").is_err());
}

#[test]
fn empty_prefix_error_text() {
    assert_eq!(
        product_folder_name("///").unwrap_err(),
        IoError::S3Download("empty S3 prefix".to_string())
    );
}

#[test]
fn is_s3_product_detects_uri() {
    assert!(is_s3_product("s3://bucket/product.zarr"));
    assert!(!is_s3_product("/data/product.zarr"));
}

#[test]
fn rejects_existing_destination() {
    let err = destination_exists("/tmp/x/product.zarr");
    assert!(err.message().contains("already exists"));
}

#[test]
fn s3_location_of_resolved_product() {
    let res = resolved_s3_product("bucket", "eopf/p.zarr");
    assert_eq!(res.canonical_id, "s3://bucket/eopf/p.zarr");
    assert_eq!(
        parse_s3_location(Ok(res)).unwrap(),
        ("bucket".to_string(), "eopf/p.zarr".to_string())
    );
    let local = ResolvedProduct {
        canonical_id: "/data/p.zarr".to_string(),
        location: ProductLocation::Local("/data/p.zarr".to_string()),
    };
    assert_eq!(
        parse_s3_location(Ok(local)).unwrap_err(),
        IoError::S3Download("not an S3 product".to_string())
    );
    assert_eq!(
        parse_s3_location(Err("boom".to_string())).unwrap_err(),
        IoError::S3Download("boom".to_string())
    );
}

#[test]
fn progress_counts_objects_and_bytes() {
    let p = DownloadProgress { objects_done: 1, bytes_done: 10, current_key: "a".to_string() };
    let q = p.after_object(5, ".zgroup").unwrap();
    assert_eq!(q.objects_done, 2);
    assert_eq!(q.bytes_done, 15);
    assert_eq!(q.current_key, ".zgroup");
    let full = DownloadProgress { objects_done: 0, bytes_done: u64::MAX, current_key: String::new() };
    assert!(full.after_object(1, "k").is_none());
}
