use copernicus_viewer::zarr::location::{
    format_s3_uri, parent_prefix, parse_product_location, resolve_product_location,
    s3_root_after_probe, s3_root_first_step, LocationError, ProductLocation, Resolution,
    S3RootStep,
};

#[test]
fn parses_s3_uri_with_prefix() {
    let loc = parse_product_location("s3://my-bucket/eopf/products/S03.zarr/measurements").unwrap();
    assert_eq!(
        loc,
        ProductLocation::S3 {
            bucket: "my-bucket".to_string(),
            prefix: "eopf/products/S03.zarr/measurements".to_string(),
        }
    );
}

#[test]
fn parses_s3_uri_strips_trailing_slash() {
    let loc = parse_product_location("s3://my-bucket/eopf/product.zarr/").unwrap();
    assert_eq!(
        loc,
        ProductLocation::S3 {
            bucket: "my-bucket".to_string(),
            prefix: "eopf/product.zarr".to_string(),
        }
    );
}

#[test]
fn parses_s3_uri_bucket_only() {
    let loc = parse_product_location("s3://my-bucket").unwrap();
    assert_eq!(
        loc,
        ProductLocation::S3 {
            bucket: "my-bucket".to_string(),
            prefix: String::new(),
        }
    );
}

#[test]
fn parses_local_path() {
    let loc = parse_product_location("/data/product.zarr").unwrap();
    assert_eq!(loc, ProductLocation::Local("/data/product.zarr".to_string()));
}

#[test]
fn rejects_empty_location() {
    assert!(parse_product_location("  ").is_err());
}

#[test]
fn rejects_malformed_s3_uri() {
    assert!(parse_product_location("s3://").is_err());
    assert!(parse_product_location("s3:///no-bucket/key").is_err());
}

#[test]
fn parent_prefix_walks_up() {
    assert_eq!(parent_prefix("a/b/c.zarr"), Some("a/b".to_string()));
    assert_eq!(parent_prefix("product.zarr"), Some(String::new()));
    assert_eq!(parent_prefix(""), None);
}

#[test]
fn format_s3_uri_omits_trailing_slash() {
    assert_eq!(format_s3_uri("b", "p.zarr"), "s3://b/p.zarr");
    assert_eq!(format_s3_uri("b", ""), "s3://b");
}

#[test]
fn resolves_local_nested_path() {
    let resolved = resolve_product_location(ProductLocation::Local(
        "/data/product.zarr/measurements/image".to_string(),
    ));
    match resolved {
        Resolution::Done(res) => {
            assert_eq!(res.canonical_id, "/data/product.zarr");
            assert_eq!(res.location, ProductLocation::Local("/data/product.zarr".to_string()));
        }
        other => panic!("expected a resolved local product, got {other:?}"),
    }
}

#[test]
fn location_error_messages() {
    assert_eq!(parse_product_location(" ").unwrap_err(), LocationError::Empty);
    assert_eq!(LocationError::Empty.message(), "product location cannot be empty");
    assert_eq!(
        parse_product_location("s3://").unwrap_err().message(),
        "invalid s3 URI: missing bucket name"
    );
}

#[test]
fn s3_root_search_steps() {
    assert_eq!(s3_root_first_step("a/p.zarr"), S3RootStep::Found("a/p.zarr".to_string()));
    assert_eq!(s3_root_first_step("a/p/m"), S3RootStep::Probe("a/p/m".to_string()));
    assert_eq!(s3_root_after_probe("a/p/m", true), S3RootStep::Found("a/p/m".to_string()));
    assert_eq!(s3_root_after_probe("a/p/m", false), S3RootStep::Probe("a/p".to_string()));
    assert_eq!(s3_root_after_probe("x.zarr/m", false), S3RootStep::Found("x.zarr".to_string()));
    assert_eq!(s3_root_after_probe("", false), S3RootStep::NotFound);
}

#[test]
fn s3_uri_round_trip_on_values() {
    let uri = format_s3_uri("bucket", "a/b.zarr");
    assert_eq!(
        parse_product_location(&uri).unwrap(),
        ProductLocation::S3 { bucket: "bucket".to_string(), prefix: "a/b.zarr".to_string() }
    );
}
