use copernicus_viewer::cdse::extract::is_zip_path;
use copernicus_viewer::file_browser::BrowserLocation;
use copernicus_viewer::safe::mapping::mapping_from_json;
use copernicus_viewer::safe::product_type::safe_manifest_path;
use copernicus_viewer::zarr::location::{
    is_local_zarr_root, resolve_zarr_product_path, zarr_marker_paths, zarr_root_verdict,
};

#[test]
fn zarr_root_verdict_cases() {
    assert!(zarr_root_verdict(true, true, false));
    assert!(zarr_root_verdict(true, false, true));
    assert!(!zarr_root_verdict(true, false, false));
    assert!(!zarr_root_verdict(false, true, true));
}

#[test]
fn marker_and_manifest_paths() {
    let (g, m) = zarr_marker_paths("/d/p");
    assert_eq!(g, "/d/p/.zgroup");
    assert_eq!(m, "/d/p/.zmetadata");
    assert_eq!(safe_manifest_path("/d/x.SEN3"), "/d/x.SEN3/xfdumanifest.xml");
}

fn named_dir(parent: &std::path::Path, name: &str) -> tempfile::TempDir {
    tempfile::Builder::new().prefix(name).rand_bytes(0).tempdir_in(parent).unwrap()
}

#[test]
fn zarr_root_on_disk() {
    let dir = tempfile::tempdir().unwrap();
    let root = named_dir(dir.path(), "plain");
    let mid = named_dir(root.path(), "measurements");
    let leaf = named_dir(mid.path(), "image");
    let root_s = root.path().to_string_lossy().into_owned();
    assert!(!is_local_zarr_root(&root_s));
    assert_eq!(resolve_zarr_product_path(&leaf.path().to_string_lossy()), leaf.path().to_string_lossy());
    let _marker = tempfile::Builder::new().prefix(".zgroup").rand_bytes(0).tempfile_in(root.path()).unwrap();
    assert!(is_local_zarr_root(&root_s));
    assert_eq!(resolve_zarr_product_path(&leaf.path().to_string_lossy()), root_s);
}

#[test]
fn up_button_probes_the_parent() {
    let here = BrowserLocation::Local("/d/p".to_string());
    assert_eq!(here.up_probe_path(), Some("/d".to_string()));
    assert!(here.can_go_up_given(true));
    assert!(!here.can_go_up_given(false));
    let top = BrowserLocation::Local("/".to_string());
    assert_eq!(top.up_probe_path(), None);
    assert!(!top.can_go_up_given(true));
    assert!(!BrowserLocation::S3Root.can_go_up_given(true));
    let bucket = BrowserLocation::S3 { bucket: "b".to_string(), prefix: String::new() };
    assert!(bucket.can_go_up_given(false));
    assert_eq!(bucket.up_probe_path(), None);
}

#[test]
fn extension_follows_the_file_name() {
    assert!(is_zip_path("/tmp/a.ZIP"));
    assert!(!is_zip_path("/tmp/.zip"));
    assert!(is_zip_path("/tmp/..zip"));
    assert!(!is_zip_path("/tmp/zip"));
}

#[test]
fn mapping_parsed_from_json_text() {
    let text = r#"{"LST_in.nc:LST": "/measurements/lst", "geodetic_in.nc:latitude_in": "coords:latitude_in", "no_colon": "/skipped"}"#;
    let m = mapping_from_json("S03SLSLST", text, vec![("rows".to_string(), 512)]).unwrap();
    assert_eq!(m.product_type, "S03SLSLST");
    assert_eq!(m.arrays.len(), 2);
    let lst = m.arrays.iter().find(|(k, _)| k == "/measurements/lst").unwrap();
    assert_eq!(lst.1.nc_path, "LST_in.nc");
    assert_eq!(lst.1.var_name, "LST");
    assert_eq!(m.coord_paths, vec![("latitude_in".to_string(), "/coords/latitude_in".to_string())]);
    assert!(mapping_from_json("S03SLSLST", "not json", Vec::new()).is_none());
    assert!(mapping_from_json("S03SLSLST", r#"{"a.nc:x": 1}"#, Vec::new()).is_none());
}
