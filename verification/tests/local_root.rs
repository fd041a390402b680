use copernicus_viewer::file_browser::{initial_browser_dir, zarr_dir_verdict};
use copernicus_viewer::product::{open_path_decision, open_target_after_probe, OpenDecision, OpenTarget};
use copernicus_viewer::safe::product_type::is_safe_product_dir;
use copernicus_viewer::zarr::location::{
    local_root_after_probe, resolve_local_product, resolve_zarr_product_path, LocalRootStep,
};

#[test]
fn local_root_search_steps() {
    assert_eq!(
        local_root_after_probe("/data/product.zarr/measurements/image", false),
        LocalRootStep::Probe("/data/product.zarr/measurements".to_string())
    );
    assert_eq!(
        local_root_after_probe("/data/product.zarr/measurements", false),
        LocalRootStep::Probe("/data/product.zarr".to_string())
    );
    assert_eq!(
        local_root_after_probe("/data/product.zarr", false),
        LocalRootStep::Found("/data/product.zarr".to_string())
    );
    assert_eq!(
        local_root_after_probe("/data/group", true),
        LocalRootStep::Found("/data/group".to_string())
    );
    assert_eq!(local_root_after_probe("/", false), LocalRootStep::NotFound);
}

#[test]
fn resolves_nested_path_to_zarr_root() {
    assert_eq!(
        resolve_zarr_product_path("/nonexistent-root/product.zarr/measurements/image"),
        "/nonexistent-root/product.zarr"
    );
    assert_eq!(resolve_zarr_product_path("/nonexistent-root/plain/dir"), "/nonexistent-root/plain/dir");
    let r = resolve_local_product("/nonexistent-root/product.zarr/measurements");
    assert_eq!(r.canonical_id, "/nonexistent-root/product.zarr");
}

#[test]
fn zarr_dir_verdict_cases() {
    assert!(zarr_dir_verdict("sample.zarr", false, false));
    assert!(zarr_dir_verdict("data", true, false));
    assert!(zarr_dir_verdict("data", false, true));
    assert!(!zarr_dir_verdict("data", false, false));
}

#[test]
fn open_target_from_disk_answers() {
    match open_target_after_probe("/d/x.SEN3", true, "/d/x.SEN3", false, true).unwrap() {
        OpenTarget::Safe(p) => assert_eq!(p, "/d/x.SEN3"),
        other => panic!("expected SAFE, got {other:?}"),
    }
    match open_target_after_probe("/d/x.SEN3/sub", false, "/d/x.SEN3", true, true).unwrap() {
        OpenTarget::Safe(p) => assert_eq!(p, "/d/x.SEN3"),
        other => panic!("expected SAFE, got {other:?}"),
    }
    assert!(open_target_after_probe("/d/x.SEN3", true, "/d/x.SEN3", false, false)
        .unwrap_err()
        .starts_with("Sentinel-3 SAFE support was disabled"));
    match open_target_after_probe("/d/p.zarr/a", false, "/d/p.zarr", false, true).unwrap() {
        OpenTarget::Zarr(p) => assert_eq!(p, "/d/p.zarr/a"),
        other => panic!("expected Zarr, got {other:?}"),
    }
}

#[test]
fn nested_local_path_is_open_under_its_root() {
    let roots = vec!["/nonexistent-root/p.zarr".to_string()];
    assert!(matches!(
        open_path_decision(" /nonexistent-root/p.zarr/measurements ", &roots),
        OpenDecision::AlreadyOpen(c) if c == "/nonexistent-root/p.zarr"
    ));
    assert!(matches!(
        open_path_decision("/nonexistent-root/q.zarr", &roots),
        OpenDecision::Open(p) if p == "/nonexistent-root/q.zarr"
    ));
}

#[test]
fn blank_hint_gives_home_or_root() {
    assert_eq!(initial_browser_dir("", &None, &Some("/home/u".to_string())), "/home/u");
    assert_eq!(initial_browser_dir("   ", &None, &None), "/");
    assert_eq!(initial_browser_dir("s3://b/p", &None, &None), "/");
}

#[test]
fn missing_safe_folder_is_not_safe() {
    assert!(!is_safe_product_dir("/nonexistent-root/x.SEN3"));
    assert!(!is_safe_product_dir("/nonexistent-root/x.zarr"));
}
