use copernicus_viewer::cdse::downloads::{CdseDownloadUiStatus, CdseDownloadTool};
use copernicus_viewer::cdse::extract::{
    accept_product_dir, candidate_step, is_zip_path, prefer_safe_candidate, prefer_zarr_candidate,
    product_root_step, DirFacts, RootStep, ScanStep,
};

fn dir(path: &str, zarr_meta: bool, manifest: bool) -> DirFacts {
    DirFacts {
        path: path.to_string(),
        name: path.rsplit('/').next().map(|s| s.to_string()),
        is_dir: true,
        has_zarr_metadata: zarr_meta,
        has_safe_manifest: manifest,
    }
}

#[test]
fn zip_paths_by_extension() {
    assert!(is_zip_path("/tmp/S3A.zip"));
    assert!(is_zip_path("/tmp/S3A.ZIP"));
    assert!(!is_zip_path("/tmp/S3A.zarr"));
    assert!(!is_zip_path("/tmp/zip"));
}

#[test]
fn scan_steps() {
    let store = dir("/x/a.zarr", true, false);
    assert_eq!(candidate_step(&store, 0, 4), ScanStep { zarr: true, safe: false, descend: false });
    let named = dir("/x/b.zarr", false, false);
    assert_eq!(candidate_step(&named, 1, 4), ScanStep { zarr: true, safe: false, descend: true });
    let safe = dir("/x/S3A.SEN3", false, true);
    assert_eq!(candidate_step(&safe, 1, 4), ScanStep { zarr: false, safe: true, descend: false });
    assert_eq!(candidate_step(&named, 5, 4), ScanStep { zarr: false, safe: false, descend: false });
}

#[test]
fn preferred_candidates() {
    let c = vec![dir("/x/b.zarr", false, false), dir("/x/data", true, false), dir("/x/a.zarr", true, false)];
    assert_eq!(prefer_zarr_candidate(&c), Some(2));
    let c = vec![dir("/x/b.zarr", false, false), dir("/x/data", true, false)];
    assert_eq!(prefer_zarr_candidate(&c), Some(1));
    assert_eq!(prefer_zarr_candidate(&Vec::new()), None);
    let s = vec![dir("/x/a", false, false), dir("/x/b.SEN3", false, true)];
    assert_eq!(prefer_safe_candidate(&s), Some(1));
}

#[test]
fn root_steps() {
    let root = dir("/tmp/x", false, false);
    let zarr = vec![dir("/tmp/x/p/prod.zarr", true, false)];
    match product_root_step(&root, &zarr, &Vec::new(), &Vec::new(), true) {
        RootStep::Found(p) => assert_eq!(p, "/tmp/x/p/prod.zarr"),
        other => panic!("unexpected {other:?}"),
    }
    let safe = vec![dir("/tmp/x/S3A.SEN3", false, true)];
    match product_root_step(&root, &Vec::new(), &safe, &Vec::new(), false) {
        RootStep::Failed(e) => assert!(e.contains("SAFE support is disabled")),
        other => panic!("unexpected {other:?}"),
    }
    match product_root_step(&root, &Vec::new(), &Vec::new(), &vec!["/tmp/x/only".to_string()], true) {
        RootStep::Descend(c) => assert_eq!(c, "/tmp/x/only"),
        other => panic!("unexpected {other:?}"),
    }
    match product_root_step(&root, &Vec::new(), &Vec::new(), &Vec::new(), true) {
        RootStep::Failed(e) => assert_eq!(e, "no Zarr (.zarr) or SAFE (.SEN3) product root found under /tmp/x"),
        other => panic!("unexpected {other:?}"),
    }
    assert_eq!(accept_product_dir(&dir("/p.zarr", true, false), false).unwrap(), "/p.zarr");
}

#[test]
fn download_queue_and_results() {
    let mut d = CdseDownloadTool::new();
    d.queue_download("id1", "Product 1");
    assert!(matches!(d.download_status("id1"), Some(CdseDownloadUiStatus::Downloading)));
    assert_eq!(d.status, "Downloading Product 1…");
    d.queue_download("id1", "Product 1");
    let reqs = d.take_pending_downloads();
    assert_eq!(reqs.len(), 1);
    assert_eq!(reqs[0].dest_dir, ".");
    assert!(d.take_pending_downloads().is_empty());
    d.apply_download_result("id1", Ok("/tmp/p.zip".to_string()));
    assert!(matches!(d.download_status("id1"), Some(CdseDownloadUiStatus::Completed { path }) if path == "/tmp/p.zip"));
    assert_eq!(d.take_paths_to_open(), vec!["/tmp/p.zip".to_string()]);
    d.apply_download_result("id2", Err("boom".to_string()));
    assert_eq!(d.status, "Download failed: boom");
    d.set_download_dir("  ".to_string());
    d.queue_download("id3", "P3");
    assert_eq!(d.status, "Choose a download folder first.");
    assert!(d.download_status("id3").is_none());
    d.note_open_failed("/tmp/p", "bad");
    assert_eq!(d.status, "Downloaded to /tmp/p; open failed: bad. Extract SAFE archives manually or use a Zarr product.");
}

#[test]
fn search_results_update_the_status() {
    let mut d = CdseDownloadTool::new();
    d.pending_search = true;
    assert!(d.take_pending_search());
    assert!(!d.take_pending_search());
    d.start_searching();
    assert!(d.searching);
    d.search_finished(Ok(3));
    assert!(!d.searching);
    assert_eq!(d.status, "Found 3 product(s).");
    d.search_finished(Err("offline".to_string()));
    assert_eq!(d.status, "Search failed: offline");
}
