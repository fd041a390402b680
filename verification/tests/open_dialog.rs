use copernicus_viewer::branding::{desktop_entry, icon_dir_name, theme_index};
use copernicus_viewer::branding::{square_crop, APP_ID};
use copernicus_viewer::file_browser::{BrowserItem, BrowserLocation};
use copernicus_viewer::open_dialog::{home_location, DialogAction, OpenProductDialog};
use copernicus_viewer::plot::georef::{extract_crs, parent_path};
use copernicus_viewer::json::{JsonNumber, JsonValue};
use copernicus_viewer::product::{open_path_decision, open_product_target, product_name, OpenDecision, OpenTarget};

#[test]
fn dialog_starts_at_home() {
    let d = OpenProductDialog::new(None);
    assert!(!d.show);
    assert_eq!(d.browser_location, BrowserLocation::Local("/".to_string()));
    let d = OpenProductDialog::new(Some("/home/u".to_string()));
    assert_eq!(d.browser_location, BrowserLocation::Local("/home/u".to_string()));
    assert_eq!(home_location(true, None), BrowserLocation::S3Root);
}

#[test]
fn stale_listings_are_dropped() {
    let mut d = OpenProductDialog::new(None);
    let (id1, loc1) = d.request_browse_list();
    assert_eq!(loc1, BrowserLocation::Local("/".to_string()));
    let (id2, _) = d.set_browser_location(BrowserLocation::S3Root);
    assert!(d.browse_loading);
    assert!(!d.browse_list_ready(id1, &loc1, Ok(Vec::new())));
    assert!(d.browse_loading);
    assert!(d.browse_list_ready(id2, &BrowserLocation::S3Root, Err("no config".to_string())));
    assert!(!d.browse_loading);
    assert_eq!(
        d.empty_listing_message(),
        "No buckets in s3.conf — add [bucket-name] sections or type s3://bucket/path above."
    );
}

#[test]
fn clicks_select_open_and_navigate() {
    let mut d = OpenProductDialog::new(None);
    d.show = true;
    let folder = BrowserItem::Directory {
        name: "data".to_string(),
        location: "/data".to_string(),
        zarr_product: false,
    };
    d.item_clicked(&folder);
    assert_eq!(d.path, "/data");
    match d.item_double_clicked(&folder) {
        DialogAction::Navigate(l) => assert_eq!(l, BrowserLocation::Local("/data".to_string())),
        other => panic!("unexpected {other:?}"),
    }
    assert!(d.path.is_empty());
    assert!(d.show);
    let product = BrowserItem::Directory {
        name: "p.zarr".to_string(),
        location: "/data/p.zarr".to_string(),
        zarr_product: true,
    };
    match d.item_double_clicked(&product) {
        DialogAction::Submit(p) => assert_eq!(p, "/data/p.zarr"),
        other => panic!("unexpected {other:?}"),
    }
    assert!(!d.show);
    d.path = "  ".to_string();
    assert!(!d.can_open());
    assert!(matches!(d.open_clicked(), DialogAction::Nothing));
    d.path = " /x.zarr ".to_string();
    match d.open_clicked() {
        DialogAction::Submit(p) => assert_eq!(p, "/x.zarr"),
        other => panic!("unexpected {other:?}"),
    }
}

#[test]
fn open_targets() {
    assert_eq!(open_product_target("  ", true).unwrap_err(), "product path cannot be empty");
    match open_product_target(" s3://b/p.zarr ", false).unwrap() {
        OpenTarget::Zarr(p) => assert_eq!(p, "s3://b/p.zarr"),
        other => panic!("unexpected {other:?}"),
    }
    match open_product_target("/nonexistent/p.zarr", false).unwrap() {
        OpenTarget::Zarr(p) => assert_eq!(p, "/nonexistent/p.zarr"),
        other => panic!("unexpected {other:?}"),
    }
}

#[test]
fn open_path_decisions_and_names() {
    let roots = vec!["s3://b/p.zarr".to_string()];
    assert!(matches!(open_path_decision("  ", &roots), OpenDecision::Ignore));
    assert!(matches!(open_path_decision("s3://b/p.zarr", &roots), OpenDecision::AlreadyOpen(_)));
    assert!(matches!(open_path_decision("s3://b/q.zarr", &roots), OpenDecision::Open(_)));
    assert_eq!(product_name("s3://bucket/dir/P.zarr"), "P.zarr");
    assert_eq!(product_name("s3://bucket/dir/"), "dir");
    assert_eq!(product_name("/data/P.zarr"), "P.zarr");
    assert_eq!(product_name("/"), "product");
}

#[test]
fn georef_helpers() {
    assert_eq!(parent_path("/measurements/lst"), "/measurements");
    assert_eq!(parent_path("/lst"), "/");
    assert_eq!(parent_path("/a/b/"), "/a");
    assert_eq!(parent_path("lst"), "/");
    let attrs = vec![
        ("epsg".to_string(), JsonValue::Number(JsonNumber::PosInt(4326))),
        ("grid_mapping_name".to_string(), JsonValue::Str("latitude_longitude".to_string())),
    ];
    assert_eq!(extract_crs(&attrs), Some("4326".to_string()));
    let attrs = vec![("grid_mapping_name".to_string(), JsonValue::Str("latitude_longitude".to_string()))];
    assert_eq!(extract_crs(&attrs), Some("latitude_longitude".to_string()));
    assert_eq!(extract_crs(&Vec::new()), None);
}

#[test]
fn logo_square_crop() {
    assert_eq!(square_crop(300, 200), (50, 0, 200));
    assert_eq!(square_crop(100, 101), (0, 0, 100));
    assert!(APP_ID.ends_with("CopernicusViewer"));
}

#[test]
fn desktop_integration_texts() {
    assert_eq!(icon_dir_name(48), "48x48/apps");
    let entry = desktop_entry("/usr/bin/cv");
    assert!(entry.starts_with("[Desktop Entry]\nType=Application\n"));
    assert!(entry.contains("\nExec=/usr/bin/cv %F\n"));
    assert!(entry.ends_with("StartupWMClass=io.github.vlevasseur073.CopernicusViewer\n"));
    let index = theme_index();
    assert!(index.starts_with(
        "[Icon Theme]\nName=Hicolor\nComment=Fallback icon theme\nDirectories=32x32/apps,48x48/apps,64x64/apps,128x128/apps,256x256/apps\n\n[32x32/apps]\nSize=32\nType=Fixed\n\n"
    ));
    assert!(index.ends_with("[256x256/apps]\nSize=256\nType=Fixed\n\n"));
}
