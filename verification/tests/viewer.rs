use copernicus_viewer::viewer::{tree_label, ViewerState};
use copernicus_viewer::zarr::tree::{ZarrNodeKind, ZarrTreeNode};

#[test]
fn opening_products_reports_counts() {
    let mut v = ViewerState::new();
    assert!(v.store_ready("/a.zarr".to_string()));
    assert_eq!(v.status_message, "Loaded /a.zarr (1 product open)");
    assert!(!v.store_ready("/b.zarr".to_string()));
    assert_eq!(v.status_message, "Loaded /b.zarr (2 products open)");
    assert!(!v.store_ready("/a.zarr".to_string()));
    assert_eq!(v.status_message, "Already open: /a.zarr");
    assert_eq!(v.roots.len(), 2);
    v.store_failed("/c", "boom");
    assert_eq!(v.status_message, "Failed to open /c: boom");
}

#[test]
fn closing_products_shifts_selection() {
    let mut v = ViewerState::new();
    for r in ["/a", "/b", "/c"] {
        v.store_ready(r.to_string());
    }
    v.select(2, "/x", true);
    assert!(v.plot_is_current(2, "/x"));
    assert!(!v.close_product(0, "a"));
    assert!(v.node_is_selected(1, "/x"));
    assert!(v.plot_is_current(1, "/x"));
    assert_eq!(v.status_message, "Closed a (2 products open)");
    assert!(v.close_product(1, "c"));
    assert!(v.selected.is_none());
    assert!(v.pending_plot.is_none());
    assert_eq!(v.close_index_for_selection(), 0);
    assert!(!v.close_product(0, "b"));
    assert_eq!(v.status_message, "Closed b");
    assert!(!v.close_product(3, "z"));
}

#[test]
fn tree_labels() {
    let group = ZarrTreeNode {
        name: "conditions".to_string(),
        path: "/conditions".to_string(),
        kind: ZarrNodeKind::Group { attributes: Vec::new() },
        children: Vec::new(),
    };
    assert_eq!(tree_label(&group), "📁 conditions");
    let array = |shape: Vec<u64>| ZarrTreeNode {
        name: "lst".to_string(),
        path: "/lst".to_string(),
        kind: ZarrNodeKind::Array {
            shape,
            chunks: Vec::new(),
            dtype: "float32".to_string(),
            dimension_names: Vec::new(),
            attributes: Vec::new(),
            fill_value: None,
        },
        children: Vec::new(),
    };
    assert_eq!(tree_label(&array(vec![])), "📊 lst (scalar, float32)");
    assert_eq!(tree_label(&array(vec![5])), "📊 lst [5] float32");
    assert_eq!(tree_label(&array(vec![3, 4, 5])), "📊 lst [4, 5] float32");
}
