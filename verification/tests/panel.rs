use copernicus_viewer::json::JsonValue;
use copernicus_viewer::plot::flags::FlagSelection;
use copernicus_viewer::plot::panel::PlotPanel;

#[test]
fn selecting_arrays_queues_loads() {
    let mut p = PlotPanel::new();
    assert_eq!(p.status, "Select a 2D variable in the hierarchy to display a heatmap.");
    p.select_array("/a", &[2, 3, 4, 5], &Vec::new());
    assert_eq!(p.slice_indices(), &[0, 0]);
    assert_eq!(p.status, "Loading 2D heatmap…");
    let req = p.take_pending_request().expect("request");
    assert_eq!(req.array_path, "/a");
    assert_eq!(req.slice_indices, vec![0, 0]);
    assert!(p.take_pending_request().is_none());
    assert!(!p.is_plot_ready());
    p.mark_loaded(None);
    assert!(p.is_plot_ready());
    p.set_error("bad".to_string());
    assert!(!p.is_plot_ready());
    assert_eq!(p.status, "bad");
}

#[test]
fn scalars_and_flags() {
    let mut p = PlotPanel::new();
    p.select_array("/s", &[], &Vec::new());
    assert_eq!(p.status, "Scalar variable — no plot available");
    assert!(p.take_pending_request().is_none());
    let attrs = vec![
        ("flag_masks".to_string(), JsonValue::Str("1 2".to_string())),
        ("flag_meanings".to_string(), JsonValue::Str("a b".to_string())),
    ];
    p.select_array("/f", &[4, 4], &attrs);
    assert_eq!(p.status, "Loading flag plot…");
    assert_eq!(p.flag_selection(), FlagSelection::Flag(0));
    p.select_array("/l", &[4], &Vec::new());
    assert_eq!(p.status, "Loading 1D plot…");
    p.clear();
    assert!(p.array_path.is_none());
}
