use copernicus_viewer::json::JsonValue;
use copernicus_viewer::plot::workspace::{heatmap_size_label, HeatmapMeta, PlotLayout, PlotWorkspace};

fn empty_attrs() -> Vec<(String, JsonValue)> {
    Vec::new()
}

#[test]
fn open_or_focus_dedupes() {
    let mut ws = PlotWorkspace::default();
    let shape = [64u64, 128];
    let (id1, new1) = ws.open_or_focus(0, "/a", &shape, &empty_attrs(), None, "P1");
    assert!(new1);
    assert_eq!(ws.take_pending_requests().len(), 1);
    let (id2, new2) = ws.open_or_focus(0, "/a", &shape, &empty_attrs(), None, "P1");
    assert!(!new2);
    assert_eq!(id1, id2);
    assert!(ws.take_pending_requests().is_empty());
}

#[test]
fn open_different_paths_creates_tabs() {
    let mut ws = PlotWorkspace::default();
    let shape = [64u64, 128];
    ws.open_or_focus(0, "/a", &shape, &empty_attrs(), None, "P1");
    ws.open_or_focus(0, "/b", &shape, &empty_attrs(), None, "P1");
    assert!(ws.take_pending_requests().len() <= 2);
    let (id_a, _) = ws.open_or_focus(0, "/a", &shape, &empty_attrs(), None, "P1");
    let (id_b, _) = ws.open_or_focus(0, "/b", &shape, &empty_attrs(), None, "P1");
    assert_ne!(id_a, id_b);
}

#[test]
fn queue_reload_includes_resolution_and_stride() {
    let mut ws = PlotWorkspace::default();
    let shape = [64u64, 128];
    ws.open_or_focus(0, "/measurements/lst", &shape, &empty_attrs(), None, "P1");
    ws.take_pending_requests();

    ws.slots[0].resolution_percent = 50;
    ws.slots[0].sample_stride = 4;
    ws.slots[0].queue_reload("/measurements/lst");

    let pending = ws.take_pending_requests();
    assert_eq!(pending.len(), 1);
    let (_, request) = &pending[0];
    assert_eq!(request.resolution_percent, 50);
    assert_eq!(request.sample_stride, 4);
}

#[test]
fn product_close_reindexes() {
    let mut ws = PlotWorkspace::default();
    let shape = [64u64, 128];
    let (id, _) = ws.open_or_focus(1, "/a", &shape, &empty_attrs(), None, "P2");
    ws.on_product_closed(0, false);
    assert_eq!(ws.store_index_for_slot(id), Some(0));
}

#[test]
fn workspace_keeps_at_most_eight_tabs() {
    let mut ws = PlotWorkspace::default();
    let shape = [4u64, 4];
    let mut ids = Vec::new();
    for i in 0..10 {
        let path = format!("/v{i}");
        let (id, new) = ws.open_or_focus(0, &path, &shape, &empty_attrs(), None, "P");
        assert!(new);
        ids.push(id);
    }
    assert!(ws.slots.len() <= 8);
    assert_eq!(ws.active_slot, Some(ids[9]));
    assert_eq!(ws.store_index_for_slot(ids[0]), None);
}

#[test]
fn closing_the_selected_product_drops_its_tabs() {
    let mut ws = PlotWorkspace::default();
    let shape = [4u64, 4];
    let (a, _) = ws.open_or_focus(0, "/a", &shape, &empty_attrs(), None, "P1");
    let (b, _) = ws.open_or_focus(1, "/b", &shape, &empty_attrs(), None, "P2");
    let (c, _) = ws.open_or_focus(2, "/c", &shape, &empty_attrs(), None, "P3");
    ws.on_product_closed(1, false);
    assert_eq!(ws.store_index_for_slot(a), Some(0));
    assert_eq!(ws.store_index_for_slot(b), None);
    assert_eq!(ws.store_index_for_slot(c), Some(1));
}

#[test]
fn resolution_is_clamped_and_reload_queued() {
    let mut ws = PlotWorkspace::default();
    let shape = [64u64, 128];
    ws.open_or_focus(0, "/a", &shape, &empty_attrs(), None, "P1");
    ws.take_pending_requests();
    assert!(ws.set_slot_resolution_percent(0, "/a", 0));
    let pending = ws.take_pending_requests();
    assert_eq!(pending.len(), 1);
    assert_eq!(pending[0].1.resolution_percent, 1);
    assert!(!ws.set_slot_resolution_percent(0, "/missing", 50));
}

#[test]
fn slot_selection_and_readiness() {
    let mut ws = PlotWorkspace::default();
    let shape = [8u64, 8];
    let (id, _) = ws.open_or_focus(3, "/x/y", &shape, &empty_attrs(), None, "P");
    assert!(ws.slot_matches_selection(id, 3, "/x/y"));
    assert!(!ws.slot_matches_selection(id, 3, "/x"));
    assert!(!ws.is_slot_ready(3, "/x/y"));
    ws.mark_loaded(id, None);
    assert!(ws.is_slot_ready(3, "/x/y"));
    assert!(ws.is_plot_ready());
    assert_eq!(ws.slots[0].tab_label(), "P / y");
    assert_eq!(ws.slots[0].tab_hover(), "P — /x/y");
}

#[test]
fn split_layout_switch() {
    let mut ws = PlotWorkspace::default();
    ws.set_layout(PlotLayout::Grid);
    assert_eq!(ws.layout, PlotLayout::Grid);
    assert_eq!(PlotLayout::Grid.capacity(), 4);
}

#[test]
fn heatmap_label_full_and_partial() {
    let full = HeatmapMeta {
        y_start: 0,
        y_end: 100,
        x_start: 0,
        x_end: 200,
        full_shape: vec![100, 200],
        resolution_percent: 100,
        sample_stride: 1,
    };
    assert_eq!(heatmap_size_label(200, 100, &full), "200 × 100 px");
    let part = HeatmapMeta {
        y_start: 25,
        y_end: 75,
        x_start: 50,
        x_end: 150,
        full_shape: vec![100, 200],
        resolution_percent: 50,
        sample_stride: 2,
    };
    assert_eq!(
        heatmap_size_label(100, 50, &part),
        "100 × 50 px (50% window 50 × 100 of 100 × 200), stride 2"
    );
}

#[test]
fn split_visibility_shows_last_then_trims_to_capacity() {
    let mut ws = PlotWorkspace::default();
    let shape = [8u64, 8];
    for p in ["/a", "/b", "/c", "/d", "/e"] {
        ws.open_or_focus(0, p, &shape, &empty_attrs(), None, "P");
    }
    for s in ws.slots.iter_mut() {
        s.visible_in_split = false;
    }
    ws.set_layout(PlotLayout::Horizontal);
    let shown: Vec<bool> = ws.slots.iter().map(|s| s.visible_in_split).collect();
    assert_eq!(shown, vec![false, false, false, true, true]);

    for s in ws.slots.iter_mut() {
        s.visible_in_split = true;
    }
    ws.active_slot = Some(ws.slots[4].id);
    ws.set_layout(PlotLayout::Vertical);
    let shown: Vec<bool> = ws.slots.iter().map(|s| s.visible_in_split).collect();
    assert_eq!(shown, vec![true, true, false, false, true]);
}

#[test]
fn split_panes_follow_visibility_and_capacity() {
    let mut ws = PlotWorkspace::default();
    let shape = [8u64, 8];
    for p in ["/a", "/b", "/c"] {
        ws.open_or_focus(0, p, &shape, &empty_attrs(), None, "P");
    }
    for s in ws.slots.iter_mut() {
        s.visible_in_split = true;
    }
    ws.layout = PlotLayout::Horizontal;
    let ids: Vec<u64> = ws.slots.iter().map(|s| s.id).collect();
    assert_eq!(ws.split_panes(), vec![ids[0], ids[1]]);
    for s in ws.slots.iter_mut() {
        s.visible_in_split = false;
    }
    ws.active_slot = Some(ids[2]);
    assert_eq!(ws.split_panes(), vec![ids[2]]);
    ws.active_slot = None;
    assert!(ws.split_panes().is_empty());
}
