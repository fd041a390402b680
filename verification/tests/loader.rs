use copernicus_viewer::plot::flags::FlagSelection;
use copernicus_viewer::plot::loader::{build_subset, PlotRequest, SubsetError, MAX_PLOT_PIXELS};

#[test]
fn build_subset_full_resolution_2d() {
    let shape = [100u64, 200];
    let (ranges, y, x, capped) = build_subset(&shape, &[], 100).expect("subset");
    assert!(!capped);
    assert_eq!(y, 0..100);
    assert_eq!(x, 0..200);
    assert_eq!(ranges.len(), 2);
}

#[test]
fn build_subset_half_resolution_center_crop() {
    let shape = [100u64, 200];
    let (_, y, x, _) = build_subset(&shape, &[], 50).expect("subset");
    assert_eq!(y, 25..75);
    assert_eq!(x, 50..150);
}

#[test]
fn build_subset_hits_pixel_budget() {
    let shape = [10_000u64, 10_000];
    let (_, y, x, capped) = build_subset(&shape, &[], 100).expect("subset");
    assert!(capped);
    let h = y.end - y.start;
    let w = x.end - x.start;
    assert!(h * w <= MAX_PLOT_PIXELS);
    assert_eq!(h, 4096);
}

#[test]
fn build_subset_fixed_indices_and_errors() {
    let shape = [3u64, 10, 20];
    let (ranges, _, _, _) = build_subset(&shape, &[2], 100).expect("subset");
    assert_eq!(ranges, vec![2..3, 0..10, 0..20]);
    let err = build_subset(&shape, &[], 100).unwrap_err();
    assert_eq!(err.message(), "expected 1 slice indices for shape [3, 10, 20], got 0");
    let err = build_subset(&shape, &[3], 100).unwrap_err();
    assert_eq!(err, SubsetError::OutOfRange { index: 3, size: 3 });
    assert_eq!(err.message(), "slice index 3 out of range for dimension size 3");
}

#[test]
fn build_subset_one_and_zero_dimensions() {
    let (ranges, y, x, capped) = build_subset(&[40], &[], 50).expect("subset");
    assert_eq!(ranges, vec![10..30]);
    assert_eq!(y, 0..1);
    assert_eq!(x, 10..30);
    assert!(!capped);
    let (ranges, y, x, _) = build_subset(&[], &[], 100).expect("subset");
    assert_eq!(ranges, vec![0..1]);
    assert_eq!((y, x), (0..1, 0..1));
}

#[test]
fn plot_request_defaults() {
    let r = PlotRequest::new("/measurements/lst");
    assert_eq!(r.array_path, "/measurements/lst");
    assert!(r.slice_indices.is_empty());
    assert_eq!(r.flag_selection, FlagSelection::Raw);
    assert_eq!(r.resolution_percent, 100);
    assert_eq!(r.sample_stride, 1);
}
