use copernicus_viewer::cdse::downloads::{can_download_selected, selected_results};
use copernicus_viewer::comparison::summary::{more_failed_summary_lines, passed_summary_lines};

fn strs(v: &[&str]) -> Vec<String> {
    v.iter().map(|s| s.to_string()).collect()
}

#[test]
fn download_selected_takes_ticked_results_in_order() {
    let ids = strs(&["p1", "p2", "p3"]);
    let sel = vec![("p3".to_string(), true), ("p1".to_string(), true), ("p2".to_string(), false)];
    assert_eq!(selected_results(&ids, &sel), vec![0, 2]);
    assert!(selected_results(&ids, &Vec::new()).is_empty());
    assert!(can_download_selected(&sel, " /tmp/dl "));
    assert!(!can_download_selected(&sel, "   "));
    assert!(!can_download_selected(&vec![("p2".to_string(), false)], "/tmp"));
}

#[test]
fn passed_lines_when_nothing_failed() {
    let passed = strs(&["/a", "/b"]);
    assert_eq!(
        passed_summary_lines(0, &passed),
        strs(&["  (passed variables omitted — use --verbose to list them)", "  ✓ /a", "  ✓ /b"])
    );
}

#[test]
fn passed_lines_after_failures_are_capped() {
    let passed = strs(&["/1", "/2", "/3", "/4", "/5", "/6", "/7", "/8"]);
    let lines = passed_summary_lines(2, &passed);
    assert_eq!(lines[0], "  Passed:");
    assert_eq!(lines.len(), 8);
    assert_eq!(lines[6], "  ✓ /6");
    assert_eq!(lines[7], "  … and 2 more passed variables (use --verbose to list all)");
    assert!(passed_summary_lines(3, &Vec::new()).is_empty());
}

#[test]
fn more_failed_line() {
    assert_eq!(more_failed_summary_lines(15, false), strs(&["  … and 3 more failed variables"]));
    assert!(more_failed_summary_lines(12, false).is_empty());
    assert!(more_failed_summary_lines(15, true).is_empty());
}
