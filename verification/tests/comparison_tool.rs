use copernicus_viewer::comparison::summary::{overall_success, run_plan, CompareToggles, RunPlan};
use copernicus_viewer::comparison::structure::{StructureIssue, StructureReport, StructureStatus};
use copernicus_viewer::comparison::summary::{
    skipped_summary_lines, structure_summary_lines, summary_header_lines, variable_list_limits,
    SkippedVariable,
};
use copernicus_viewer::comparison::tool::{product_label, ComparisonTool, ErrorMode};

#[test]
fn product_label_uses_final_path_segment() {
    assert_eq!(product_label("/data/S03OLCEFR_20230509.zarr"), "S03OLCEFR_20230509.zarr");
}

#[test]
fn product_label_falls_back_to_path() {
    assert_eq!(product_label("/"), "/");
}

#[test]
fn indices_are_clamped_and_kept_apart() {
    let mut tool: ComparisonTool<u8> = ComparisonTool::new();
    tool.left_index = 5;
    tool.right_index = 5;
    tool.show(3);
    assert!(tool.open);
    assert_eq!((tool.left_index, tool.right_index), (0, 2));
    tool.right_index = 0;
    tool.clamp_indices(3);
    assert_eq!((tool.left_index, tool.right_index), (0, 1));
    tool.result = Some(1);
    tool.clamp_indices(0);
    assert_eq!((tool.left_index, tool.right_index), (0, 0));
    assert!(!tool.has_result());
}

#[test]
fn a_requested_run_is_taken_once() {
    let mut tool: ComparisonTool<&str> = ComparisonTool::new();
    tool.open_and_compare(0, 1, 2);
    assert!(tool.pending_run);
    assert_eq!(tool.take_pending_run(), Some((0, 1, false)));
    assert_eq!(tool.take_pending_run(), None);
    tool.start_running();
    assert!(tool.running);
    tool.set_result("done");
    assert!(!tool.running);
    assert_eq!(tool.result(), Some(&"done"));
    let mut same: ComparisonTool<&str> = ComparisonTool::new();
    same.open_and_compare(1, 1, 2);
    assert!(!same.pending_run);
}

#[test]
fn error_modes_map_to_flags() {
    assert_eq!(ErrorMode::from_flags(true, true), ErrorMode::Relative);
    assert_eq!(ErrorMode::from_flags(false, true), ErrorMode::Absolute);
    assert_eq!(ErrorMode::from_flags(false, false), ErrorMode::Auto);
    assert_eq!(ErrorMode::Absolute.flags(), (false, true));
    assert_eq!(ErrorMode::Auto.label(), "Auto (from scale_factor)");
}

fn issue(path: &str, status: StructureStatus) -> StructureIssue {
    StructureIssue {
        path: path.to_string(),
        field: "shape".to_string(),
        status,
        detail: "differs".to_string(),
    }
}

#[test]
fn report_sections() {
    assert_eq!(
        summary_header_lines("B", "A", false, false, false),
        vec![
            "Compare “B” to reference “A”".to_string(),
            "Overall: FAILED".to_string(),
            "Products are not isomorphic.".to_string()
        ]
    );
    let mut issues = vec![issue("/a", StructureStatus::Passed), issue("/b", StructureStatus::Warning)];
    for i in 0..13 {
        issues.push(issue(&format!("/f{i}"), StructureStatus::MissingInNew));
    }
    let report = StructureReport { issues, skip_data_comparison: true };
    let lines = structure_summary_lines(&report);
    assert_eq!(lines[0], "Structure: 1 passed, 1 warnings, 13 failed");
    assert_eq!(lines[1], "  ⚠ [/b][shape] differs");
    assert_eq!(lines[2], "  ✗ [/f0][shape] differs");
    assert_eq!(lines.len(), 1 + 1 + 12 + 1);
    assert_eq!(lines[14], "  … and 1 more structure issues");

    let skipped: Vec<SkippedVariable> = (0..9)
        .map(|i| SkippedVariable { path: format!("/v{i}"), reason: "dtype".to_string() })
        .collect();
    let lines = skipped_summary_lines(2, 1, &skipped);
    assert_eq!(lines[0], "Variables: 2 passed, 1 failed, 9 skipped");
    assert_eq!(lines[1], "  ⊘ /v0 — dtype");
    assert_eq!(lines.len(), 10);
    assert_eq!(lines[9], "  … and 1 more skipped variables");
    assert_eq!(variable_list_limits(20, 10, false), (12, 6));
    assert_eq!(variable_list_limits(20, 10, true), (20, 10));
}

#[test]
fn run_plans_and_verdicts() {
    let t = CompareToggles::default_toggles();
    assert_eq!(
        run_plan(false, t, false),
        RunPlan { compare_data: false, compare_flags: false, global_score: false, skip_data: true }
    );
    assert_eq!(
        run_plan(true, t, true),
        RunPlan { compare_data: true, compare_flags: true, global_score: true, skip_data: false }
    );
    let with_structure = CompareToggles { structure: true, ..t };
    assert_eq!(
        run_plan(true, with_structure, true),
        RunPlan { compare_data: false, compare_flags: false, global_score: true, skip_data: true }
    );
    assert!(overall_success(true, 0, 0, 0, false));
    assert!(!overall_success(true, 0, 1, 0, false));
    assert!(!overall_success(false, 0, 0, 0, false));
}
