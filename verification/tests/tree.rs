use copernicus_viewer::comparison::structure::{
    collect_data_variables, collect_flag_variables, compare_structure, StructureStatus,
};
use copernicus_viewer::json::JsonValue;
use copernicus_viewer::zarr::tree::{build_tree, ZarrNodeKind, ZarrTree};

fn group() -> ZarrNodeKind {
    ZarrNodeKind::Group { attributes: Vec::new() }
}

fn array(shape: Vec<u64>, chunks: Vec<u64>, dtype: &str, attributes: Vec<(String, JsonValue)>) -> ZarrNodeKind {
    ZarrNodeKind::Array {
        shape,
        chunks,
        dtype: dtype.to_string(),
        dimension_names: vec!["rows".to_string(), "columns".to_string()],
        attributes,
        fill_value: None,
    }
}

fn flag_attrs() -> Vec<(String, JsonValue)> {
    vec![
        ("flag_masks".to_string(), JsonValue::Str("1 2".to_string())),
        ("flag_meanings".to_string(), JsonValue::Str("a b".to_string())),
    ]
}

fn sample(chunks: Vec<u64>) -> ZarrTree {
    build_tree(vec![
        ("/measurements".to_string(), group()),
        ("/measurements/lst".to_string(), array(vec![10, 20], chunks, "float32", Vec::new())),
        ("/quality/flags".to_string(), array(vec![10, 20], vec![10, 20], "uint8", flag_attrs())),
    ])
}

#[test]
fn build_tree_places_nodes_under_groups() {
    let tree = sample(vec![10, 20]);
    assert_eq!(tree.root.path, "/");
    assert!(tree.root.find_by_path("/measurements/lst").is_some());
    assert!(tree.root.find_by_path("/quality").is_some());
    assert!(tree.root.find_by_path("/missing").is_none());
    let paths = tree.root.collect_paths();
    assert!(paths.contains(&"/quality/flags".to_string()));
    assert_eq!(tree.root.children[0].name, "measurements");
}

#[test]
fn isomorphic_trees_and_variables() {
    let a = sample(vec![10, 20]);
    let b = sample(vec![5, 20]);
    assert!(a.root.is_isomorphic_to(&b.root));
    let other = build_tree(vec![("/measurements".to_string(), group())]);
    assert!(!a.root.is_isomorphic_to(&other.root));
    assert_eq!(collect_data_variables(&a.root), vec!["/measurements/lst".to_string()]);
    assert_eq!(collect_flag_variables(&a.root), vec!["/quality/flags".to_string()]);
}

#[test]
fn structure_comparison_flags_chunk_changes() {
    let a = sample(vec![10, 20]);
    let b = sample(vec![5, 20]);
    let report = compare_structure(&a, &b, true);
    assert!(report.issues.iter().any(|i| i.status == StructureStatus::Warning && i.path == "/measurements/lst"));
    assert_eq!(report.failed_count(), 0);
    assert!(!report.skip_data_comparison);
    let same = compare_structure(&a, &sample(vec![10, 20]), true);
    assert_eq!(same.failed_count(), 0);
    assert_eq!(same.warning_count(), 0);
    let missing = compare_structure(&a, &build_tree(Vec::new()), false);
    assert!(missing.issues.iter().any(|i| i.status == StructureStatus::MissingInNew));
    assert!(missing.failed_count() > 0);
}
