use copernicus_viewer::comparison::structure::{compare_node_pair, StructureReport, StructureStatus};
use copernicus_viewer::display::repr::format_node_repr;
use copernicus_viewer::display::stac::{build_attribute_tree, AttributeNode};
use copernicus_viewer::json::{json_eq, members_eq, JsonNumber, JsonValue};
use copernicus_viewer::zarr::tree::{ZarrNodeKind, ZarrTreeNode};

fn num(n: u64) -> JsonValue {
    JsonValue::Number(JsonNumber::PosInt(n))
}

fn float(t: &str) -> JsonValue {
    JsonValue::Number(JsonNumber::Float(t.to_string()))
}

fn members(pairs: Vec<(&str, JsonValue)>) -> Vec<(String, JsonValue)> {
    pairs.into_iter().map(|(k, v)| (k.to_string(), v)).collect()
}

#[test]
fn member_order_does_not_matter() {
    let a = members(vec![("a", num(1)), ("b", num(2))]);
    let b = members(vec![("b", num(2)), ("a", num(1))]);
    assert!(members_eq(&a, &b));
    let c = members(vec![("b", num(3)), ("a", num(1))]);
    assert!(!members_eq(&a, &c));
    let d = members(vec![("a", num(1))]);
    assert!(!members_eq(&a, &d));
    let nested_a = JsonValue::Object(members(vec![("x", JsonValue::Object(a)), ("y", JsonValue::Null)]));
    let nested_b = JsonValue::Object(members(vec![("y", JsonValue::Null), ("x", JsonValue::Object(b))]));
    assert!(json_eq(&nested_a, &nested_b));
}

#[test]
fn numbers_compare_by_value() {
    assert!(json_eq(&float("-0.0"), &float("0.0")));
    assert!(json_eq(&float("1.5"), &float("1.5")));
    assert!(!json_eq(&float("1.5"), &float("2.5")));
    assert!(!json_eq(&num(0), &float("0.0")));
    assert!(!json_eq(&JsonValue::Array(vec![num(1), num(2)]), &JsonValue::Array(vec![num(2), num(1)])));
}

fn group(attrs: Vec<(String, JsonValue)>) -> ZarrTreeNode {
    ZarrTreeNode {
        name: "g".to_string(),
        path: "/g".to_string(),
        kind: ZarrNodeKind::Group { attributes: attrs },
        children: Vec::new(),
    }
}

#[test]
fn reordered_attributes_pass_the_comparison() {
    let l = group(members(vec![("a", num(1)), ("b", num(2))]));
    let r = group(members(vec![("b", num(2)), ("a", num(1))]));
    let mut report = StructureReport::new();
    compare_node_pair(&l, &r, true, &mut report);
    assert!(report.issues.iter().all(|i| i.status == StructureStatus::Passed));
}

#[test]
fn attributes_are_listed_by_key() {
    let node = group(members(vec![("zeta", num(1)), ("alpha", num(2))]));
    let repr = format_node_repr(&node, "P");
    assert_eq!(repr.body, "Empty group\n\nAttributes:\n    alpha: 2\n    zeta: 1");
}

#[test]
fn nested_objects_are_listed_by_key() {
    let inner = JsonValue::Object(members(vec![("b", num(1)), ("a", num(2))]));
    let attrs = members(vec![("z", inner)]);
    let tree = build_attribute_tree(&attrs);
    match &tree[0] {
        AttributeNode::Group { name, children } => {
            assert_eq!(name, "z");
            let names: Vec<&str> = children
                .iter()
                .map(|c| match c {
                    AttributeNode::Scalar { name, .. } => name.as_str(),
                    AttributeNode::Group { name, .. } => name.as_str(),
                    AttributeNode::Array { name, .. } => name.as_str(),
                })
                .collect();
            assert_eq!(names, vec!["a", "b"]);
        },
        _ => panic!("expected a group"),
    }
}
