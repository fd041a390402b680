use copernicus_viewer::display::inspector::InspectorView;
use copernicus_viewer::display::repr::{format_dimension_lines, format_dims, format_json_value, format_node_repr};
use copernicus_viewer::display::stac::{
    build_attribute_tree, is_array_index, parse_root_attributes, summarize_group, AttributeNode,
};
use copernicus_viewer::display::stats::{format_preview_table, ArrayPreview};
use copernicus_viewer::json::{JsonNumber, JsonValue};
use copernicus_viewer::zarr::tree::{ZarrNodeKind, ZarrTreeNode};

fn s(text: &str) -> JsonValue {
    JsonValue::Str(text.to_string())
}

fn f(text: &str) -> JsonValue {
    JsonValue::Number(JsonNumber::Float(text.to_string()))
}

fn obj(members: Vec<(&str, JsonValue)>) -> JsonValue {
    JsonValue::Object(members.into_iter().map(|(k, v)| (k.to_string(), v)).collect())
}

fn members(members: Vec<(&str, JsonValue)>) -> Vec<(String, JsonValue)> {
    members.into_iter().map(|(k, v)| (k.to_string(), v)).collect()
}

fn group_children<'a>(tree: &'a [AttributeNode], wanted: &str) -> Option<&'a Vec<AttributeNode>> {
    tree.iter().find_map(|node| match node {
        AttributeNode::Group { name, children } if name == wanted => Some(children),
        _ => None,
    })
}

#[test]
fn merges_colon_separated_keys_into_nested_groups() {
    let attrs = members(vec![
        ("id", s("sample")),
        ("properties:description", s("test")),
        ("properties:product:type", s("OLCEFR")),
        ("stac_version", s("1.1.0")),
    ]);

    let tree = build_attribute_tree(&attrs);
    let properties = group_children(&tree, "properties").expect("properties group");

    assert!(properties.iter().any(|node| match node {
        AttributeNode::Group { name, children } if name == "product" => children.iter().any(
            |child| matches!(
                child,
                AttributeNode::Scalar { name, value }
                    if name == "type" && value == "'OLCEFR'"
            )
        ),
        _ => false,
    }));
}

#[test]
fn preserves_nested_objects_and_arrays() {
    let attrs = members(vec![
        (
            "extent",
            obj(vec![(
                "spatial",
                obj(vec![(
                    "bbox",
                    JsonValue::Array(vec![f("-5.0"), f("45.0"), f("1.0"), f("48.0")]),
                )]),
            )]),
        ),
        (
            "links",
            JsonValue::Array(vec![
                obj(vec![("href", s("https://example.test/item")), ("rel", s("self"))]),
                obj(vec![("href", s("https://example.test/collection")), ("rel", s("collection"))]),
            ]),
        ),
    ]);

    let tree = build_attribute_tree(&attrs);
    assert!(tree.iter().any(|node| matches!(
        node,
        AttributeNode::Group { name, .. } if name == "extent"
    )));
    assert!(tree.iter().any(|node| matches!(
        node,
        AttributeNode::Array { name, children } if name == "links" && children.len() == 2
    )));
}

#[test]
fn merges_colon_keys_with_existing_nested_object() {
    let attrs = members(vec![
        ("properties", obj(vec![("platform", s("Sentinel-3"))])),
        ("properties:datetime", s("2024-06-01T12:00:00Z")),
    ]);

    let tree = build_attribute_tree(&attrs);
    let properties = group_children(&tree, "properties").expect("merged properties");

    assert_eq!(properties.len(), 2);
}

#[test]
fn attribute_tree_keys_come_out_sorted() {
    let attrs = members(vec![("a-b", s("x")), ("a:c", JsonValue::Bool(true))]);
    let tree = build_attribute_tree(&attrs);
    let names: Vec<&str> = tree
        .iter()
        .map(|n| match n {
            AttributeNode::Scalar { name, .. } => name.as_str(),
            AttributeNode::Group { name, .. } => name.as_str(),
            AttributeNode::Array { name, .. } => name.as_str(),
        })
        .collect();
    assert_eq!(names, vec!["a", "a-b"]);
}

#[test]
fn short_scalar_arrays_are_one_line() {
    let attrs = members(vec![(
        "bbox",
        JsonValue::Array(vec![JsonValue::Number(JsonNumber::PosInt(1)), JsonValue::Null, s("x")]),
    )]);
    let tree = build_attribute_tree(&attrs);
    assert!(matches!(
        &tree[0],
        AttributeNode::Scalar { name, value } if name == "bbox" && value == "[1, null, 'x']"
    ));
    assert!(build_attribute_tree(&Vec::new()).is_empty());
}

#[test]
fn array_index_names_and_group_summary() {
    assert!(is_array_index("12"));
    assert!(!is_array_index(""));
    assert!(!is_array_index("1a"));
    let children = vec![
        AttributeNode::Scalar { name: "rel".to_string(), value: "'self'".to_string() },
        AttributeNode::Group { name: "g".to_string(), children: Vec::new() },
        AttributeNode::Scalar { name: "a".to_string(), value: "1".to_string() },
        AttributeNode::Scalar { name: "b".to_string(), value: "2".to_string() },
        AttributeNode::Scalar { name: "c".to_string(), value: "3".to_string() },
    ];
    assert_eq!(summarize_group(&children), "rel='self', a=1, b=2");
}

fn array_node(name: &str, shape: Vec<u64>, dims: Vec<&str>) -> ZarrTreeNode {
    ZarrTreeNode {
        name: name.to_string(),
        path: format!("/{name}"),
        kind: ZarrNodeKind::Array {
            shape,
            chunks: vec![10, 10],
            dtype: "float32".to_string(),
            dimension_names: dims.into_iter().map(String::from).collect(),
            attributes: members(vec![("units", s("K"))]),
            fill_value: Some(f("NaN")),
        },
        children: Vec::new(),
    }
}

#[test]
fn array_repr_lists_dimensions_and_metadata() {
    let node = array_node("lst", vec![100, 200], vec!["rows", "_"]);
    let repr = format_node_repr(&node, "P");
    assert_eq!(repr.title, "<xarray.DataArray 'lst'>");
    assert_eq!(
        repr.body,
        "Dimensions:\n    rows: 100\n    dim: 200\n\nData variables:\n    lst  (rows, dim) float32\n\nArray metadata:\n    shape:  [100, 200]\n    chunks: [10, 10]\n    fill_value: NaN\n\nAttributes:\n    units: 'K'"
    );
}

#[test]
fn group_repr_lists_children() {
    let root = ZarrTreeNode {
        name: String::new(),
        path: "/".to_string(),
        kind: ZarrNodeKind::Group { attributes: Vec::new() },
        children: vec![
            ZarrTreeNode {
                name: "measurements".to_string(),
                path: "/measurements".to_string(),
                kind: ZarrNodeKind::Group { attributes: Vec::new() },
                children: Vec::new(),
            },
            array_node("lst", vec![4], vec!["x"]),
        ],
    };
    let repr = format_node_repr(&root, "S3A_PRODUCT");
    assert_eq!(repr.title, "<xarray.DataTree 'S3A_PRODUCT'>");
    assert_eq!(
        repr.body,
        "Groups: (1)\n    - measurements\n\nData variables: (1)\n    lst  (x) float32\n"
    );
    let empty = format_node_repr(&root.children[0], "S3A_PRODUCT");
    assert_eq!(empty.title, "<xarray.Dataset / Group 'measurements'>");
    assert_eq!(empty.body, "Empty group\n");
}

#[test]
fn dimension_text_helpers() {
    assert_eq!(format_dimension_lines(&[], &Vec::new()), vec!["(scalar)".to_string()]);
    assert_eq!(format_dims(&[3, 4], &vec!["y".to_string()]), "y");
    assert_eq!(format_dims(&[], &vec!["y".to_string()]), "");
}

#[test]
fn json_value_texts() {
    assert_eq!(format_json_value(&s("a")), "'a'");
    assert_eq!(format_json_value(&obj(vec![])), "{}");
    assert_eq!(
        format_json_value(&obj(vec![("k", s("v\"q")), ("n", JsonValue::Number(JsonNumber::NegInt(-2)))])),
        "{\"k\":\"v\\\"q\",\"n\":-2}"
    );
    assert_eq!(
        format_json_value(&obj(vec![("a", JsonValue::Null), ("b", JsonValue::Null), ("c", JsonValue::Null), ("d", JsonValue::Null)])),
        "{4 keys}"
    );
    let seven = JsonValue::Array((0..7).map(|i| JsonValue::Number(JsonNumber::PosInt(i))).collect());
    assert_eq!(format_json_value(&seven), "[7 items]");
    assert_eq!(format_json_value(&JsonValue::Array(vec![JsonValue::Bool(true), s("x")])), "[true, 'x']");
}

#[test]
fn root_attributes_come_from_the_root_group() {
    let root = ZarrTreeNode {
        name: String::new(),
        path: "/".to_string(),
        kind: ZarrNodeKind::Group { attributes: members(vec![("id", s("p"))]) },
        children: Vec::new(),
    };
    let child = array_node("lst", vec![2], vec!["x"]);
    let tree = parse_root_attributes(&child, Some(&root)).expect("tree");
    assert_eq!(tree.len(), 1);
    assert!(parse_root_attributes(&child, None).is_none());
    assert!(parse_root_attributes(&root, None).is_some());
}

#[test]
fn preview_table_text() {
    let empty = ArrayPreview::default();
    assert_eq!(format_preview_table(&empty), "Preview: (empty)");
    let preview = ArrayPreview {
        column_labels: vec!["0".to_string(), "1".to_string()],
        rows: vec![vec!["1".to_string(), "2".to_string()], vec!["3".to_string(), "NaN".to_string()]],
    };
    assert_eq!(
        format_preview_table(&preview),
        "Data preview (subset):\n    0\t1\n    1\t2\n    3\tNaN"
    );
    let long = ArrayPreview {
        column_labels: vec!["0".to_string()],
        rows: (0..8).map(|i| vec![i.to_string()]).collect(),
    };
    assert!(format_preview_table(&long).ends_with("\n    7\n    …"));
}

#[test]
fn inspector_shows_summary_and_root_attributes() {
    let root = ZarrTreeNode {
        name: String::new(),
        path: "/".to_string(),
        kind: ZarrNodeKind::Group { attributes: members(vec![("properties:platform", s("S3A"))]) },
        children: Vec::new(),
    };
    let child = array_node("lst", vec![2], vec!["x"]);
    let view = InspectorView::from_node_with_root(&child, "P", Some(&root));
    assert_eq!(view.title, "<xarray.DataArray 'lst'>");
    let attrs = view.root_attributes.expect("attributes");
    assert!(matches!(&attrs[0], AttributeNode::Group { name, .. } if name == "properties"));
    let mut bare = InspectorView::from_node(&child, "P");
    assert!(bare.root_attributes.is_none());
    bare.set_array_extras(ArrayPreview::default());
    assert!(bare.preview.is_some());
    bare.clear_array_extras();
    assert!(bare.preview.is_none());
}
