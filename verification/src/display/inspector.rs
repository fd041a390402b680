//! What the inspector shows of a selected node: its summary, the product's
//! attribute tree, and the data preview of a loaded array.
use vstd::prelude::*;

use crate::display::repr::{format_node_repr, repr_body, repr_title};
use crate::display::stac::{attr_views, parse_root_attributes, root_attributes_of, spec_attribute_tree, AttributeNode};
use crate::display::stats::ArrayPreview;
use crate::zarr::tree::{ZarrNodeKind, ZarrTreeNode};

verus! {

/// The inspector's text content (the coverage map and the statistics of
/// loaded values are drawn from numbers the interface keeps).
#[derive(Debug)]
pub struct InspectorView {
    pub title: String,
    pub repr_body: String,
    pub root_attributes: Option<Vec<AttributeNode>>,
    pub preview: Option<ArrayPreview>,
}

/// The root node whose attributes the inspector shows: the node itself when
/// it is the root, else the given root.
pub open spec fn inspected_root(node: ZarrTreeNode, root: Option<ZarrTreeNode>) -> Option<ZarrTreeNode> {
    if node.path@ == "/"@ {
        Some(node)
    } else {
        root
    }
}

impl InspectorView {
    /// The inspector for `node` of product `product_name`, with `root` the
    /// product's root node (for its attribute tree).
    pub fn from_node_with_root(node: &ZarrTreeNode, product_name: &str, root: Option<&ZarrTreeNode>) -> (r: Self)
        ensures
            r.title@ == repr_title(*node, product_name@),
            r.repr_body@ == repr_body(*node),
            r.preview is None,
            match inspected_root(
                *node,
                match root {
                    Some(x) => Some(*x),
                    None => None,
                },
            ) {
                Some(rn) => match root_attributes_of(rn, None) {
                    Some(attrs) => if attrs.len() == 0 {
                        r.root_attributes is None
                    } else {
                        r.root_attributes matches Some(t) && attr_views(t@) == spec_attribute_tree(attrs)
                    },
                    None => r.root_attributes is None,
                },
                None => r.root_attributes is None,
            },
    {
        let repr = format_node_repr(node, product_name);
        let root_node: Option<&ZarrTreeNode> = if crate::text::str_is(node.path.as_str(), "/") {
            Some(node)
        } else {
            root
        };
        let root_attributes = match root_node {
            Some(rn) => parse_root_attributes(rn, None),
            None => None,
        };
        InspectorView { title: repr.title, repr_body: repr.body, root_attributes, preview: None }
    }

    /// The inspector for `node` without a known root.
    pub fn from_node(node: &ZarrTreeNode, product_name: &str) -> (r: Self)
        ensures
            r.title@ == repr_title(*node, product_name@),
            r.repr_body@ == repr_body(*node),
            r.preview is None,
            node.path@ != "/"@ ==> r.root_attributes is None,
    {
        InspectorView::from_node_with_root(node, product_name, None)
    }

    /// Show the preview of a loaded array.
    pub fn set_array_extras(&mut self, preview: ArrayPreview)
        ensures
            final(self).preview == Some(preview),
            final(self).title == old(self).title,
            final(self).repr_body == old(self).repr_body,
    {
        self.preview = Some(preview);
    }

    /// Drop the array preview.
    pub fn clear_array_extras(&mut self)
        ensures
            final(self).preview is None,
            final(self).title == old(self).title,
            final(self).repr_body == old(self).repr_body,
    {
        self.preview = None;
    }
}

} // verus!
