//! Text shown by the inspector: array previews, node summaries and the
//! attribute tree of a product.

pub mod inspector;
pub mod repr;
pub mod stac;
pub mod stats;
