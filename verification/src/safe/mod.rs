//! Sentinel-3 SAFE products: product types, manifest text, and mappings.
pub mod product_type;
pub mod manifest;
pub mod mapping;
