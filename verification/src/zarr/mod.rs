//! Zarr product locations, S3 credentials, and the product hierarchy tree.
pub mod error;
pub mod location;
pub mod creds;
pub mod conf_law;
pub mod resolve;
pub mod download;
pub mod tree;
