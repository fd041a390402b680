//! Verified core of an EOPF Zarr product viewer.
use vstd::prelude::*;

pub mod host;
pub mod order;
pub mod text;
pub mod zarr;
pub mod comparison;
pub mod json;
pub mod json_text;
pub mod debug_text;
pub mod numparse;
pub mod plot;
pub mod file_browser;
pub mod s3_browser;
pub mod platform;
pub mod help_dialog;
pub mod demo_capture;
pub mod safe;

verus! {

} // verus!
pub mod display;
pub mod s3_config_dialog;
pub mod cdse;
pub mod open_dialog;
pub mod product;
pub mod branding;
pub mod viewer;
