//! Comparing two products: structure, chunk grid, and the report.
pub mod array_io;
pub mod structure;
pub mod tool;
pub mod summary;
