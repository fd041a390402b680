//! Catalogue downloads: the queue of requested downloads, their status per
//! product, and which downloaded archives hold an openable product.
pub mod downloads;
pub mod extract;

