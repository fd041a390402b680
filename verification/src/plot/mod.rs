//! Array plotting: the request, the pixel budget, CF flags, and the plot workspace.
pub mod flags;
pub mod loader;
pub mod workspace;
pub mod georef;
pub mod panel;
