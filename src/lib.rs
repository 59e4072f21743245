//! Rolling sample histories and the scaling pass that turns them into
//! polylines for a system usage panel.
//!
//! `buffer` holds the fixed-size circular sample store, `graph` the ordered
//! series that share a window and their render geometry, `display` the four
//! histories the panel keeps, and `format` the byte-count labels.

pub mod buffer;
pub mod display;
pub mod format;
pub mod graph;
