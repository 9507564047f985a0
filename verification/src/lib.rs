//! Verified core of a tabbed, split-pane terminal emulator: pane trees,
//! focus geometry, colour palettes, configuration defaults and the small
//! text and decision rules that the window layer applies.
pub mod config;
pub mod explosion;
pub mod palette;
pub mod pane_tree;
pub mod strings;
pub mod ui;
