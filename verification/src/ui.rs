//! Decision logic behind the window layer: the pane tree model and the
//! rules that the widget code applies to it.
pub mod focus;
pub mod leaf;
pub mod pane;
pub mod process;
pub mod tabs;
