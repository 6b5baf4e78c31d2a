//! Verified building blocks for a handful of small Sway desktop utilities:
//! preparing and choosing a background image, and finding a window in the
//! compositor's scene graph.

pub mod background;
pub mod error;
pub mod json;
pub mod path;
pub mod raster;
pub mod run_or;
pub mod runner;
pub mod scanner;
pub mod selector;
pub mod store;
pub mod text;
pub mod tree;
