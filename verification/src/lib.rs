//! The terminal surfaces of the solarxy command line: the split-tree
//! arrangement of panels, the keymap that drives it, scrolling, terminal
//! capability detection, and the small pieces of arithmetic the panels and
//! the render dashboard print.

pub mod rect;
pub mod text;
pub mod layout;
pub mod ratio;
pub mod codec;
pub mod frame;
pub mod scroll;
pub mod caps;
pub mod keymap;
pub mod geometry;
pub mod shell;
pub mod panels;
pub mod render_state;
pub mod window;
pub mod arrange;
pub mod lines;
pub mod overlay;
pub mod prefs;
pub mod render_sink;
pub mod parser;
pub mod cli;
pub mod dashboard;
pub mod help;
pub mod surface;
pub mod order;
pub mod glyphs;
pub mod readouts;
pub mod chrome;
pub mod compose;
pub mod report;
