//! A uniform value model for configuration data and a renderer that lays it
//! out as indented, JSON-shaped lines of styled spans.
pub mod values;
pub mod render;
pub mod session;
pub mod laws;
