//! Renders a parsed HTML document tree as a compact, indented pseudo-markup
//! notation: tag names with `#id` / `.class` shorthands, remaining attributes
//! as `name="value"` pairs, and children nested in braces.

pub mod attrs;
pub mod escape;
pub mod laws;
pub mod node;
pub mod render;
pub mod text;

pub use escape::escape_default;
pub use text::is_empty;
