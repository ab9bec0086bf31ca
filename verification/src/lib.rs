//! Reads an SVG document into what is needed to show it: the shapes with
//! their styles, the commands of their paths, the extent of the drawing, the
//! passes that each path gets, and the triangle meshes as they come back from
//! tessellation.
//!
//! Numbers are carried by their bit patterns and never computed with; the
//! arithmetic on coordinates belongs to the caller.

pub mod color;
pub mod error;
pub mod extent;
pub mod extract;
pub mod geometry;
pub mod markup;
pub mod number;
pub mod path;
pub mod plan;
pub mod strategy;
pub mod style;
pub mod svg_syntax;
pub mod text;

pub use error::ParseError;
pub use extract::StyleSegment;
pub use plan::load_svg_map;
pub use strategy::{Handle, StyleStrategy, SvgWhole};
pub use style::SvgStyle;
