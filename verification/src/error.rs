//! What can go wrong while a document is loaded.

use vstd::prelude::*;

verus! {

/// A style property that must be present when it is asked for.
#[derive(Clone, Copy, Debug, PartialEq, Eq, Structural)]
pub enum Property {
    Stroke,
    Fill,
}

/// An error that ends the load of a document.
#[derive(Clone, Copy, Debug, PartialEq, Eq, Structural)]
pub enum SvgError {
    /// The markup parser refused the text of the document.
    DocumentReadError,
    /// A required style property is absent.
    MissingStyleProperty(Property),
}

/// A value of a style property that is present but cannot be read.
#[derive(Clone, Copy, Debug, PartialEq, Eq, Structural)]
pub struct MalformedValue;

/// Path data that the grammar does not accept to its end, or that does not
/// start with a move.
#[derive(Clone, Copy, Debug, PartialEq, Eq, Structural)]
pub struct MalformedPathData;

/// Geometry from which no valid triangle list can be made.
#[derive(Clone, Copy, Debug, PartialEq, Eq, Structural)]
pub enum TessellationError {
    /// The tessellator gave up on the path.
    Failed,
    /// No triangle came out.
    Degenerate,
    /// The indices do not come in threes.
    PartialTriangle,
    /// An index points past the last vertex.
    IndexOutOfRange,
}

/// The error of the path builder.
#[derive(Clone, Copy, Debug, PartialEq, Eq, Structural)]
pub struct ParseError;

} // verus!
