//! Colors with 8-bit channels, and the reading of a paint value.

use crate::svg_syntax::{paint, svg_paint};
use vstd::prelude::*;

verus! {

/// A color: red, green, blue and alpha, each in `0..=255`.
#[derive(Clone, Copy, Debug, PartialEq, Eq, Structural)]
pub struct Color {
    pub red: u8,
    pub green: u8,
    pub blue: u8,
    pub alpha: u8,
}

/// What a paint value asks for.
#[derive(Clone, Copy, Debug, PartialEq, Eq, Structural)]
pub enum Paint {
    /// Nothing is painted.
    Nothing,
    /// The paint of the parent.
    Inherit,
    /// The current color.
    CurrentColor,
    /// A plain color.
    Plain { red: u8, green: u8, blue: u8 },
    /// A paint server, named by a link.
    Link,
}

/// The channels of a paint value that is a plain color; `None` where the
/// value cannot be read or asks for anything but a plain color.
pub open spec fn svg_paint_color(text: Seq<char>) -> Option<(u8, u8, u8)> {
    match svg_paint(text) {
        Some(Paint::Plain { red, green, blue }) => Some((red, green, blue)),
        _ => None,
    }
}

/// Reads a paint value and keeps the channels of a plain color.
pub fn paint_color(text: &str) -> (r: Option<(u8, u8, u8)>)
    ensures
        r == svg_paint_color(text@),
{
    match paint(text) {
        Some(Paint::Plain { red, green, blue }) => Some((red, green, blue)),
        _ => None,
    }
}

/// The color that a parsed paint and an alpha channel make.
pub open spec fn color_from(paint: Option<(u8, u8, u8)>, alpha: u8) -> Option<Color> {
    match paint {
        Some((red, green, blue)) => Some(Color { red, green, blue, alpha }),
        None => None,
    }
}

impl Color {
    /// Opaque black.
    pub fn black() -> (c: Color)
        ensures
            c == (Color { red: 0, green: 0, blue: 0, alpha: 255 }),
    {
        Color { red: 0, green: 0, blue: 0, alpha: 255 }
    }

    /// Opaque red.
    pub fn red() -> (c: Color)
        ensures
            c == (Color { red: 255, green: 0, blue: 0, alpha: 255 }),
    {
        Color { red: 255, green: 0, blue: 0, alpha: 255 }
    }

    /// Joins the channels of a parsed paint with an alpha channel.
    pub fn from_paint(paint: Option<(u8, u8, u8)>, alpha: u8) -> (c: Option<Color>)
        ensures
            c == color_from(paint, alpha),
    {
        match paint {
            Some((red, green, blue)) => Some(Color { red, green, blue, alpha }),
            None => None,
        }
    }
}

/// Reads a paint value as a color with the given alpha channel. `None` where
/// the value is not a plain color.
pub fn to_color(color: &str, opacity: u8) -> (c: Option<Color>)
    ensures
        c == color_from(svg_paint_color(color@), opacity),
{
    Color::from_paint(paint_color(color), opacity)
}

} // verus!
