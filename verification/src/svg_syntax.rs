//! The calls into the `svgtypes` parsers. Each function here makes one call
//! and hands the outcome over as plain values; its contract is taken on
//! trust.

use crate::color::Paint;
use crate::number::Number;
use crate::path::{CommandKind, PathCommand};
use std::str::FromStr;
use svgtypes::{Length, NumberList, PathParser, PathSegment};
use vstd::prelude::*;

verus! {

/// `svgtypes::PathSegment`: one segment of a path, as the parser yields it.
/// No signature here holds it; Verus asks for it because `svgtypes::Path`
/// dereferences to a vector of these.
#[verifier::external_type_specification]
#[verifier::external_body]
pub struct ExSvgPathSegment(svgtypes::PathSegment);

/// `svgtypes::Path`: a list of path segments.
#[verifier::external_type_specification]
#[verifier::external_body]
pub struct ExSvgPath(svgtypes::Path);

/// What `svgtypes::Paint::from_str` reads from a paint value, by variant,
/// with the channels of a plain color; `None` where it reports an error.
pub uninterp spec fn svg_paint(text: Seq<char>) -> Option<Paint>;

/// The number that `svgtypes::Length::from_str` reads from a length, without
/// its unit; `None` where it reports an error.
pub uninterp spec fn svg_length_number(text: Seq<char>) -> Option<Number>;

/// The numbers that `svgtypes::NumberList::from_str` reads from a list;
/// `None` where it reports an error.
pub uninterp spec fn svg_number_list(text: Seq<char>) -> Option<Seq<Number>>;

/// The segments that `svgtypes::PathParser` yields for path data, each as a
/// command of this library; `None` where it yields an error.
pub uninterp spec fn svg_path_data(text: Seq<char>) -> Option<Seq<PathCommand>>;

/// The segments that a `svgtypes::Path` holds, each as a command of this
/// library.
pub uninterp spec fn path_contents(path: svgtypes::Path) -> Seq<PathCommand>;

/// Calls `svgtypes::Paint::from_str` and names the variant that it reads,
/// keeping the red, green and blue channels of a `Paint::Color`.
#[verifier::external_body]
pub(crate) fn paint(text: &str) -> (r: Option<Paint>)
    ensures
        r == svg_paint(text@),
{
    match svgtypes::Paint::from_str(text) {
        Ok(svgtypes::Paint::None) => Some(Paint::Nothing),
        Ok(svgtypes::Paint::Inherit) => Some(Paint::Inherit),
        Ok(svgtypes::Paint::CurrentColor) => Some(Paint::CurrentColor),
        Ok(svgtypes::Paint::Color(c)) => {
            Some(Paint::Plain { red: c.red, green: c.green, blue: c.blue })
        },
        Ok(svgtypes::Paint::FuncIRI(..)) => Some(Paint::Link),
        Err(_) => None,
    }
}

/// Calls `svgtypes::Length::from_str` and keeps the number, as its bit
/// pattern.
#[verifier::external_body]
pub(crate) fn length_number(text: &str) -> (r: Option<Number>)
    ensures
        r == svg_length_number(text@),
{
    Length::from_str(text).ok().map(|l| Number { bits: l.num.to_bits() })
}

/// Calls `svgtypes::NumberList::from_str` and keeps the numbers, each as its
/// bit pattern.
#[verifier::external_body]
pub(crate) fn number_list(text: &str) -> (r: Option<Vec<Number>>)
    ensures
        match r {
            Some(list) => svg_number_list(text@) == Some(list@),
            None => svg_number_list(text@) is None,
        },
{
    let list = NumberList::from_str(text).ok()?;
    Some(list.0.iter().map(|n| Number { bits: n.to_bits() }).collect())
}

/// Runs `svgtypes::PathParser` over path data and collects its segments into
/// a `svgtypes::Path`; `None` as soon as the parser yields an error.
#[verifier::external_body]
pub(crate) fn parse_path(text: &str) -> (r: Option<svgtypes::Path>)
    ensures
        match r {
            Some(path) => svg_path_data(text@) == Some(path_contents(path)),
            None => svg_path_data(text@) is None,
        },
{
    let segments: Result<Vec<PathSegment>, svgtypes::Error> = PathParser::from(text).collect();
    segments.ok().map(svgtypes::Path)
}

/// The length of the vector inside a `svgtypes::Path`.
#[verifier::external_body]
pub(crate) fn path_len(path: &svgtypes::Path) -> (n: usize)
    ensures
        n == path_contents(*path).len(),
{
    path.0.len()
}

/// Calls `svgtypes::PathSegment::cmd` on the segment at `i` and names the
/// variant.
#[verifier::external_body]
pub(crate) fn segment_kind(path: &svgtypes::Path, i: usize) -> (k: CommandKind)
    requires
        i < path_contents(*path).len(),
    ensures
        k == path_contents(*path)[i as int].kind(),
{
    match path.0[i].cmd() {
        svgtypes::PathCommand::MoveTo => CommandKind::MoveTo,
        svgtypes::PathCommand::LineTo => CommandKind::LineTo,
        svgtypes::PathCommand::HorizontalLineTo => CommandKind::HorizontalLineTo,
        svgtypes::PathCommand::VerticalLineTo => CommandKind::VerticalLineTo,
        svgtypes::PathCommand::CurveTo => CommandKind::CubicCurveTo,
        svgtypes::PathCommand::SmoothCurveTo => CommandKind::SmoothCubicCurveTo,
        svgtypes::PathCommand::Quadratic => CommandKind::QuadraticCurveTo,
        svgtypes::PathCommand::SmoothQuadratic => CommandKind::SmoothQuadraticCurveTo,
        svgtypes::PathCommand::EllipticalArc => CommandKind::EllipticalArcTo,
        svgtypes::PathCommand::ClosePath => CommandKind::ClosePath,
    }
}

/// Calls `svgtypes::PathSegment::is_absolute` on the segment at `i`, and
/// picks the two flags of an elliptical arc.
#[verifier::external_body]
pub(crate) fn segment_flags(path: &svgtypes::Path, i: usize) -> (r: (bool, Option<(bool, bool)>))
    requires
        i < path_contents(*path).len(),
    ensures
        r.0 == path_contents(*path)[i as int].is_abs(),
        r.1 == path_contents(*path)[i as int].arc_flags(),
{
    let arc = match path.0[i] {
        PathSegment::EllipticalArc { large_arc, sweep, .. } => Some((large_arc, sweep)),
        _ => None,
    };
    (path.0[i].is_absolute(), arc)
}

/// Calls `svgtypes::PathSegment::x` and `svgtypes::PathSegment::y` on the
/// segment at `i`: the point that the segment moves to, each coordinate as
/// its bit pattern, `None` for a coordinate that the segment does not name.
#[verifier::external_body]
pub(crate) fn segment_target(path: &svgtypes::Path, i: usize) -> (r: (
    Option<Number>,
    Option<Number>,
))
    requires
        i < path_contents(*path).len(),
    ensures
        r.0 == path_contents(*path)[i as int].x_target(),
        r.1 == path_contents(*path)[i as int].y_target(),
{
    let x = path.0[i].x().map(|v| Number { bits: v.to_bits() });
    let y = path.0[i].y().map(|v| Number { bits: v.to_bits() });
    (x, y)
}

/// Picks the operands that the segment at `i` holds besides its target
/// point, in the order they are written, each as its bit pattern.
#[verifier::external_body]
pub(crate) fn segment_controls(path: &svgtypes::Path, i: usize) -> (r: Vec<Number>)
    requires
        i < path_contents(*path).len(),
    ensures
        r@ == path_contents(*path)[i as int].controls(),
{
    let v = match path.0[i] {
        PathSegment::CurveTo { x1, y1, x2, y2, .. } => vec![x1, y1, x2, y2],
        PathSegment::SmoothCurveTo { x2, y2, .. } => vec![x2, y2],
        PathSegment::Quadratic { x1, y1, .. } => vec![x1, y1],
        PathSegment::EllipticalArc { rx, ry, x_axis_rotation, .. } => vec![rx, ry, x_axis_rotation],
        _ => vec![],
    };
    v.into_iter().map(|n| Number { bits: n.to_bits() }).collect()
}

} // verus!
