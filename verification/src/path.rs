//! Path data: the commands of one outline, as the tokenizer hands them over.

use crate::error::MalformedPathData;
use crate::number::Number;
use crate::svg_syntax::{
    parse_path, path_contents, path_len, segment_controls, segment_flags, segment_kind,
    segment_target, svg_path_data,
};
use vstd::prelude::*;

verus! {

/// The letter of a command, without its operands.
#[derive(Clone, Copy, Debug, PartialEq, Eq, Structural)]
pub enum CommandKind {
    MoveTo,
    LineTo,
    HorizontalLineTo,
    VerticalLineTo,
    CubicCurveTo,
    SmoothCubicCurveTo,
    QuadraticCurveTo,
    SmoothQuadraticCurveTo,
    EllipticalArcTo,
    ClosePath,
}

/// One command of a path. `abs` tells an absolute command from a relative
/// one; the operands are kept as written, not resolved against the current
/// point.
#[derive(Clone, Copy, Debug, PartialEq, Eq, Structural)]
pub enum PathCommand {
    MoveTo { abs: bool, x: Number, y: Number },
    LineTo { abs: bool, x: Number, y: Number },
    HorizontalLineTo { abs: bool, x: Number },
    VerticalLineTo { abs: bool, y: Number },
    CubicCurveTo {
        abs: bool,
        x1: Number,
        y1: Number,
        x2: Number,
        y2: Number,
        x: Number,
        y: Number,
    },
    SmoothCubicCurveTo { abs: bool, x2: Number, y2: Number, x: Number, y: Number },
    QuadraticCurveTo { abs: bool, x1: Number, y1: Number, x: Number, y: Number },
    SmoothQuadraticCurveTo { abs: bool, x: Number, y: Number },
    EllipticalArcTo {
        abs: bool,
        rx: Number,
        ry: Number,
        x_axis_rotation: Number,
        large_arc: bool,
        sweep: bool,
        x: Number,
        y: Number,
    },
    ClosePath { abs: bool },
}

impl PathCommand {
    /// The letter of the command.
    pub open spec fn kind(self) -> CommandKind {
        match self {
            PathCommand::MoveTo { .. } => CommandKind::MoveTo,
            PathCommand::LineTo { .. } => CommandKind::LineTo,
            PathCommand::HorizontalLineTo { .. } => CommandKind::HorizontalLineTo,
            PathCommand::VerticalLineTo { .. } => CommandKind::VerticalLineTo,
            PathCommand::CubicCurveTo { .. } => CommandKind::CubicCurveTo,
            PathCommand::SmoothCubicCurveTo { .. } => CommandKind::SmoothCubicCurveTo,
            PathCommand::QuadraticCurveTo { .. } => CommandKind::QuadraticCurveTo,
            PathCommand::SmoothQuadraticCurveTo { .. } => CommandKind::SmoothQuadraticCurveTo,
            PathCommand::EllipticalArcTo { .. } => CommandKind::EllipticalArcTo,
            PathCommand::ClosePath { .. } => CommandKind::ClosePath,
        }
    }

    /// Whether the command is absolute.
    pub open spec fn is_abs(self) -> bool {
        match self {
            PathCommand::MoveTo { abs, .. } => abs,
            PathCommand::LineTo { abs, .. } => abs,
            PathCommand::HorizontalLineTo { abs, .. } => abs,
            PathCommand::VerticalLineTo { abs, .. } => abs,
            PathCommand::CubicCurveTo { abs, .. } => abs,
            PathCommand::SmoothCubicCurveTo { abs, .. } => abs,
            PathCommand::QuadraticCurveTo { abs, .. } => abs,
            PathCommand::SmoothQuadraticCurveTo { abs, .. } => abs,
            PathCommand::EllipticalArcTo { abs, .. } => abs,
            PathCommand::ClosePath { abs } => abs,
        }
    }

    /// The large-arc and sweep flags of an arc; `None` for any other command.
    pub open spec fn arc_flags(self) -> Option<(bool, bool)> {
        match self {
            PathCommand::EllipticalArcTo { large_arc, sweep, .. } => Some((large_arc, sweep)),
            _ => None,
        }
    }

    /// The abscissa of the point that the command moves to, where it names
    /// one. A curve has further abscissas in its control points.
    pub open spec fn x_target(self) -> Option<Number> {
        match self {
            PathCommand::MoveTo { x, .. } => Some(x),
            PathCommand::LineTo { x, .. } => Some(x),
            PathCommand::HorizontalLineTo { x, .. } => Some(x),
            PathCommand::VerticalLineTo { .. } => None,
            PathCommand::CubicCurveTo { x, .. } => Some(x),
            PathCommand::SmoothCubicCurveTo { x, .. } => Some(x),
            PathCommand::QuadraticCurveTo { x, .. } => Some(x),
            PathCommand::SmoothQuadraticCurveTo { x, .. } => Some(x),
            PathCommand::EllipticalArcTo { x, .. } => Some(x),
            PathCommand::ClosePath { .. } => None,
        }
    }

    /// The ordinate of the point that the command moves to, where it names
    /// one. A curve has further ordinates in its control points.
    pub open spec fn y_target(self) -> Option<Number> {
        match self {
            PathCommand::MoveTo { y, .. } => Some(y),
            PathCommand::LineTo { y, .. } => Some(y),
            PathCommand::HorizontalLineTo { .. } => None,
            PathCommand::VerticalLineTo { y, .. } => Some(y),
            PathCommand::CubicCurveTo { y, .. } => Some(y),
            PathCommand::SmoothCubicCurveTo { y, .. } => Some(y),
            PathCommand::QuadraticCurveTo { y, .. } => Some(y),
            PathCommand::SmoothQuadraticCurveTo { y, .. } => Some(y),
            PathCommand::EllipticalArcTo { y, .. } => Some(y),
            PathCommand::ClosePath { .. } => None,
        }
    }

    /// The operands that come before the target point: control points of a
    /// curve, or radii and rotation of an arc.
    pub open spec fn controls(self) -> Seq<Number> {
        match self {
            PathCommand::CubicCurveTo { x1, y1, x2, y2, .. } => seq![x1, y1, x2, y2],
            PathCommand::SmoothCubicCurveTo { x2, y2, .. } => seq![x2, y2],
            PathCommand::QuadraticCurveTo { x1, y1, .. } => seq![x1, y1],
            PathCommand::EllipticalArcTo { rx, ry, x_axis_rotation, .. } => seq![
                rx,
                ry,
                x_axis_rotation,
            ],
            _ => Seq::empty(),
        }
    }

    /// Whether the command belongs to the subset that is drawn: every kind
    /// but the two smooth curves.
    pub open spec fn supported(self) -> bool {
        self.kind() != CommandKind::SmoothCubicCurveTo && self.kind()
            != CommandKind::SmoothQuadraticCurveTo
    }

    /// The letter of the command.
    pub fn command_kind(&self) -> (k: CommandKind)
        ensures
            k == self.kind(),
    {
        match self {
            PathCommand::MoveTo { .. } => CommandKind::MoveTo,
            PathCommand::LineTo { .. } => CommandKind::LineTo,
            PathCommand::HorizontalLineTo { .. } => CommandKind::HorizontalLineTo,
            PathCommand::VerticalLineTo { .. } => CommandKind::VerticalLineTo,
            PathCommand::CubicCurveTo { .. } => CommandKind::CubicCurveTo,
            PathCommand::SmoothCubicCurveTo { .. } => CommandKind::SmoothCubicCurveTo,
            PathCommand::QuadraticCurveTo { .. } => CommandKind::QuadraticCurveTo,
            PathCommand::SmoothQuadraticCurveTo { .. } => CommandKind::SmoothQuadraticCurveTo,
            PathCommand::EllipticalArcTo { .. } => CommandKind::EllipticalArcTo,
            PathCommand::ClosePath { .. } => CommandKind::ClosePath,
        }
    }

    /// The abscissa of the point that the command moves to, where it names
    /// one.
    pub fn x(&self) -> (r: Option<Number>)
        ensures
            r == self.x_target(),
    {
        match self {
            PathCommand::MoveTo { x, .. } => Some(*x),
            PathCommand::LineTo { x, .. } => Some(*x),
            PathCommand::HorizontalLineTo { x, .. } => Some(*x),
            PathCommand::VerticalLineTo { .. } => None,
            PathCommand::CubicCurveTo { x, .. } => Some(*x),
            PathCommand::SmoothCubicCurveTo { x, .. } => Some(*x),
            PathCommand::QuadraticCurveTo { x, .. } => Some(*x),
            PathCommand::SmoothQuadraticCurveTo { x, .. } => Some(*x),
            PathCommand::EllipticalArcTo { x, .. } => Some(*x),
            PathCommand::ClosePath { .. } => None,
        }
    }

    /// The ordinate of the point that the command moves to, where it names
    /// one.
    pub fn y(&self) -> (r: Option<Number>)
        ensures
            r == self.y_target(),
    {
        match self {
            PathCommand::MoveTo { y, .. } => Some(*y),
            PathCommand::LineTo { y, .. } => Some(*y),
            PathCommand::HorizontalLineTo { .. } => None,
            PathCommand::VerticalLineTo { y, .. } => Some(*y),
            PathCommand::CubicCurveTo { y, .. } => Some(*y),
            PathCommand::SmoothCubicCurveTo { y, .. } => Some(*y),
            PathCommand::QuadraticCurveTo { y, .. } => Some(*y),
            PathCommand::SmoothQuadraticCurveTo { y, .. } => Some(*y),
            PathCommand::EllipticalArcTo { y, .. } => Some(*y),
            PathCommand::ClosePath { .. } => None,
        }
    }

    /// Whether the command belongs to the subset that is drawn.
    pub fn is_supported(&self) -> (r: bool)
        ensures
            r == self.supported(),
    {
        match self {
            PathCommand::SmoothCubicCurveTo { .. } => false,
            PathCommand::SmoothQuadraticCurveTo { .. } => false,
            _ => true,
        }
    }
}

/// Whether a sequence of commands is empty or starts with a move.
pub open spec fn starts_with_move(commands: Seq<PathCommand>) -> bool {
    commands.len() == 0 || commands[0].kind() == CommandKind::MoveTo
}

/// What `tokenize_path` returns for the outcome of the parser: the commands
/// where the parser gave them and they are empty or start with a move, else
/// the error.
pub open spec fn accepted_commands(parsed: Option<Seq<PathCommand>>) -> Result<
    Seq<PathCommand>,
    MalformedPathData,
> {
    match parsed {
        Some(commands) => if starts_with_move(commands) {
            Ok(commands)
        } else {
            Err(MalformedPathData)
        },
        None => Err(MalformedPathData),
    }
}

/// Accepts a parsed command list that is empty or starts with a move.
pub fn check_commands(commands: Vec<PathCommand>) -> (r: Result<
    Vec<PathCommand>,
    MalformedPathData,
>)
    ensures
        match r {
            Ok(kept) => kept == commands && starts_with_move(commands@),
            Err(_) => !starts_with_move(commands@),
        },
{
    if commands.len() == 0 {
        Ok(commands)
    } else {
        match commands[0] {
            PathCommand::MoveTo { .. } => Ok(commands),
            _ => Err(MalformedPathData),
        }
    }
}

/// The command at position `i` of a parsed path.
fn command_at(path: &svgtypes::Path, i: usize) -> (c: PathCommand)
    requires
        i < path_contents(*path).len(),
    ensures
        c == path_contents(*path)[i as int],
{
    let kind = segment_kind(path, i);
    let (abs, arc) = segment_flags(path, i);
    let (tx, ty) = segment_target(path, i);
    let controls = segment_controls(path, i);
    let ghost it = path_contents(*path)[i as int];
    match (kind, tx, ty, arc) {
        (CommandKind::MoveTo, Some(x), Some(y), _) => PathCommand::MoveTo { abs, x, y },
        (CommandKind::LineTo, Some(x), Some(y), _) => PathCommand::LineTo { abs, x, y },
        (CommandKind::HorizontalLineTo, Some(x), _, _) => PathCommand::HorizontalLineTo { abs, x },
        (CommandKind::VerticalLineTo, _, Some(y), _) => PathCommand::VerticalLineTo { abs, y },
        (CommandKind::CubicCurveTo, Some(x), Some(y), _) => {
            assert(it.controls().len() == 4);
            PathCommand::CubicCurveTo {
                abs,
                x1: controls[0],
                y1: controls[1],
                x2: controls[2],
                y2: controls[3],
                x,
                y,
            }
        },
        (CommandKind::SmoothCubicCurveTo, Some(x), Some(y), _) => {
            assert(it.controls().len() == 2);
            PathCommand::SmoothCubicCurveTo { abs, x2: controls[0], y2: controls[1], x, y }
        },
        (CommandKind::QuadraticCurveTo, Some(x), Some(y), _) => {
            assert(it.controls().len() == 2);
            PathCommand::QuadraticCurveTo { abs, x1: controls[0], y1: controls[1], x, y }
        },
        (CommandKind::SmoothQuadraticCurveTo, Some(x), Some(y), _) => {
            PathCommand::SmoothQuadraticCurveTo { abs, x, y }
        },
        (CommandKind::EllipticalArcTo, Some(x), Some(y), Some((large_arc, sweep))) => {
            assert(it.controls().len() == 3);
            PathCommand::EllipticalArcTo {
                abs,
                rx: controls[0],
                ry: controls[1],
                x_axis_rotation: controls[2],
                large_arc,
                sweep,
                x,
                y,
            }
        },
        (CommandKind::ClosePath, _, _, _) => PathCommand::ClosePath { abs },
        _ => {
            assert(false);
            vstd::pervasive::unreached()
        },
    }
}

/// Reads path data into its commands, in the order they are written.
///
/// Fails where the parser cannot consume the text to its end, and where the
/// first command is not a move.
pub fn tokenize_path(data: &str) -> (r: Result<Vec<PathCommand>, MalformedPathData>)
    ensures
        r matches Ok(commands) ==> starts_with_move(commands@),
        match r {
            Ok(commands) => accepted_commands(svg_path_data(data@)) == Ok::<
                Seq<PathCommand>,
                MalformedPathData,
            >(commands@),
            Err(e) => accepted_commands(svg_path_data(data@)) == Err::<
                Seq<PathCommand>,
                MalformedPathData,
            >(e),
        },
{
    match parse_path(data) {
        None => Err(MalformedPathData),
        Some(path) => {
            let n = path_len(&path);
            let mut commands: Vec<PathCommand> = Vec::new();
            let mut i: usize = 0;
            while i < n
                invariant
                    i <= n,
                    n == path_contents(path).len(),
                    commands@ == path_contents(path).take(i as int),
                decreases n - i,
            {
                commands.push(command_at(&path, i));
                proof {
                    assert(path_contents(path).take(i + 1) == path_contents(path).take(
                        i as int,
                    ).push(path_contents(path)[i as int]));
                }
                i += 1;
            }
            proof {
                assert(path_contents(path).take(n as int) == path_contents(path));
            }
            check_commands(commands)
        },
    }
}

} // verus!
