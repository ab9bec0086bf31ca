//! The extent of a document: the largest absolute X coordinate and the
//! largest absolute Y coordinate over every command of every path, the
//! control points of curves included. It must be known before any path is
//! placed, since it fixes where the drawing is centered.
//!
//! Absolute values are compared by their bit patterns, which for finite
//! numbers is comparing them as numbers (`lemma_magnitude_order`). The
//! tokenizer yields finite numbers only; the pattern of an infinity or of a
//! NaN would count as larger than every finite one.

use crate::number::{Number, MAGNITUDE_MASK};
use crate::path::PathCommand;
use vstd::prelude::*;

verus! {

/// One of the two coordinate axes.
#[derive(Clone, Copy, Debug, PartialEq, Eq, Structural)]
pub enum Axis {
    X,
    Y,
}

/// The largest absolute X and Y coordinates of a document; zero on an axis
/// that no command names.
#[derive(Clone, Copy, Debug, PartialEq, Eq, Structural)]
pub struct DocumentExtent {
    pub x: Number,
    pub y: Number,
}

/// The coordinates that a command holds on one axis, in the order they are
/// written: those of its control points, then that of the point it moves to.
/// The radii and the rotation of an arc are no coordinates.
pub open spec fn coordinates(command: PathCommand, axis: Axis) -> Seq<Number> {
    match axis {
        Axis::X => match command {
            PathCommand::MoveTo { x, .. } => seq![x],
            PathCommand::LineTo { x, .. } => seq![x],
            PathCommand::HorizontalLineTo { x, .. } => seq![x],
            PathCommand::VerticalLineTo { .. } => Seq::empty(),
            PathCommand::CubicCurveTo { x1, x2, x, .. } => seq![x1, x2, x],
            PathCommand::SmoothCubicCurveTo { x2, x, .. } => seq![x2, x],
            PathCommand::QuadraticCurveTo { x1, x, .. } => seq![x1, x],
            PathCommand::SmoothQuadraticCurveTo { x, .. } => seq![x],
            PathCommand::EllipticalArcTo { x, .. } => seq![x],
            PathCommand::ClosePath { .. } => Seq::empty(),
        },
        Axis::Y => match command {
            PathCommand::MoveTo { y, .. } => seq![y],
            PathCommand::LineTo { y, .. } => seq![y],
            PathCommand::HorizontalLineTo { .. } => Seq::empty(),
            PathCommand::VerticalLineTo { y, .. } => seq![y],
            PathCommand::CubicCurveTo { y1, y2, y, .. } => seq![y1, y2, y],
            PathCommand::SmoothCubicCurveTo { y2, y, .. } => seq![y2, y],
            PathCommand::QuadraticCurveTo { y1, y, .. } => seq![y1, y],
            PathCommand::SmoothQuadraticCurveTo { y, .. } => seq![y],
            PathCommand::EllipticalArcTo { y, .. } => seq![y],
            PathCommand::ClosePath { .. } => Seq::empty(),
        },
    }
}

/// The larger of `floor` and the absolute value of `value`, as patterns.
pub open spec fn raised(floor: u64, value: Number) -> u64 {
    if value.magnitude_bits() > floor {
        value.magnitude_bits()
    } else {
        floor
    }
}

/// The largest absolute value among `values`, as a pattern; zero where there
/// are none.
pub open spec fn largest(values: Seq<Number>) -> u64
    decreases values.len(),
{
    if values.len() == 0 {
        0
    } else {
        raised(largest(values.drop_last()), values.last())
    }
}

/// The magnitude that a command reaches on one axis: the largest among its
/// coordinates on that axis, or zero where it has none.
pub open spec fn reach(command: PathCommand, axis: Axis) -> u64 {
    largest(coordinates(command, axis))
}

/// The larger of `floor` and every magnitude that the commands reach on one
/// axis.
pub open spec fn path_extent(commands: Seq<PathCommand>, axis: Axis, floor: u64) -> u64
    decreases commands.len(),
{
    if commands.len() == 0 {
        floor
    } else {
        let before = path_extent(commands.drop_last(), axis, floor);
        let here = reach(commands.last(), axis);
        if here > before {
            here
        } else {
            before
        }
    }
}

/// The largest magnitude that any command of any path reaches on one axis;
/// zero for a document without operands on that axis.
pub open spec fn axis_extent(paths: Seq<Seq<PathCommand>>, axis: Axis) -> u64
    decreases paths.len(),
{
    if paths.len() == 0 {
        0
    } else {
        path_extent(paths.last(), axis, axis_extent(paths.drop_last(), axis))
    }
}

/// The extent of a document.
pub open spec fn document_extent(paths: Seq<Seq<PathCommand>>) -> DocumentExtent {
    DocumentExtent {
        x: Number { bits: axis_extent(paths, Axis::X) },
        y: Number { bits: axis_extent(paths, Axis::Y) },
    }
}

/// The command lists held in a vector of vectors.
pub open spec fn paths_view(paths: Seq<Vec<PathCommand>>) -> Seq<Seq<PathCommand>> {
    paths.map_values(|commands: Vec<PathCommand>| commands@)
}

/// `path_extent` is no smaller than its floor and than any magnitude that
/// the commands reach, and it is the floor or one of those magnitudes.
pub proof fn lemma_path_extent(commands: Seq<PathCommand>, axis: Axis, floor: u64)
    ensures
        floor <= path_extent(commands, axis, floor),
        forall|c: int|
            0 <= c < commands.len() ==> reach(#[trigger] commands[c], axis) <= path_extent(
                commands,
                axis,
                floor,
            ),
        path_extent(commands, axis, floor) == floor || exists|c: int|
            0 <= c < commands.len() && reach(#[trigger] commands[c], axis) == path_extent(
                commands,
                axis,
                floor,
            ),
    decreases commands.len(),
{
    if commands.len() > 0 {
        let front = commands.drop_last();
        lemma_path_extent(front, axis, floor);
        let total = path_extent(commands, axis, floor);
        assert forall|c: int| 0 <= c < commands.len() implies reach(
            #[trigger] commands[c],
            axis,
        ) <= total by {
            if c < front.len() {
                assert(commands[c] == front[c]);
            }
        }
        if total != floor {
            if total == reach(commands.last(), axis) {
                assert(reach(commands[commands.len() - 1], axis) == total);
            } else {
                let c = choose|c: int|
                    0 <= c < front.len() && reach(#[trigger] front[c], axis) == path_extent(
                        front,
                        axis,
                        floor,
                    );
                assert(reach(commands[c], axis) == total);
            }
        }
    }
}

/// `largest` is no smaller than any of the values, and it is zero or one of
/// them.
pub proof fn lemma_largest(values: Seq<Number>)
    ensures
        forall|k: int|
            0 <= k < values.len() ==> (#[trigger] values[k]).magnitude_bits() <= largest(values),
        largest(values) == 0 || exists|k: int|
            0 <= k < values.len() && (#[trigger] values[k]).magnitude_bits() == largest(values),
    decreases values.len(),
{
    if values.len() > 0 {
        let front = values.drop_last();
        lemma_largest(front);
        let total = largest(values);
        assert forall|k: int| 0 <= k < values.len() implies (
        #[trigger] values[k]).magnitude_bits() <= total by {
            if k < front.len() {
                assert(values[k] == front[k]);
            }
        }
        if total != 0 {
            if total == values.last().magnitude_bits() {
                assert(values[values.len() - 1].magnitude_bits() == total);
            } else {
                let k = choose|k: int|
                    0 <= k < front.len() && (#[trigger] front[k]).magnitude_bits() == largest(
                        front,
                    );
                assert(values[k].magnitude_bits() == total);
            }
        }
    }
}

/// No command of any path reaches beyond the extent on an axis, and unless
/// the extent is zero some command reaches it.
pub proof fn lemma_axis_extent_reached(paths: Seq<Seq<PathCommand>>, axis: Axis)
    ensures
        forall|p: int, c: int|
            0 <= p < paths.len() && 0 <= c < paths[p].len() ==> reach(
                #[trigger] paths[p][c],
                axis,
            ) <= axis_extent(paths, axis),
        axis_extent(paths, axis) == 0 || exists|p: int, c: int|
            0 <= p < paths.len() && 0 <= c < paths[p].len() && reach(
                #[trigger] paths[p][c],
                axis,
            ) == axis_extent(paths, axis),
    decreases paths.len(),
{
    if paths.len() > 0 {
        let front = paths.drop_last();
        let floor = axis_extent(front, axis);
        let total = axis_extent(paths, axis);
        lemma_axis_extent_reached(front, axis);
        lemma_path_extent(paths.last(), axis, floor);
        assert forall|p: int, c: int| 0 <= p < paths.len() && 0 <= c < paths[p].len() implies reach(
            #[trigger] paths[p][c],
            axis,
        ) <= total by {
            if p < front.len() {
                assert(paths[p] == front[p]);
            } else {
                assert(paths[p] == paths.last());
            }
        }
        if total != 0 {
            if total == floor {
                let (p, c) = choose|p: int, c: int|
                    0 <= p < front.len() && 0 <= c < front[p].len() && reach(
                        #[trigger] front[p][c],
                        axis,
                    ) == floor;
                assert(paths[p] == front[p]);
                assert(reach(paths[p][c], axis) == total);
            } else {
                let c = choose|c: int|
                    0 <= c < paths.last().len() && reach(#[trigger] paths.last()[c], axis)
                        == total;
                assert(reach(paths[paths.len() - 1][c], axis) == total);
            }
        }
    }
}

/// The extent of a document on one axis is the maximum of the absolute
/// values of all coordinates on that axis, control points included: no
/// coordinate of any command of any path exceeds it, and unless it is zero
/// some coordinate equals it.
pub proof fn lemma_axis_extent_is_maximum(paths: Seq<Seq<PathCommand>>, axis: Axis)
    ensures
        forall|p: int, c: int, k: int|
            0 <= p < paths.len() && 0 <= c < paths[p].len() && 0 <= k < coordinates(
                paths[p][c],
                axis,
            ).len() ==> (#[trigger] coordinates(paths[p][c], axis)[k]).magnitude_bits()
                <= axis_extent(paths, axis),
        axis_extent(paths, axis) == 0 || exists|p: int, c: int, k: int|
            0 <= p < paths.len() && 0 <= c < paths[p].len() && 0 <= k < coordinates(
                paths[p][c],
                axis,
            ).len() && (#[trigger] coordinates(paths[p][c], axis)[k]).magnitude_bits()
                == axis_extent(paths, axis),
{
    lemma_axis_extent_reached(paths, axis);
    let total = axis_extent(paths, axis);
    assert forall|p: int, c: int, k: int|
        0 <= p < paths.len() && 0 <= c < paths[p].len() && 0 <= k < coordinates(
            paths[p][c],
            axis,
        ).len() implies (#[trigger] coordinates(paths[p][c], axis)[k]).magnitude_bits()
        <= total by {
        lemma_largest(coordinates(paths[p][c], axis));
        assert(reach(paths[p][c], axis) <= total);
    }
    if total != 0 {
        let (p, c) = choose|p: int, c: int|
            0 <= p < paths.len() && 0 <= c < paths[p].len() && reach(
                #[trigger] paths[p][c],
                axis,
            ) == total;
        lemma_largest(coordinates(paths[p][c], axis));
        let k = choose|k: int|
            0 <= k < coordinates(paths[p][c], axis).len() && (#[trigger] coordinates(
                paths[p][c],
                axis,
            )[k]).magnitude_bits() == total;
        assert(coordinates(paths[p][c], axis)[k].magnitude_bits() == total);
    }
}

/// The extent carries no sign: on each axis it is the pattern of an absolute
/// value.
pub proof fn lemma_axis_extent_unsigned(paths: Seq<Seq<PathCommand>>, axis: Axis)
    ensures
        axis_extent(paths, axis) <= MAGNITUDE_MASK,
{
    lemma_axis_extent_is_maximum(paths, axis);
    let total = axis_extent(paths, axis);
    if total != 0 {
        let (p, c, k) = choose|p: int, c: int, k: int|
            0 <= p < paths.len() && 0 <= c < paths[p].len() && 0 <= k < coordinates(
                paths[p][c],
                axis,
            ).len() && (#[trigger] coordinates(paths[p][c], axis)[k]).magnitude_bits() == total;
        let bits = coordinates(paths[p][c], axis)[k].bits;
        assert(bits & 0x7fff_ffff_ffff_ffffu64 <= 0x7fff_ffff_ffff_ffffu64) by (bit_vector);
    }
}

/// In absolute value, no coordinate on an axis is larger than the extent on
/// that axis. The absolute values are compared as numbers, in steps of
/// `2^-1074`.
pub proof fn lemma_extent_bounds_operands(
    paths: Seq<Seq<PathCommand>>,
    axis: Axis,
    p: int,
    c: int,
    k: int,
)
    requires
        0 <= p < paths.len(),
        0 <= c < paths[p].len(),
        0 <= k < coordinates(paths[p][c], axis).len(),
    ensures
        coordinates(paths[p][c], axis)[k].scaled_magnitude() <= (Number {
            bits: axis_extent(paths, axis),
        }).scaled_magnitude(),
{
    lemma_axis_extent_is_maximum(paths, axis);
    lemma_axis_extent_unsigned(paths, axis);
    let total = axis_extent(paths, axis);
    assert(total <= 0x7fff_ffff_ffff_ffffu64 ==> total & 0x7fff_ffff_ffff_ffffu64 == total)
        by (bit_vector);
    assert(coordinates(paths[p][c], axis)[k].magnitude_bits() <= total);
    crate::number::lemma_magnitude_order(
        coordinates(paths[p][c], axis)[k],
        Number { bits: total },
    );
}

/// The larger of `floor` and the absolute value of `value`.
fn raise(floor: u64, value: Number) -> (r: u64)
    ensures
        r == raised(floor, value),
{
    let m = value.abs().bits;
    if m > floor {
        m
    } else {
        floor
    }
}

/// Adding a value at the end raises the largest by it.
proof fn lemma_largest_push(values: Seq<Number>, value: Number)
    ensures
        largest(values.push(value)) == raised(largest(values), value),
{
    assert(values.push(value).drop_last() == values);
}

/// The largest of up to three values, unfolded.
proof fn lemma_largest_of(a: Number, b: Number, c: Number)
    ensures
        largest(Seq::<Number>::empty()) == 0,
        largest(seq![a]) == raised(0, a),
        largest(seq![a, b]) == raised(raised(0, a), b),
        largest(seq![a, b, c]) == raised(raised(raised(0, a), b), c),
{
    let none = Seq::<Number>::empty();
    lemma_largest_push(none, a);
    lemma_largest_push(none.push(a), b);
    lemma_largest_push(none.push(a).push(b), c);
    assert(seq![a] == none.push(a));
    assert(seq![a, b] == none.push(a).push(b));
    assert(seq![a, b, c] == none.push(a).push(b).push(c));
}

/// The magnitude that a command reaches on one axis.
pub fn command_reach(command: &PathCommand, axis: Axis) -> (r: u64)
    ensures
        r == reach(*command, axis),
{
    match axis {
        Axis::X => match command {
            PathCommand::MoveTo { x, .. } => {
                proof { lemma_largest_of(*x, *x, *x); }
                raise(0, *x)
            },
            PathCommand::LineTo { x, .. } => {
                proof { lemma_largest_of(*x, *x, *x); }
                raise(0, *x)
            },
            PathCommand::HorizontalLineTo { x, .. } => {
                proof { lemma_largest_of(*x, *x, *x); }
                raise(0, *x)
            },
            PathCommand::VerticalLineTo { .. } => 0,
            PathCommand::CubicCurveTo { x1, x2, x, .. } => {
                proof { lemma_largest_of(*x1, *x2, *x); }
                raise(raise(raise(0, *x1), *x2), *x)
            },
            PathCommand::SmoothCubicCurveTo { x2, x, .. } => {
                proof { lemma_largest_of(*x2, *x, *x); }
                raise(raise(0, *x2), *x)
            },
            PathCommand::QuadraticCurveTo { x1, x, .. } => {
                proof { lemma_largest_of(*x1, *x, *x); }
                raise(raise(0, *x1), *x)
            },
            PathCommand::SmoothQuadraticCurveTo { x, .. } => {
                proof { lemma_largest_of(*x, *x, *x); }
                raise(0, *x)
            },
            PathCommand::EllipticalArcTo { x, .. } => {
                proof { lemma_largest_of(*x, *x, *x); }
                raise(0, *x)
            },
            PathCommand::ClosePath { .. } => 0,
        },
        Axis::Y => match command {
            PathCommand::MoveTo { y, .. } => {
                proof { lemma_largest_of(*y, *y, *y); }
                raise(0, *y)
            },
            PathCommand::LineTo { y, .. } => {
                proof { lemma_largest_of(*y, *y, *y); }
                raise(0, *y)
            },
            PathCommand::HorizontalLineTo { .. } => 0,
            PathCommand::VerticalLineTo { y, .. } => {
                proof { lemma_largest_of(*y, *y, *y); }
                raise(0, *y)
            },
            PathCommand::CubicCurveTo { y1, y2, y, .. } => {
                proof { lemma_largest_of(*y1, *y2, *y); }
                raise(raise(raise(0, *y1), *y2), *y)
            },
            PathCommand::SmoothCubicCurveTo { y2, y, .. } => {
                proof { lemma_largest_of(*y2, *y, *y); }
                raise(raise(0, *y2), *y)
            },
            PathCommand::QuadraticCurveTo { y1, y, .. } => {
                proof { lemma_largest_of(*y1, *y, *y); }
                raise(raise(0, *y1), *y)
            },
            PathCommand::SmoothQuadraticCurveTo { y, .. } => {
                proof { lemma_largest_of(*y, *y, *y); }
                raise(0, *y)
            },
            PathCommand::EllipticalArcTo { y, .. } => {
                proof { lemma_largest_of(*y, *y, *y); }
                raise(0, *y)
            },
            PathCommand::ClosePath { .. } => 0,
        },
    }
}

/// The extent of a document, given the commands of each of its paths.
pub fn max_coords(paths: &Vec<Vec<PathCommand>>) -> (extent: DocumentExtent)
    ensures
        extent == document_extent(paths_view(paths@)),
{
    let ghost all = paths_view(paths@);
    let mut x: u64 = 0;
    let mut y: u64 = 0;
    let mut p: usize = 0;
    while p < paths.len()
        invariant
            p <= paths.len(),
            all == paths_view(paths@),
            x == axis_extent(all.take(p as int), Axis::X),
            y == axis_extent(all.take(p as int), Axis::Y),
        decreases paths.len() - p,
    {
        let commands = &paths[p];
        let ghost floor_x = x;
        let ghost floor_y = y;
        let mut c: usize = 0;
        while c < commands.len()
            invariant
                c <= commands.len(),
                x == path_extent(commands@.take(c as int), Axis::X, floor_x),
                y == path_extent(commands@.take(c as int), Axis::Y, floor_y),
            decreases commands.len() - c,
        {
            proof {
                assert(commands@.take(c + 1).drop_last() == commands@.take(c as int));
                assert(commands@.take(c + 1).last() == commands@[c as int]);
            }
            let reach_x = command_reach(&commands[c], Axis::X);
            let reach_y = command_reach(&commands[c], Axis::Y);
            if reach_x > x {
                x = reach_x;
            }
            if reach_y > y {
                y = reach_y;
            }
            c += 1;
        }
        proof {
            assert(commands@.take(commands.len() as int) == commands@);
            assert(all.take(p + 1).drop_last() == all.take(p as int));
            assert(all.take(p + 1).last() == commands@);
        }
        p += 1;
    }
    proof {
        assert(all.take(paths.len() as int) == all);
    }
    DocumentExtent { x: Number { bits: x }, y: Number { bits: y } }
}

} // verus!
