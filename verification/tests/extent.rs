use bevy_svg_map::extent::{command_reach, max_coords, Axis, DocumentExtent};
use bevy_svg_map::geometry::centering_translation;
use bevy_svg_map::number::Number;
use bevy_svg_map::path::{tokenize_path, PathCommand};

fn num(value: f64) -> Number {
    Number { bits: value.to_bits() }
}

/// The X and the Y coordinates of a command, control points included.
fn coordinates(command: &PathCommand) -> (Vec<f64>, Vec<f64>) {
    let (xs, ys): (Vec<Number>, Vec<Number>) = match *command {
        PathCommand::MoveTo { x, y, .. } => (vec![x], vec![y]),
        PathCommand::LineTo { x, y, .. } => (vec![x], vec![y]),
        PathCommand::HorizontalLineTo { x, .. } => (vec![x], vec![]),
        PathCommand::VerticalLineTo { y, .. } => (vec![], vec![y]),
        PathCommand::CubicCurveTo { x1, y1, x2, y2, x, y, .. } => {
            (vec![x1, x2, x], vec![y1, y2, y])
        }
        PathCommand::SmoothCubicCurveTo { x2, y2, x, y, .. } => (vec![x2, x], vec![y2, y]),
        PathCommand::QuadraticCurveTo { x1, y1, x, y, .. } => (vec![x1, x], vec![y1, y]),
        PathCommand::SmoothQuadraticCurveTo { x, y, .. } => (vec![x], vec![y]),
        PathCommand::EllipticalArcTo { x, y, .. } => (vec![x], vec![y]),
        PathCommand::ClosePath { .. } => (vec![], vec![]),
    };
    (
        xs.iter().map(|n| f64::from_bits(n.bits)).collect(),
        ys.iter().map(|n| f64::from_bits(n.bits)).collect(),
    )
}

/// The extent as a fold over the numbers themselves.
fn folded(paths: &[Vec<PathCommand>]) -> (f64, f64) {
    paths.iter().flatten().fold((0f64, 0f64), |acc, c| {
        let (xs, ys) = coordinates(c);
        (
            xs.iter().fold(acc.0, |m, x| x.abs().max(m)),
            ys.iter().fold(acc.1, |m, y| y.abs().max(m)),
        )
    })
}

fn extent_of(paths: &[&str]) -> (f64, f64) {
    let tokens: Vec<Vec<PathCommand>> = paths.iter().map(|d| tokenize_path(d).unwrap()).collect();
    let extent = max_coords(&tokens);
    (f64::from_bits(extent.x.bits), f64::from_bits(extent.y.bits))
}

#[test]
fn extent_of_a_single_move() {
    assert_eq!(extent_of(&["M 10,20"]), (10.0, 20.0));
}

#[test]
fn extent_takes_absolute_values() {
    assert_eq!(extent_of(&["M -30,5 L 10,-40"]), (30.0, 40.0));
}

#[test]
fn extent_spans_every_path() {
    assert_eq!(extent_of(&["M 1,2 L 3,4", "M -7,0.5", "M 2,2 H 6.5 V -9"]), (7.0, 9.0));
}

#[test]
fn extent_reads_the_control_points_of_curves() {
    assert_eq!(extent_of(&["M 0,0 C 100,0 0,0 1,1"]), (100.0, 1.0));
    assert_eq!(extent_of(&["M 0,0 C 100 100 200 200 3 4"]), (200.0, 200.0));
    assert_eq!(extent_of(&["M 0,0 C 1 -300 -200 2 3 4"]), (200.0, 300.0));
    assert_eq!(extent_of(&["M 0,0 Q 70 -80 1 2"]), (70.0, 80.0));
    assert_eq!(extent_of(&["M 0,0 S -9 8 1 2"]), (9.0, 8.0));
    assert_eq!(extent_of(&["M 0,0 T -9 8"]), (9.0, 8.0));
    assert_eq!(extent_of(&["M 0,0 C 1 1 2 2 3 4"]), (3.0, 4.0));
}

#[test]
fn radii_and_rotation_of_an_arc_are_no_coordinates() {
    assert_eq!(extent_of(&["M 0,0 A 50 60 90 0 1 5 6"]), (5.0, 6.0));
    assert_eq!(extent_of(&["M 0,0 a 50 60 90 1 0 -5 6"]), (5.0, 6.0));
}

#[test]
fn reach_of_one_command() {
    let curve = tokenize_path("M 0,0 C 100,-7 0,0 1,1").unwrap()[1];
    assert_eq!(f64::from_bits(command_reach(&curve, Axis::X)), 100.0);
    assert_eq!(f64::from_bits(command_reach(&curve, Axis::Y)), 7.0);
    let close = PathCommand::ClosePath { abs: true };
    assert_eq!(command_reach(&close, Axis::X), 0);
    let across = PathCommand::HorizontalLineTo { abs: true, x: num(-3.0) };
    assert_eq!(f64::from_bits(command_reach(&across, Axis::X)), 3.0);
    assert_eq!(command_reach(&across, Axis::Y), 0);
}

#[test]
fn extent_of_horizontal_and_vertical_lines() {
    assert_eq!(extent_of(&["M 0,0 H 12"]), (12.0, 0.0));
    assert_eq!(extent_of(&["M 0,0 V -12"]), (0.0, 12.0));
}

#[test]
fn extent_of_nothing_is_zero() {
    assert_eq!(extent_of(&[]), (0.0, 0.0));
    assert_eq!(extent_of(&["", ""]), (0.0, 0.0));
    let extent = max_coords(&vec![vec![PathCommand::ClosePath { abs: true }]]);
    assert_eq!(extent, DocumentExtent { x: Number::zero(), y: Number::zero() });
}

#[test]
fn extent_of_small_and_large_magnitudes() {
    assert_eq!(extent_of(&["M 1e-300,1e300 L -1e-310,2e300"]), (1e-300, 2e300));
    assert_eq!(extent_of(&["M 0.1,0.2 L 0.30000000000000004,0.2"]), (0.30000000000000004, 0.2));
}

#[test]
fn extent_agrees_with_a_fold_over_the_numbers() {
    let paths = ["M 3,-8 L -11,2 H 4 V 9 C 1 1 20 -30 -12.5 0.25 Z", "M 0.5,0.5 l 13,-1"];
    let tokens: Vec<Vec<PathCommand>> = paths.iter().map(|d| tokenize_path(d).unwrap()).collect();
    let extent = max_coords(&tokens);
    assert_eq!(
        (f64::from_bits(extent.x.bits), f64::from_bits(extent.y.bits)),
        folded(&tokens)
    );
    assert_eq!(folded(&tokens), (20.0, 30.0));
}

#[test]
fn number_sign_and_magnitude() {
    assert_eq!(num(-2.5).abs(), num(2.5));
    assert_eq!(num(2.5).abs(), num(2.5));
    assert_eq!(num(-0.0).abs(), Number::zero());
    assert_eq!(num(2.5).negated(), num(-2.5));
    assert_eq!(num(-2.5).negated(), num(2.5));
    assert!(num(1e308).is_finite());
    assert!(!num(f64::INFINITY).is_finite());
    assert!(!num(f64::NAN).is_finite());
    assert_eq!(f64::from_bits(Number::zero().bits), 0.0);
}

#[test]
fn magnitudes_order_as_their_patterns() {
    let values = [0.0, 5e-324, 1e-310, 2.2250738585072014e-308, 0.1, 1.0, 1.5, 2.0, 1e300, f64::MAX];
    for pair in values.windows(2) {
        assert!(pair[0] < pair[1]);
        assert!(num(pair[0]).bits < num(pair[1]).bits);
        assert!(num(-pair[0]).abs().bits < num(-pair[1]).abs().bits);
    }
}

#[test]
fn meshes_are_placed_at_the_negated_extent() {
    let extent = DocumentExtent { x: num(10.0), y: num(20.0) };
    let t = centering_translation(extent);
    assert_eq!(f64::from_bits(t.x.bits), -10.0);
    assert_eq!(f64::from_bits(t.y.bits), -20.0);
    assert_eq!(t.z, Number::zero());
}

#[test]
fn extent_agrees_with_floats_on_many_paths() {
    let mut state: u64 = 11;
    let mut next = move || {
        state = state.wrapping_mul(6364136223846793005).wrapping_add(1442695040888963407);
        state >> 33
    };
    for _ in 0..300 {
        let mut paths: Vec<Vec<PathCommand>> = Vec::new();
        for _ in 0..(next() % 4) {
            let mut commands: Vec<PathCommand> = Vec::new();
            for _ in 0..(next() % 6) {
                let mut pick = || num((next() % 2000) as f64 / 7.0 - 140.0);
                let (x, y, x1, y1, x2, y2) = (pick(), pick(), pick(), pick(), pick(), pick());
                let kind = (f64::from_bits(pick().bits).abs() * 7.0) as u64 % 9;
                commands.push(match kind {
                    0 => PathCommand::MoveTo { abs: true, x, y },
                    1 => PathCommand::HorizontalLineTo { abs: false, x },
                    2 => PathCommand::VerticalLineTo { abs: true, y },
                    3 => PathCommand::CubicCurveTo { abs: true, x1, y1, x2, y2, x, y },
                    4 => PathCommand::SmoothCubicCurveTo { abs: false, x2, y2, x, y },
                    5 => PathCommand::QuadraticCurveTo { abs: true, x1, y1, x, y },
                    6 => PathCommand::SmoothQuadraticCurveTo { abs: true, x, y },
                    7 => PathCommand::EllipticalArcTo {
                        abs: true,
                        rx: x1,
                        ry: y1,
                        x_axis_rotation: x2,
                        large_arc: false,
                        sweep: true,
                        x,
                        y,
                    },
                    _ => PathCommand::ClosePath { abs: true },
                });
            }
            paths.push(commands);
        }
        let extent = max_coords(&paths);
        assert_eq!(
            (f64::from_bits(extent.x.bits), f64::from_bits(extent.y.bits)),
            folded(&paths)
        );
    }
}
