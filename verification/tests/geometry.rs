use bevy_svg_map::color::Color;
use bevy_svg_map::error::TessellationError;
use bevy_svg_map::extract::tokenize_svg;
use bevy_svg_map::geometry::{
    create_sprite, fill, mesh_from, stroke, GeometryBuffer, PassKind, PlanarPoint, RawGeometry,
    Sprite, Translation, Vertex, UNIT,
};
use bevy_svg_map::number::Number;
use bevy_svg_map::plan::plan_svg_map;
use bevy_svg_map::strategy::{Opacity, StyleStrategy, SvgWhole};
use bevy_svg_map::style::SvgStyle;
use lyon::path::Path;
use lyon::svg::path_utils::build_path;
use lyon::tessellation::{
    BuffersBuilder, FillOptions, FillTessellator, FillVertex, StrokeOptions, StrokeTessellator,
    StrokeVertex, VertexBuffers,
};

fn point(x: f32, y: f32) -> PlanarPoint {
    PlanarPoint { x: x.to_bits(), y: y.to_bits() }
}

struct Plain;

impl StyleStrategy for Plain {}

fn red_stroke() -> SvgStyle {
    SvgStyle::from("stroke:#ff0000;fill:none")
}

fn stroked(outcome: Option<RawGeometry>) -> Result<Sprite, TessellationError> {
    stroke(outcome, &red_stroke(), Opacity::opaque(), &SvgWhole, origin())
}

fn filled(outcome: Option<RawGeometry>) -> Result<Sprite, TessellationError> {
    fill(outcome, &red_stroke(), Opacity::opaque(), &SvgWhole, origin())
}

fn origin() -> Translation {
    Translation { x: Number::zero(), y: Number::zero(), z: Number::zero() }
}

fn square() -> RawGeometry {
    RawGeometry {
        points: vec![point(0.0, 0.0), point(1.0, 0.0), point(1.0, 1.0), point(0.0, 1.0)],
        indices: vec![0, 1, 2, 0, 2, 3],
    }
}

fn stroke_tessellation(data: &str, options: &StrokeOptions) -> Option<RawGeometry> {
    let path = build_path(Path::builder().with_svg(), data).unwrap();
    let mut buffers: VertexBuffers<PlanarPoint, u32> = VertexBuffers::new();
    let done = StrokeTessellator::new().tessellate_path(
        path.as_slice(),
        options,
        &mut BuffersBuilder::new(&mut buffers, |v: StrokeVertex| {
            point(v.position().x, v.position().y)
        }),
    );
    match done {
        Ok(_) => Some(RawGeometry { points: buffers.vertices, indices: buffers.indices }),
        Err(_) => None,
    }
}

fn fill_tessellation(data: &str) -> Option<RawGeometry> {
    let path = build_path(Path::builder().with_svg(), data).unwrap();
    let mut buffers: VertexBuffers<PlanarPoint, u32> = VertexBuffers::new();
    let done = FillTessellator::new().tessellate_path(
        path.as_slice(),
        &FillOptions::default(),
        &mut BuffersBuilder::new(&mut buffers, |v: FillVertex| {
            point(v.position().x, v.position().y)
        }),
    );
    match done {
        Ok(_) => Some(RawGeometry { points: buffers.vertices, indices: buffers.indices }),
        Err(_) => None,
    }
}

fn area(sprite: &Sprite) -> f32 {
    let at = |i: u32| {
        let v = sprite.mesh.positions[i as usize];
        (f32::from_bits(v.x), f32::from_bits(v.y))
    };
    sprite
        .mesh
        .indices
        .chunks(3)
        .map(|t| {
            let (a, b, c) = (at(t[0]), at(t[1]), at(t[2]));
            ((b.0 - a.0) * (c.1 - a.1) - (c.0 - a.0) * (b.1 - a.1)).abs() / 2.0
        })
        .sum()
}

#[test]
fn buffer_places_points_at_depth_zero() {
    let buffer = GeometryBuffer::new(square()).unwrap();
    assert_eq!(buffer.triangle_count(), 2);
    assert_eq!(buffer.indices(), &vec![0, 1, 2, 0, 2, 3]);
    assert_eq!(
        buffer.vertices(),
        &vec![
            Vertex { x: 0f32.to_bits(), y: 0f32.to_bits(), z: 0 },
            Vertex { x: 1f32.to_bits(), y: 0f32.to_bits(), z: 0 },
            Vertex { x: 1f32.to_bits(), y: 1f32.to_bits(), z: 0 },
            Vertex { x: 0f32.to_bits(), y: 1f32.to_bits(), z: 0 },
        ]
    );
    assert!(buffer.vertices().iter().all(|v| f32::from_bits(v.z) == 0.0));
}

#[test]
fn faulty_geometry_is_refused() {
    let empty = RawGeometry { points: vec![point(0.0, 0.0)], indices: vec![] };
    assert_eq!(GeometryBuffer::new(empty).err(), Some(TessellationError::Degenerate));
    let nothing = RawGeometry { points: vec![], indices: vec![] };
    assert_eq!(GeometryBuffer::new(nothing).err(), Some(TessellationError::Degenerate));
    let partial = RawGeometry { points: square().points, indices: vec![0, 1, 2, 3] };
    assert_eq!(GeometryBuffer::new(partial).err(), Some(TessellationError::PartialTriangle));
    let beyond = RawGeometry { points: square().points, indices: vec![0, 1, 4] };
    assert_eq!(GeometryBuffer::new(beyond).err(), Some(TessellationError::IndexOutOfRange));
    let both = RawGeometry { points: square().points, indices: vec![0, 9] };
    assert_eq!(GeometryBuffer::new(both).err(), Some(TessellationError::PartialTriangle));
}

#[test]
fn mesh_has_zero_normals_and_texture_coordinates() {
    let mesh = mesh_from(GeometryBuffer::new(square()).unwrap());
    assert_eq!(mesh.positions.len(), 4);
    assert_eq!(mesh.normals, vec![Vertex { x: 0, y: 0, z: 0 }; 4]);
    assert_eq!(mesh.uvs, vec![PlanarPoint { x: 0, y: 0 }; 4]);
    assert_eq!(mesh.indices, vec![0, 1, 2, 0, 2, 3]);
    assert_eq!(f32::from_bits(mesh.normals[0].x), 0.0);
}

#[test]
fn sprite_has_unit_size() {
    let place = Translation {
        x: Number { bits: (-3f64).to_bits() },
        y: Number { bits: (-4f64).to_bits() },
        z: Number::zero(),
    };
    let sprite = create_sprite(
        PassKind::Fill,
        Color::red(),
        GeometryBuffer::new(square()).unwrap(),
        place,
    );
    assert_eq!(sprite.kind, PassKind::Fill);
    assert_eq!(sprite.material, Color::red());
    assert_eq!(sprite.translation, place);
    assert_eq!((f32::from_bits(sprite.width), f32::from_bits(sprite.height)), (1.0, 1.0));
    assert_eq!(UNIT, 1f32.to_bits());
    assert_eq!(sprite.mesh.positions.len(), 4);
}

#[test]
fn failed_tessellation_gives_no_sprite() {
    assert_eq!(stroked(None).err(), Some(TessellationError::Failed));
    assert_eq!(filled(None).err(), Some(TessellationError::Failed));
    let empty = RawGeometry { points: vec![], indices: vec![] };
    assert_eq!(stroked(Some(empty)).err(), Some(TessellationError::Degenerate));
}

#[test]
fn passes_are_told_apart() {
    assert_eq!(stroked(Some(square())).unwrap().kind, PassKind::Stroke);
    assert_eq!(filled(Some(square())).unwrap().kind, PassKind::Fill);
}

#[test]
fn strategy_colors_the_material() {
    assert_eq!(stroked(Some(square())).unwrap().material, Color::red());
    let half = Opacity { stroke: 187, fill: 255 };
    let sprite = stroke(Some(square()), &red_stroke(), half, &SvgWhole, origin()).unwrap();
    assert_eq!(sprite.material, Color { red: 255, green: 0, blue: 0, alpha: 187 });
    let plain = fill(Some(square()), &red_stroke(), half, &Plain, origin()).unwrap();
    assert_eq!(plain.material, Color::black());
}

#[test]
fn stroke_of_a_straight_line_covers_length_times_width() {
    let options = StrokeOptions::default().with_line_width(2.0);
    let sprite = stroked(stroke_tessellation("M0,0 L10,0", &options)).unwrap();
    assert!((area(&sprite) - 20.0).abs() < 1e-3);
    assert_eq!(sprite.mesh.indices.len(), 6);
    assert_eq!(sprite.mesh.positions.len(), 4);
    let wide = StrokeOptions::default().with_line_width(0.5);
    let slanted = stroked(stroke_tessellation("M1,1 L4,5", &wide)).unwrap();
    assert!((area(&slanted) - 2.5).abs() < 1e-3);
}

#[test]
fn closing_a_path_adds_the_seam() {
    let options = StrokeOptions::default().with_line_width(1.0);
    let open = stroked(stroke_tessellation("M0,0 L10,0 L10,10", &options)).unwrap();
    let closed = stroked(stroke_tessellation("M0,0 L10,0 L10,10 Z", &options)).unwrap();
    assert!(closed.mesh.indices.len() > open.mesh.indices.len());
    assert!(area(&closed) > area(&open));
}

#[test]
fn stroke_of_a_single_point_is_degenerate() {
    let options = StrokeOptions::default().with_line_width(1.0);
    let outcome = stroke_tessellation("M5,5", &options);
    assert_eq!(stroked(outcome).err(), Some(TessellationError::Degenerate));
}

#[test]
fn fill_of_a_rectangle_is_two_triangles() {
    let sprite = filled(fill_tessellation("M0,0 L10,0 L10,5 L0,5 Z")).unwrap();
    assert_eq!(sprite.mesh.indices.len(), 6);
    assert_eq!(sprite.mesh.positions.len(), 4);
    for corner in 0..4u32 {
        assert!(sprite.mesh.indices.contains(&corner));
    }
    assert!((area(&sprite) - 50.0).abs() < 1e-3);
    let mut corners: Vec<(f32, f32)> = sprite
        .mesh
        .positions
        .iter()
        .map(|v| (f32::from_bits(v.x), f32::from_bits(v.y)))
        .collect();
    corners.sort_by(|a, b| a.partial_cmp(b).unwrap());
    assert_eq!(corners, vec![(0.0, 0.0), (0.0, 5.0), (10.0, 0.0), (10.0, 5.0)]);
}

#[test]
fn fill_of_a_line_is_degenerate() {
    let outcome = fill_tessellation("M0,0 L10,0");
    assert_eq!(filled(outcome).err(), Some(TessellationError::Degenerate));
}

#[test]
fn red_stroke_from_document_to_mesh() {
    let text = r#"<svg><path style="stroke:#ff0000;fill:none" d="M0,0 L10,0 L10,10 Z"/></svg>"#;
    let segments = tokenize_svg(text).unwrap();
    let plan = plan_svg_map(&segments, &SvgWhole).unwrap();
    let mut sprites: Vec<Sprite> = Vec::new();
    for shape in plan.shapes.iter() {
        let segment = &segments[shape.segment];
        let place = plan.translation;
        if let Some(options) = shape.plan.stroke {
            let width = f64::from_bits(options.width.bits) as f32;
            let outcome = stroke_tessellation(
                &segment.traces,
                &StrokeOptions::default().with_line_width(width),
            );
            sprites.push(
                stroke(outcome, &segment.style, Opacity::opaque(), &SvgWhole, place).unwrap(),
            );
        }
        if shape.plan.fill {
            let outcome = fill_tessellation(&segment.traces);
            sprites
                .push(fill(outcome, &segment.style, Opacity::opaque(), &SvgWhole, place).unwrap());
        }
    }
    assert_eq!(sprites.len(), 1);
    assert_eq!(sprites[0].kind, PassKind::Stroke);
    assert_eq!(sprites[0].material, Color { red: 255, green: 0, blue: 0, alpha: 255 });
    assert!(sprites[0].mesh.indices.len() >= 3);
    assert_eq!(f64::from_bits(sprites[0].translation.x.bits), -10.0);
}
