//! Triangle meshes: what a tessellation pass hands over, checked and laid out
//! for rendering. Coordinates are single-precision numbers held by their bit
//! pattern; nothing here computes with them.

use crate::color::Color;
use crate::error::TessellationError;
use crate::extent::DocumentExtent;
use crate::number::Number;
use crate::strategy::{decides_color, Opacity, StyleStrategy};
use crate::style::SvgStyle;
use vstd::prelude::*;

verus! {

/// A point of the render plane.
#[derive(Clone, Copy, Debug, PartialEq, Eq, Structural)]
pub struct PlanarPoint {
    pub x: u32,
    pub y: u32,
}

/// A vertex position in space.
#[derive(Clone, Copy, Debug, PartialEq, Eq, Structural)]
pub struct Vertex {
    pub x: u32,
    pub y: u32,
    pub z: u32,
}

/// The pass that a mesh belongs to.
#[derive(Clone, Copy, Debug, PartialEq, Eq, Structural)]
pub enum PassKind {
    Stroke,
    Fill,
}

/// What a tessellator produced: points of the plane, and indices into them
/// that are meant to come in threes.
#[derive(Debug)]
pub struct RawGeometry {
    pub points: Vec<PlanarPoint>,
    pub indices: Vec<u32>,
}

/// A planar point placed in space at depth zero.
pub open spec fn lift(point: PlanarPoint) -> Vertex {
    Vertex { x: point.x, y: point.y, z: 0 }
}

/// The points placed in space at depth zero, in order.
pub open spec fn lift_all(points: Seq<PlanarPoint>) -> Seq<Vertex> {
    points.map_values(|point: PlanarPoint| lift(point))
}

/// Whether every index points at one of `count` vertices.
pub open spec fn indices_in_range(indices: Seq<u32>, count: nat) -> bool {
    forall|i: int| 0 <= i < indices.len() ==> (#[trigger] indices[i]) < count
}

/// What is wrong with a list of indices over `count` vertices, if anything:
/// it is empty, it does not come in threes, or it points past the vertices.
pub open spec fn geometry_fault(indices: Seq<u32>, count: nat) -> Option<TessellationError> {
    if indices.len() == 0 {
        Some(TessellationError::Degenerate)
    } else if indices.len() % 3 != 0 {
        Some(TessellationError::PartialTriangle)
    } else if !indices_in_range(indices, count) {
        Some(TessellationError::IndexOutOfRange)
    } else {
        None
    }
}

/// A triangle list: vertex positions, and indices that group them into
/// triangles. There is at least one triangle, the indices come in threes, and
/// each points at a vertex.
#[derive(Debug)]
pub struct GeometryBuffer {
    vertices: Vec<Vertex>,
    indices: Vec<u32>,
}

impl GeometryBuffer {
    #[verifier::type_invariant]
    spec fn well_formed(self) -> bool {
        geometry_fault(self.indices@, self.vertices@.len()) is None
    }

    /// The vertex positions.
    pub closed spec fn vertex_seq(self) -> Seq<Vertex> {
        self.vertices@
    }

    /// The indices, three to a triangle.
    pub closed spec fn index_seq(self) -> Seq<u32> {
        self.indices@
    }

    /// Checks what a tessellator produced and places it in space at depth
    /// zero.
    pub fn new(raw: RawGeometry) -> (r: Result<GeometryBuffer, TessellationError>)
        ensures
            match r {
                Ok(buffer) => geometry_fault(raw.indices@, raw.points@.len()) is None
                    && buffer.vertex_seq() == lift_all(raw.points@) && buffer.index_seq()
                    == raw.indices@,
                Err(e) => geometry_fault(raw.indices@, raw.points@.len()) == Some(e),
            },
    {
        let count = raw.points.len();
        if raw.indices.len() == 0 {
            return Err(TessellationError::Degenerate);
        }
        if raw.indices.len() % 3 != 0 {
            return Err(TessellationError::PartialTriangle);
        }
        let mut i: usize = 0;
        while i < raw.indices.len()
            invariant
                i <= raw.indices.len(),
                raw.indices.len() > 0,
                raw.indices.len() % 3 == 0,
                count == raw.points.len(),
                forall|j: int| 0 <= j < i ==> (#[trigger] raw.indices@[j]) < count,
            decreases raw.indices.len() - i,
        {
            if raw.indices[i] as usize >= count {
                assert(!(raw.indices@[i as int] < count));
                return Err(TessellationError::IndexOutOfRange);
            }
            i += 1;
        }
        let mut vertices: Vec<Vertex> = Vec::new();
        let mut k: usize = 0;
        while k < count
            invariant
                k <= count,
                count == raw.points.len(),
                geometry_fault(raw.indices@, count as nat) is None,
                vertices@ == lift_all(raw.points@.take(k as int)),
            decreases count - k,
        {
            let point = raw.points[k];
            proof {
                assert(raw.points@.take(k + 1) == raw.points@.take(k as int).push(point));
                assert(lift_all(raw.points@.take(k as int).push(point)) == lift_all(
                    raw.points@.take(k as int),
                ).push(lift(point)));
            }
            vertices.push(Vertex { x: point.x, y: point.y, z: 0 });
            k += 1;
        }
        proof {
            assert(raw.points@.take(count as int) == raw.points@);
        }
        Ok(GeometryBuffer { vertices, indices: raw.indices })
    }

    /// The vertex positions.
    pub fn vertices(&self) -> (v: &Vec<Vertex>)
        ensures
            v@ == self.vertex_seq(),
    {
        &self.vertices
    }

    /// The indices, three to a triangle.
    pub fn indices(&self) -> (v: &Vec<u32>)
        ensures
            v@ == self.index_seq(),
            geometry_fault(v@, self.vertex_seq().len()) is None,
    {
        proof {
            use_type_invariant(self);
        }
        &self.indices
    }

    /// The number of triangles: at least one.
    pub fn triangle_count(&self) -> (n: usize)
        ensures
            n >= 1,
            3 * n == self.index_seq().len(),
    {
        proof {
            use_type_invariant(self);
        }
        self.indices.len() / 3
    }
}

/// The attributes of a mesh, one entry per vertex: positions, normals and
/// texture coordinates, with the indices of a triangle list.
#[derive(Debug)]
pub struct MeshData {
    pub positions: Vec<Vertex>,
    pub normals: Vec<Vertex>,
    pub uvs: Vec<PlanarPoint>,
    pub indices: Vec<u32>,
}

/// `count` copies of `value`.
pub open spec fn repeat<T>(value: T, count: nat) -> Seq<T> {
    Seq::new(count, |i: int| value)
}

/// Lays a triangle list out as a mesh: the positions and indices as they
/// are, and for every vertex a zero normal and a zero texture coordinate.
pub fn mesh_from(geometry: GeometryBuffer) -> (mesh: MeshData)
    ensures
        mesh.positions@ == geometry.vertex_seq(),
        mesh.indices@ == geometry.index_seq(),
        mesh.normals@ == repeat(Vertex { x: 0, y: 0, z: 0 }, geometry.vertex_seq().len()),
        mesh.uvs@ == repeat(PlanarPoint { x: 0, y: 0 }, geometry.vertex_seq().len()),
        geometry_fault(mesh.indices@, mesh.positions@.len()) is None,
{
    proof {
        use_type_invariant(&geometry);
    }
    let num_vertices = geometry.vertices.len();
    let mut normals: Vec<Vertex> = Vec::new();
    let mut uvs: Vec<PlanarPoint> = Vec::new();
    let mut i: usize = 0;
    while i < num_vertices
        invariant
            i <= num_vertices,
            normals@ == repeat(Vertex { x: 0, y: 0, z: 0 }, i as nat),
            uvs@ == repeat(PlanarPoint { x: 0, y: 0 }, i as nat),
        decreases num_vertices - i,
    {
        normals.push(Vertex { x: 0, y: 0, z: 0 });
        uvs.push(PlanarPoint { x: 0, y: 0 });
        proof {
            assert(normals@ == repeat(Vertex { x: 0, y: 0, z: 0 }, (i + 1) as nat));
            assert(uvs@ == repeat(PlanarPoint { x: 0, y: 0 }, (i + 1) as nat));
        }
        i += 1;
    }
    MeshData { positions: geometry.vertices, normals, uvs, indices: geometry.indices }
}

/// Where a mesh is placed.
#[derive(Clone, Copy, Debug, PartialEq, Eq, Structural)]
pub struct Translation {
    pub x: Number,
    pub y: Number,
    pub z: Number,
}

/// The placement that centers a document: its extent negated on both axes,
/// at depth zero.
pub open spec fn centering(extent: DocumentExtent) -> Translation {
    Translation {
        x: Number { bits: extent.x.bits ^ crate::number::SIGN_BIT },
        y: Number { bits: extent.y.bits ^ crate::number::SIGN_BIT },
        z: Number { bits: 0 },
    }
}

/// The placement that centers a document.
pub fn centering_translation(extent: DocumentExtent) -> (t: Translation)
    ensures
        t == centering(extent),
{
    Translation { x: extent.x.negated(), y: extent.y.negated(), z: Number::zero() }
}

/// A mesh ready to be shown: its attributes, its color, its place, and a
/// unit size.
#[derive(Debug)]
pub struct Sprite {
    pub kind: PassKind,
    pub mesh: MeshData,
    pub material: Color,
    pub translation: Translation,
    pub width: u32,
    pub height: u32,
}

/// The single-precision pattern of the number one.
pub const UNIT: u32 = 0x3f80_0000u32;

/// Whether a sprite shows `geometry` as a mesh, with the given color and
/// place, at unit size.
pub open spec fn shows(
    sprite: Sprite,
    kind: PassKind,
    material: Color,
    geometry: GeometryBuffer,
    translation: Translation,
) -> bool {
    &&& sprite.kind == kind
    &&& sprite.material == material
    &&& sprite.translation == translation
    &&& sprite.width == UNIT
    &&& sprite.height == UNIT
    &&& sprite.mesh.positions@ == geometry.vertex_seq()
    &&& sprite.mesh.indices@ == geometry.index_seq()
    &&& sprite.mesh.normals@ == repeat(Vertex { x: 0, y: 0, z: 0 }, geometry.vertex_seq().len())
    &&& sprite.mesh.uvs@ == repeat(PlanarPoint { x: 0, y: 0 }, geometry.vertex_seq().len())
}

/// Makes the sprite that shows a triangle list.
pub fn create_sprite(
    kind: PassKind,
    material: Color,
    geometry: GeometryBuffer,
    translation: Translation,
) -> (sprite: Sprite)
    ensures
        shows(sprite, kind, material, geometry, translation),
{
    Sprite { kind, mesh: mesh_from(geometry), material, translation, width: UNIT, height: UNIT }
}

/// What a pass returns for the outcome of its tessellation: the error where
/// the tessellator failed or its output is faulty, else a sprite that shows
/// the output placed at depth zero.
pub open spec fn pass_result(
    r: Result<Sprite, TessellationError>,
    kind: PassKind,
    outcome: Option<RawGeometry>,
    translation: Translation,
) -> bool {
    match outcome {
        None => r == Err::<Sprite, TessellationError>(TessellationError::Failed),
        Some(raw) => match r {
            Ok(sprite) => {
                &&& geometry_fault(raw.indices@, raw.points@.len()) is None
                &&& sprite.kind == kind
                &&& sprite.translation == translation
                &&& sprite.width == UNIT
                &&& sprite.height == UNIT
                &&& sprite.mesh.positions@ == lift_all(raw.points@)
                &&& sprite.mesh.indices@ == raw.indices@
                &&& sprite.mesh.normals@ == repeat(Vertex { x: 0, y: 0, z: 0 }, raw.points@.len())
                &&& sprite.mesh.uvs@ == repeat(PlanarPoint { x: 0, y: 0 }, raw.points@.len())
            },
            Err(e) => geometry_fault(raw.indices@, raw.points@.len()) == Some(e),
        },
    }
}

/// A sound tessellation is shown as it is: the pass succeeds, the mesh has
/// the indices of the tessellation, three to a triangle, and one vertex for
/// each of its points, at the same place in the plane and at depth zero. So
/// two triangles over four corners are shown as two triangles over those four
/// corners.
pub proof fn lemma_sound_geometry_is_shown(
    r: Result<Sprite, TessellationError>,
    kind: PassKind,
    raw: RawGeometry,
    translation: Translation,
)
    requires
        pass_result(r, kind, Some(raw), translation),
        geometry_fault(raw.indices@, raw.points@.len()) is None,
    ensures
        r is Ok,
        r.unwrap().mesh.indices@ == raw.indices@,
        r.unwrap().mesh.indices@.len() % 3 == 0,
        r.unwrap().mesh.positions@.len() == raw.points@.len(),
        forall|i: int|
            0 <= i < raw.points@.len() ==> (#[trigger] r.unwrap().mesh.positions@[i]) == (Vertex {
                x: raw.points@[i].x,
                y: raw.points@[i].y,
                z: 0,
            }),
        forall|i: int|
            0 <= i < raw.indices@.len() ==> (#[trigger] r.unwrap().mesh.indices@[i])
                < r.unwrap().mesh.positions@.len(),
{
}

/// Turns the outcome of a tessellation into the sprite of the given pass.
/// The strategy is asked for the color of the material once the output is
/// known to be sound, and not otherwise.
fn finish_pass<S: StyleStrategy>(
    kind: PassKind,
    outcome: Option<RawGeometry>,
    style: &SvgStyle,
    opacity: Opacity,
    strategy: &S,
    translation: Translation,
) -> (r: Result<Sprite, TessellationError>)
    ensures
        pass_result(r, kind, outcome, translation),
        r matches Ok(sprite) ==> decides_color(strategy, style, opacity, sprite.material),
{
    match outcome {
        None => Err(TessellationError::Failed),
        Some(raw) => match GeometryBuffer::new(raw) {
            Ok(geometry) => {
                let material = strategy.color_decider(style, opacity);
                Ok(create_sprite(kind, material, geometry, translation))
            },
            Err(e) => Err(e),
        },
    }
}

/// The stroke pass of one path: `outcome` is what the stroke tessellator
/// made of it, `None` where it failed. The color of the material is what the
/// strategy decides for `style`, with `opacity` as its alpha channels.
pub fn stroke<S: StyleStrategy>(
    outcome: Option<RawGeometry>,
    style: &SvgStyle,
    opacity: Opacity,
    strategy: &S,
    translation: Translation,
) -> (r: Result<Sprite, TessellationError>)
    ensures
        pass_result(r, PassKind::Stroke, outcome, translation),
        r matches Ok(sprite) ==> decides_color(strategy, style, opacity, sprite.material),
{
    finish_pass(PassKind::Stroke, outcome, style, opacity, strategy, translation)
}

/// The fill pass of one path: `outcome` is what the fill tessellator made of
/// it, `None` where it failed. The color of the material is what the
/// strategy decides for `style`, with `opacity` as its alpha channels.
pub fn fill<S: StyleStrategy>(
    outcome: Option<RawGeometry>,
    style: &SvgStyle,
    opacity: Opacity,
    strategy: &S,
    translation: Translation,
) -> (r: Result<Sprite, TessellationError>)
    ensures
        pass_result(r, PassKind::Fill, outcome, translation),
        r matches Ok(sprite) ==> decides_color(strategy, style, opacity, sprite.material),
{
    finish_pass(PassKind::Fill, outcome, style, opacity, strategy, translation)
}

} // verus!
