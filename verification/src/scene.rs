//! Scene builders: which procedural meshes make up the terrain and each
//! simplified vehicle, in draw order, with their dimensions and colours.
//!
//! Every vertex is described in exact units: box corners by their side of
//! each axis and the box's extents in millimetres, cylinder rim points by
//! their step round the rim, terrain points by their ground coordinates in
//! metres, colours in hundredths of full intensity. The renderer turns
//! these into floating-point positions, normals and colours.

use vstd::prelude::*;
use crate::mesh::{CpuMesh, box_indices, cylinder_indices, grid_indices};

verus! {

/// Cells per side of the scene terrain grid.
pub const TERRAIN_SUBDIVISIONS: u32 = 80;

/// Side length of the square scene terrain (m).
pub const TERRAIN_SIZE_M: i32 = 400;

/// Side segments of the HALE propeller hub and of each rover wheel.
pub const HUB_SEGMENTS: u32 = 12;

/// Side segments of each quadcopter motor pod.
pub const MOTOR_SEGMENTS: u32 = 8;

/// A direction or a side along each axis, each component -1, 0 or 1.
#[derive(Debug, Clone, Copy, PartialEq, Eq, Structural)]
pub struct Axes {
    pub x: i8,
    pub y: i8,
    pub z: i8,
}

/// Extents of a box along each axis (mm).
#[derive(Debug, Clone, Copy, PartialEq, Eq, Structural)]
pub struct Extents {
    pub x: u32,
    pub y: u32,
    pub z: u32,
}

/// An RGBA colour, each channel in hundredths of full intensity.
#[derive(Debug, Clone, Copy, PartialEq, Eq, Structural)]
pub struct Rgba {
    pub r: u32,
    pub g: u32,
    pub b: u32,
    pub a: u32,
}

/// A vertex of a vehicle part.
#[derive(Debug, Clone, Copy, PartialEq, Eq, Structural)]
pub enum PartVertex {
    /// Corner of a box centred on the origin with extents `size_mm`: at
    /// `sign` times half the extent along each axis, on the face whose
    /// outward normal is `normal`.
    BoxCorner { sign: Axes, normal: Axes, size_mm: Extents, color: Rgba },
    /// Point of a cylinder rim: at angle `step / segments` of a full turn
    /// round the y axis, at radius `radius_mm`, on the top rim (half the
    /// height up) or the bottom rim (half the height down); its normal
    /// points straight out from the axis.
    RimPoint { step: u32, segments: u32, top: bool, radius_mm: u32, height_mm: u32, color: Rgba },
}

/// A vertex of the scene terrain: its ground coordinates (m) and colour;
/// its height is the renderer's terrain relief at that point.
#[derive(Debug, Clone, Copy, PartialEq, Eq, Structural)]
pub struct TerrainPoint {
    pub x_m: i32,
    pub z_m: i32,
    pub color: Rgba,
}

pub open spec fn axes(x: int, y: int, z: int) -> Axes {
    Axes { x: x as i8, y: y as i8, z: z as i8 }
}

pub open spec fn extents(x: u32, y: u32, z: u32) -> Extents {
    Extents { x, y, z }
}

pub open spec fn rgba(r: u32, g: u32, b: u32, a: u32) -> Rgba {
    Rgba { r, g, b, a }
}

/// Outward normals of the six box faces: +z, -z, +y, -y, +x, -x.
pub open spec fn box_face_normals() -> Seq<Axes> {
    seq![axes(0, 0, 1), axes(0, 0, -1), axes(0, 1, 0), axes(0, -1, 0), axes(1, 0, 0), axes(-1, 0, 0)]
}

/// The sides of the 24 box corners, four per face in face order, each
/// face's corners running counter-clockwise seen from outside.
pub open spec fn box_corner_signs() -> Seq<Axes> {
    seq![
        axes(-1, -1, 1), axes(1, -1, 1), axes(1, 1, 1), axes(-1, 1, 1),
        axes(1, -1, -1), axes(-1, -1, -1), axes(-1, 1, -1), axes(1, 1, -1),
        axes(-1, 1, 1), axes(1, 1, 1), axes(1, 1, -1), axes(-1, 1, -1),
        axes(-1, -1, -1), axes(1, -1, -1), axes(1, -1, 1), axes(-1, -1, 1),
        axes(1, -1, 1), axes(1, -1, -1), axes(1, 1, -1), axes(1, 1, 1),
        axes(-1, -1, -1), axes(-1, -1, 1), axes(-1, 1, 1), axes(-1, 1, -1),
    ]
}

/// The 24 corners of a box of extents `size` and colour `color`.
pub open spec fn box_vertices(size: Extents, color: Rgba) -> Seq<PartVertex> {
    Seq::new(
        24,
        |k: int|
            PartVertex::BoxCorner {
                sign: box_corner_signs()[k],
                normal: box_face_normals()[k / 4],
                size_mm: size,
                color,
            },
    )
}

/// The corners of a flat wing: a box `chord` long in x, `thickness` high
/// in y and `span` wide in z.
pub open spec fn wing_vertices(span: u32, chord: u32, thickness: u32, color: Rgba) -> Seq<
    PartVertex,
> {
    box_vertices(extents(chord, thickness, span), color)
}

/// The rim points of an open cylinder: for each of the `segments + 1`
/// steps round the rim, the bottom point, then the top point.
pub open spec fn rim_vertices(radius_mm: u32, height_mm: u32, segments: u32, color: Rgba) -> Seq<
    PartVertex,
> {
    Seq::new(
        2 * (segments + 1) as nat,
        |k: int|
            PartVertex::RimPoint {
                step: (k / 2) as u32,
                segments,
                top: k % 2 == 1,
                radius_mm,
                height_mm,
                color,
            },
    )
}

/// Colour of the scene terrain (dark blue-grey).
pub open spec fn terrain_color() -> Rgba {
    rgba(8, 13, 20, 100)
}

/// The scene terrain's row-major grid points: 81 x 81 points 5 m apart,
/// from -200 m to 200 m along x (fastest) and z.
pub open spec fn terrain_vertices() -> Seq<TerrainPoint> {
    Seq::new(
        6561,
        |k: int|
            TerrainPoint {
                x_m: (5 * (k % 81) - 200) as i32,
                z_m: (5 * (k / 81) - 200) as i32,
                color: terrain_color(),
            },
    )
}

/// `mesh` is the box over `vertices`.
pub open spec fn is_box_of<V>(mesh: CpuMesh<V>, vertices: Seq<V>) -> bool {
    &&& mesh.vertices@ == vertices
    &&& mesh.indices@ == box_indices()
    &&& mesh.well_formed()
}

/// `mesh` is the cylinder with `segments` side quads over `vertices`.
pub open spec fn is_cylinder_of<V>(mesh: CpuMesh<V>, vertices: Seq<V>, segments: nat) -> bool {
    &&& mesh.vertices@ == vertices
    &&& mesh.indices@ == cylinder_indices(segments)
    &&& mesh.well_formed()
}

/// The 24 corners of a box of extents `size` and colour `color`, four per
/// face.
pub fn box_corners(size: Extents, color: Rgba) -> (corners: Vec<PartVertex>)
    ensures
        corners@ == box_vertices(size, color),
{
    let normals: [Axes; 6] = [
        Axes { x: 0, y: 0, z: 1 },
        Axes { x: 0, y: 0, z: -1 },
        Axes { x: 0, y: 1, z: 0 },
        Axes { x: 0, y: -1, z: 0 },
        Axes { x: 1, y: 0, z: 0 },
        Axes { x: -1, y: 0, z: 0 },
    ];
    let signs: [Axes; 24] = [
        Axes { x: -1, y: -1, z: 1 },
        Axes { x: 1, y: -1, z: 1 },
        Axes { x: 1, y: 1, z: 1 },
        Axes { x: -1, y: 1, z: 1 },
        Axes { x: 1, y: -1, z: -1 },
        Axes { x: -1, y: -1, z: -1 },
        Axes { x: -1, y: 1, z: -1 },
        Axes { x: 1, y: 1, z: -1 },
        Axes { x: -1, y: 1, z: 1 },
        Axes { x: 1, y: 1, z: 1 },
        Axes { x: 1, y: 1, z: -1 },
        Axes { x: -1, y: 1, z: -1 },
        Axes { x: -1, y: -1, z: -1 },
        Axes { x: 1, y: -1, z: -1 },
        Axes { x: 1, y: -1, z: 1 },
        Axes { x: -1, y: -1, z: 1 },
        Axes { x: 1, y: -1, z: 1 },
        Axes { x: 1, y: -1, z: -1 },
        Axes { x: 1, y: 1, z: -1 },
        Axes { x: 1, y: 1, z: 1 },
        Axes { x: -1, y: -1, z: -1 },
        Axes { x: -1, y: -1, z: 1 },
        Axes { x: -1, y: 1, z: 1 },
        Axes { x: -1, y: 1, z: -1 },
    ];
    proof {
        assert(normals@ =~= box_face_normals());
        assert(signs@ =~= box_corner_signs());
    }
    let mut corners: Vec<PartVertex> = Vec::new();
    for k in 0..24usize
        invariant
            normals@ == box_face_normals(),
            signs@ == box_corner_signs(),
            corners@ =~= box_vertices(size, color).take(k as int),
    {
        corners.push(PartVertex::BoxCorner { sign: signs[k], normal: normals[k / 4], size_mm: size, color });
    }
    proof {
        assert(box_vertices(size, color).take(24) =~= box_vertices(size, color));
    }
    corners
}

/// The corners of a flat wing `span` wide (z), `chord` long (x) and
/// `thickness` high (y).
pub fn wing_corners(span: u32, chord: u32, thickness: u32, color: Rgba) -> (corners: Vec<PartVertex>)
    ensures
        corners@ == wing_vertices(span, chord, thickness, color),
{
    box_corners(Extents { x: chord, y: thickness, z: span }, color)
}

/// The rim points of an open cylinder of radius `radius_mm` and height
/// `height_mm` with `segments` side quads.
pub fn rim_points(radius_mm: u32, height_mm: u32, segments: u32, color: Rgba) -> (points: Vec<
    PartVertex,
>)
    requires
        2 * segments + 1 <= u32::MAX,
    ensures
        points@ == rim_vertices(radius_mm, height_mm, segments, color),
{
    let mut points: Vec<PartVertex> = Vec::new();
    for i in 0..segments + 1
        invariant
            2 * segments + 1 <= u32::MAX,
            points@ =~= rim_vertices(radius_mm, height_mm, segments, color).take(2 * i),
    {
        points.push(PartVertex::RimPoint { step: i, segments, top: false, radius_mm, height_mm, color });
        points.push(PartVertex::RimPoint { step: i, segments, top: true, radius_mm, height_mm, color });
        assert(points@ =~= rim_vertices(radius_mm, height_mm, segments, color).take(2 * i + 2));
    }
    proof {
        let all = rim_vertices(radius_mm, height_mm, segments, color);
        assert(all.take(2 * (segments + 1)) =~= all);
    }
    points
}

fn box_part(size: Extents, color: Rgba) -> (mesh: CpuMesh<PartVertex>)
    ensures
        is_box_of(mesh, box_vertices(size, color)),
{
    CpuMesh::box_mesh(box_corners(size, color))
}

fn wing_part(span: u32, chord: u32, thickness: u32, color: Rgba) -> (mesh: CpuMesh<PartVertex>)
    ensures
        is_box_of(mesh, wing_vertices(span, chord, thickness, color)),
{
    CpuMesh::wing(wing_corners(span, chord, thickness, color))
}

fn cylinder_part(radius_mm: u32, height_mm: u32, segments: u32, color: Rgba) -> (mesh: CpuMesh<
    PartVertex,
>)
    requires
        2 * segments + 1 <= u32::MAX,
    ensures
        is_cylinder_of(mesh, rim_vertices(radius_mm, height_mm, segments, color), segments as nat),
{
    CpuMesh::cylinder(rim_points(radius_mm, height_mm, segments, color), segments)
}

/// Build the terrain mesh: a 400 m square of 80 x 80 cells over its
/// 81 x 81 row-major grid points, in dark blue-grey.
pub fn build_terrain() -> (mesh: CpuMesh<TerrainPoint>)
    ensures
        mesh.vertices@ == terrain_vertices(),
        mesh.indices@ == grid_indices(TERRAIN_SUBDIVISIONS as nat),
        mesh.well_formed(),
        mesh.triangle_count() == 2 * TERRAIN_SUBDIVISIONS * TERRAIN_SUBDIVISIONS,
{
    let color = Rgba { r: 8, g: 13, b: 20, a: 100 };
    let mut points: Vec<TerrainPoint> = Vec::new();
    for k in 0..6561usize
        invariant
            color == terrain_color(),
            points@ =~= terrain_vertices().take(k as int),
    {
        let x = (k % 81) as i32;
        let z = (k / 81) as i32;
        points.push(TerrainPoint { x_m: 5 * x - 200, z_m: 5 * z - 200, color });
    }
    proof {
        assert(terrain_vertices().take(6561) =~= terrain_vertices());
    }
    CpuMesh::terrain(points, TERRAIN_SUBDIVISIONS)
}

/// Build a simplified HALE-style fixed-wing UAV, in this order: fuselage
/// box 2.6 x 0.7 x 0.7 m; wing 12 m span, 1.1 m chord, 0.12 m thick; PV
/// surface 11.8 m span, 1.05 m chord, 0.02 m thick; vertical tail box
/// 0.06 x 1.0 x 0.06 m; horizontal tail box 1.4 x 0.05 x 0.06 m; propeller
/// hub cylinder of radius 0.08 m and height 0.1 m with 12 segments.
pub fn build_hale_uav() -> (meshes: Vec<CpuMesh<PartVertex>>)
    ensures
        meshes@.len() == 6,
        is_box_of(meshes@[0], box_vertices(extents(2600, 700, 700), rgba(4, 5, 9, 100))),
        is_box_of(meshes@[1], wing_vertices(12000, 1100, 120, rgba(3, 4, 8, 100))),
        is_box_of(meshes@[2], wing_vertices(11800, 1050, 20, rgba(4, 8, 22, 100))),
        is_box_of(meshes@[3], box_vertices(extents(60, 1000, 60), rgba(3, 4, 8, 100))),
        is_box_of(meshes@[4], box_vertices(extents(1400, 50, 60), rgba(3, 4, 8, 100))),
        is_cylinder_of(
            meshes@[5],
            rim_vertices(80, 100, HUB_SEGMENTS, rgba(13, 16, 25, 100)),
            HUB_SEGMENTS as nat,
        ),
{
    let body_color = Rgba { r: 4, g: 5, b: 9, a: 100 };
    let wing_color = Rgba { r: 3, g: 4, b: 8, a: 100 };
    let pv_color = Rgba { r: 4, g: 8, b: 22, a: 100 };
    let mut meshes: Vec<CpuMesh<PartVertex>> = Vec::new();
    meshes.push(box_part(Extents { x: 2600, y: 700, z: 700 }, body_color));
    meshes.push(wing_part(12000, 1100, 120, wing_color));
    meshes.push(wing_part(11800, 1050, 20, pv_color));
    meshes.push(box_part(Extents { x: 60, y: 1000, z: 60 }, wing_color));
    meshes.push(box_part(Extents { x: 1400, y: 50, z: 60 }, wing_color));
    meshes.push(cylinder_part(80, 100, HUB_SEGMENTS, Rgba { r: 13, g: 16, b: 25, a: 100 }));
    meshes
}

/// Build a simplified quadcopter: the central body box 0.15 x 0.04 x
/// 0.15 m, then for each of the four corners an arm box 0.2 x 0.02 x
/// 0.02 m followed by a motor pod cylinder of radius 0.03 m and height
/// 0.04 m with 8 segments.
pub fn build_quadcopter() -> (meshes: Vec<CpuMesh<PartVertex>>)
    ensures
        meshes@.len() == 9,
        is_box_of(meshes@[0], box_vertices(extents(150, 40, 150), rgba(6, 7, 12, 100))),
        forall|k: int|
            0 <= k < 4 ==> is_box_of(
                #[trigger] meshes@[1 + 2 * k],
                box_vertices(extents(200, 20, 20), rgba(6, 7, 12, 100)),
            ) && is_cylinder_of(
                meshes@[2 + 2 * k],
                rim_vertices(30, 40, MOTOR_SEGMENTS, rgba(15, 15, 20, 100)),
                MOTOR_SEGMENTS as nat,
            ),
{
    let arm_color = Rgba { r: 6, g: 7, b: 12, a: 100 };
    let motor_color = Rgba { r: 15, g: 15, b: 20, a: 100 };
    let ghost arm = box_vertices(extents(200, 20, 20), rgba(6, 7, 12, 100));
    let ghost motor = rim_vertices(30, 40, MOTOR_SEGMENTS, rgba(15, 15, 20, 100));
    let mut meshes: Vec<CpuMesh<PartVertex>> = Vec::new();
    meshes.push(box_part(Extents { x: 150, y: 40, z: 150 }, arm_color));
    for corner in 0..4usize
        invariant
            arm_color == rgba(6, 7, 12, 100),
            motor_color == rgba(15, 15, 20, 100),
            arm == box_vertices(extents(200, 20, 20), rgba(6, 7, 12, 100)),
            motor == rim_vertices(30, 40, MOTOR_SEGMENTS, rgba(15, 15, 20, 100)),
            meshes@.len() == 1 + 2 * corner,
            is_box_of(meshes@[0], box_vertices(extents(150, 40, 150), rgba(6, 7, 12, 100))),
            forall|k: int|
                0 <= k < corner ==> is_box_of(#[trigger] meshes@[1 + 2 * k], arm) && is_cylinder_of(
                    meshes@[2 + 2 * k],
                    motor,
                    MOTOR_SEGMENTS as nat,
                ),
    {
        let ghost before = meshes@;
        let arm_part = box_part(Extents { x: 200, y: 20, z: 20 }, arm_color);
        let motor_part = cylinder_part(30, 40, MOTOR_SEGMENTS, motor_color);
        meshes.push(arm_part);
        meshes.push(motor_part);
        assert forall|k: int| 0 <= k < corner + 1 implies is_box_of(
            #[trigger] meshes@[1 + 2 * k],
            arm,
        ) && is_cylinder_of(meshes@[2 + 2 * k], motor, MOTOR_SEGMENTS as nat) by {
            if k < corner {
                assert(meshes@[1 + 2 * k] == before[1 + 2 * k]);
                assert(meshes@[2 + 2 * k] == before[2 + 2 * k]);
            }
        }
    }
    meshes
}

/// Build a simplified ground rover: chassis box 1.0 x 0.25 x 0.6 m, solar
/// panel box 0.9 x 0.02 x 0.55 m, then four wheel cylinders of radius
/// 0.12 m and height 0.08 m with 12 segments.
pub fn build_rover() -> (meshes: Vec<CpuMesh<PartVertex>>)
    ensures
        meshes@.len() == 6,
        is_box_of(meshes@[0], box_vertices(extents(1000, 250, 600), rgba(12, 10, 6, 100))),
        is_box_of(meshes@[1], box_vertices(extents(900, 20, 550), rgba(4, 8, 22, 100))),
        forall|k: int|
            2 <= k < 6 ==> is_cylinder_of(
                #[trigger] meshes@[k],
                rim_vertices(120, 80, HUB_SEGMENTS, rgba(5, 5, 5, 100)),
                HUB_SEGMENTS as nat,
            ),
{
    let wheel_color = Rgba { r: 5, g: 5, b: 5, a: 100 };
    let ghost wheel = rim_vertices(120, 80, HUB_SEGMENTS, rgba(5, 5, 5, 100));
    let mut meshes: Vec<CpuMesh<PartVertex>> = Vec::new();
    meshes.push(box_part(Extents { x: 1000, y: 250, z: 600 }, Rgba { r: 12, g: 10, b: 6, a: 100 }));
    meshes.push(box_part(Extents { x: 900, y: 20, z: 550 }, Rgba { r: 4, g: 8, b: 22, a: 100 }));
    for w in 0..4usize
        invariant
            wheel_color == rgba(5, 5, 5, 100),
            wheel == rim_vertices(120, 80, HUB_SEGMENTS, rgba(5, 5, 5, 100)),
            meshes@.len() == 2 + w,
            is_box_of(meshes@[0], box_vertices(extents(1000, 250, 600), rgba(12, 10, 6, 100))),
            is_box_of(meshes@[1], box_vertices(extents(900, 20, 550), rgba(4, 8, 22, 100))),
            forall|k: int| 2 <= k < 2 + w ==> is_cylinder_of(#[trigger] meshes@[k], wheel, HUB_SEGMENTS as nat),
    {
        let ghost before = meshes@;
        let wheel_part = cylinder_part(120, 80, HUB_SEGMENTS, wheel_color);
        meshes.push(wheel_part);
        assert forall|k: int| 2 <= k < 2 + w + 1 implies is_cylinder_of(
            #[trigger] meshes@[k],
            wheel,
            HUB_SEGMENTS as nat,
        ) by {
            if k < 2 + w {
                assert(meshes@[k] == before[k]);
            }
        }
    }
    meshes
}

/// Integer sides of the 24 box corners, for the proofs about them.
spec fn corner_side_table(k: int) -> (int, int, int) {
    if k == 0 {
        (-1, -1, 1)
    } else if k == 1 {
        (1, -1, 1)
    } else if k == 2 {
        (1, 1, 1)
    } else if k == 3 {
        (-1, 1, 1)
    } else if k == 4 {
        (1, -1, -1)
    } else if k == 5 {
        (-1, -1, -1)
    } else if k == 6 {
        (-1, 1, -1)
    } else if k == 7 {
        (1, 1, -1)
    } else if k == 8 {
        (-1, 1, 1)
    } else if k == 9 {
        (1, 1, 1)
    } else if k == 10 {
        (1, 1, -1)
    } else if k == 11 {
        (-1, 1, -1)
    } else if k == 12 {
        (-1, -1, -1)
    } else if k == 13 {
        (1, -1, -1)
    } else if k == 14 {
        (1, -1, 1)
    } else if k == 15 {
        (-1, -1, 1)
    } else if k == 16 {
        (1, -1, 1)
    } else if k == 17 {
        (1, -1, -1)
    } else if k == 18 {
        (1, 1, -1)
    } else if k == 19 {
        (1, 1, 1)
    } else if k == 20 {
        (-1, -1, -1)
    } else if k == 21 {
        (-1, -1, 1)
    } else if k == 22 {
        (-1, 1, 1)
    } else if k == 23 {
        (-1, 1, -1)
    } else {
        (0, 0, 0)
    }
}

/// Integer outward normals of the six box faces, for the proofs about them.
spec fn corner_normal_table(f: int) -> (int, int, int) {
    if f == 0 {
        (0, 0, 1)
    } else if f == 1 {
        (0, 0, -1)
    } else if f == 2 {
        (0, 1, 0)
    } else if f == 3 {
        (0, -1, 0)
    } else if f == 4 {
        (1, 0, 0)
    } else if f == 5 {
        (-1, 0, 0)
    } else {
        (0, 0, 0)
    }
}

/// The side of a box corner along each axis, as integers.
pub open spec fn corner_side(v: PartVertex) -> (int, int, int) {
    match v {
        PartVertex::BoxCorner { sign, .. } => (sign.x as int, sign.y as int, sign.z as int),
        PartVertex::RimPoint { .. } => (0, 0, 0),
    }
}

/// The face normal of a box corner, as integers.
pub open spec fn corner_normal(v: PartVertex) -> (int, int, int) {
    match v {
        PartVertex::BoxCorner { normal, .. } => (normal.x as int, normal.y as int, normal.z as int),
        PartVertex::RimPoint { .. } => (0, 0, 0),
    }
}

pub open spec fn minus(a: (int, int, int), b: (int, int, int)) -> (int, int, int) {
    (a.0 - b.0, a.1 - b.1, a.2 - b.2)
}

pub open spec fn cross(a: (int, int, int), b: (int, int, int)) -> (int, int, int) {
    (a.1 * b.2 - a.2 * b.1, a.2 * b.0 - a.0 * b.2, a.0 * b.1 - a.1 * b.0)
}

pub open spec fn dot(a: (int, int, int), b: (int, int, int)) -> int {
    a.0 * b.0 + a.1 * b.1 + a.2 * b.2
}

/// `a` is one of the six unit axis directions.
pub open spec fn is_unit_axis(a: (int, int, int)) -> bool {
    ||| a == (1int, 0int, 0int) || a == (-1int, 0int, 0int)
    ||| a == (0int, 1int, 0int) || a == (0int, -1int, 0int)
    ||| a == (0int, 0int, 1int) || a == (0int, 0int, -1int)
}

/// Every component of `a` is -1 or 1: `a` names a corner of the cube.
pub open spec fn is_cube_corner(a: (int, int, int)) -> bool {
    &&& (a.0 == 1 || a.0 == -1)
    &&& (a.1 == 1 || a.1 == -1)
    &&& (a.2 == 1 || a.2 == -1)
}

/// The corners of a box form its six square faces: every corner is a cube
/// corner of the box's extents and colour lying on the face its normal
/// names; the six faces face the six axis directions; each face has four
/// distinct corners (so all four of that face), and they run
/// counter-clockwise seen from outside, so both triangles of the face
/// (corners 0, 1, 2 and 0, 2, 3) have the face's outward normal.
pub proof fn lemma_box_corners_form_faces(size: Extents, color: Rgba)
    ensures
        box_vertices(size, color).len() == 24,
        forall|k: int|
            #![trigger box_vertices(size, color)[k]]
            0 <= k < 24 ==> {
                let v = box_vertices(size, color)[k];
                &&& v matches PartVertex::BoxCorner { size_mm, color: c, .. } && size_mm == size && c == color
                &&& is_cube_corner(corner_side(v))
                &&& is_unit_axis(corner_normal(v))
                &&& dot(corner_side(v), corner_normal(v)) == 1
                &&& corner_normal(v) == corner_normal(box_vertices(size, color)[4 * (k / 4)])
            },
        forall|f: int, g: int|
            0 <= f < g < 6 ==> corner_normal(#[trigger] box_vertices(size, color)[4 * f]) != corner_normal(
                #[trigger] box_vertices(size, color)[4 * g],
            ),
        forall|f: int, i: int, j: int|
            0 <= f < 6 && 0 <= i < j < 4 ==> corner_side(#[trigger] box_vertices(size, color)[4 * f + i])
                != corner_side(#[trigger] box_vertices(size, color)[4 * f + j]),
        forall|f: int|
            #![trigger box_vertices(size, color)[4 * f]]
            0 <= f < 6 ==> {
                let v = box_vertices(size, color);
                let c0 = corner_side(v[4 * f]);
                let c1 = corner_side(v[4 * f + 1]);
                let c2 = corner_side(v[4 * f + 2]);
                let c3 = corner_side(v[4 * f + 3]);
                let n = corner_normal(v[4 * f]);
                &&& cross(minus(c1, c0), minus(c2, c0)) == (4 * n.0, 4 * n.1, 4 * n.2)
                &&& cross(minus(c2, c0), minus(c3, c0)) == (4 * n.0, 4 * n.1, 4 * n.2)
            },
{
    let v = box_vertices(size, color);
    let signs = box_corner_signs();
    let normals = box_face_normals();
    assert forall|k: int| 0 <= k < 24 implies v[k] == (PartVertex::BoxCorner {
        sign: signs[k],
        normal: normals[k / 4],
        size_mm: size,
        color,
    }) by {}
    assert forall|k: int| 0 <= k < 24 implies corner_side(#[trigger] v[k]) == corner_side_table(k) && corner_normal(v[k]) == corner_normal_table(k / 4) by {
        if k == 0 {
            assert(signs[0] == axes(-1, -1, 1));
            assert(normals[0] == axes(0, 0, 1));
        } else if k == 1 {
            assert(signs[1] == axes(1, -1, 1));
            assert(normals[0] == axes(0, 0, 1));
        } else if k == 2 {
            assert(signs[2] == axes(1, 1, 1));
            assert(normals[0] == axes(0, 0, 1));
        } else if k == 3 {
            assert(signs[3] == axes(-1, 1, 1));
            assert(normals[0] == axes(0, 0, 1));
        } else if k == 4 {
            assert(signs[4] == axes(1, -1, -1));
            assert(normals[1] == axes(0, 0, -1));
        } else if k == 5 {
            assert(signs[5] == axes(-1, -1, -1));
            assert(normals[1] == axes(0, 0, -1));
        } else if k == 6 {
            assert(signs[6] == axes(-1, 1, -1));
            assert(normals[1] == axes(0, 0, -1));
        } else if k == 7 {
            assert(signs[7] == axes(1, 1, -1));
            assert(normals[1] == axes(0, 0, -1));
        } else if k == 8 {
            assert(signs[8] == axes(-1, 1, 1));
            assert(normals[2] == axes(0, 1, 0));
        } else if k == 9 {
            assert(signs[9] == axes(1, 1, 1));
            assert(normals[2] == axes(0, 1, 0));
        } else if k == 10 {
            assert(signs[10] == axes(1, 1, -1));
            assert(normals[2] == axes(0, 1, 0));
        } else if k == 11 {
            assert(signs[11] == axes(-1, 1, -1));
            assert(normals[2] == axes(0, 1, 0));
        } else if k == 12 {
            assert(signs[12] == axes(-1, -1, -1));
            assert(normals[3] == axes(0, -1, 0));
        } else if k == 13 {
            assert(signs[13] == axes(1, -1, -1));
            assert(normals[3] == axes(0, -1, 0));
        } else if k == 14 {
            assert(signs[14] == axes(1, -1, 1));
            assert(normals[3] == axes(0, -1, 0));
        } else if k == 15 {
            assert(signs[15] == axes(-1, -1, 1));
            assert(normals[3] == axes(0, -1, 0));
        } else if k == 16 {
            assert(signs[16] == axes(1, -1, 1));
            assert(normals[4] == axes(1, 0, 0));
        } else if k == 17 {
            assert(signs[17] == axes(1, -1, -1));
            assert(normals[4] == axes(1, 0, 0));
        } else if k == 18 {
            assert(signs[18] == axes(1, 1, -1));
            assert(normals[4] == axes(1, 0, 0));
        } else if k == 19 {
            assert(signs[19] == axes(1, 1, 1));
            assert(normals[4] == axes(1, 0, 0));
        } else if k == 20 {
            assert(signs[20] == axes(-1, -1, -1));
            assert(normals[5] == axes(-1, 0, 0));
        } else if k == 21 {
            assert(signs[21] == axes(-1, -1, 1));
            assert(normals[5] == axes(-1, 0, 0));
        } else if k == 22 {
            assert(signs[22] == axes(-1, 1, 1));
            assert(normals[5] == axes(-1, 0, 0));
        } else if k == 23 {
            assert(signs[23] == axes(-1, 1, -1));
            assert(normals[5] == axes(-1, 0, 0));
        }
    }
    assert forall|k: int|
        #![trigger box_vertices(size, color)[k]]
        0 <= k < 24 implies {
        let w = box_vertices(size, color)[k];
        &&& w matches PartVertex::BoxCorner { size_mm, color: c, .. } && size_mm == size && c == color
        &&& is_cube_corner(corner_side(w))
        &&& is_unit_axis(corner_normal(w))
        &&& dot(corner_side(w), corner_normal(w)) == 1
        &&& corner_normal(w) == corner_normal(box_vertices(size, color)[4 * (k / 4)])
    } by {
        let _ = v[4 * (k / 4)];
        if k == 0 {
        } else if k == 1 {
        } else if k == 2 {
        } else if k == 3 {
        } else if k == 4 {
        } else if k == 5 {
        } else if k == 6 {
        } else if k == 7 {
        } else if k == 8 {
        } else if k == 9 {
        } else if k == 10 {
        } else if k == 11 {
        } else if k == 12 {
        } else if k == 13 {
        } else if k == 14 {
        } else if k == 15 {
        } else if k == 16 {
        } else if k == 17 {
        } else if k == 18 {
        } else if k == 19 {
        } else if k == 20 {
        } else if k == 21 {
        } else if k == 22 {
        } else if k == 23 {
        }
    }
    assert forall|f: int, g: int|
        0 <= f < g < 6 implies corner_normal(#[trigger] box_vertices(size, color)[4 * f]) != corner_normal(
        #[trigger] box_vertices(size, color)[4 * g],
    ) by {
        if f == 0 {
        } else if f == 1 {
        } else if f == 2 {
        } else if f == 3 {
        } else if f == 4 {
        } else if f == 5 {
        }
    }
    assert forall|f: int, i: int, j: int|
        0 <= f < 6 && 0 <= i < j < 4 implies corner_side(#[trigger] box_vertices(size, color)[4 * f + i])
        != corner_side(#[trigger] box_vertices(size, color)[4 * f + j]) by {
        if f == 0 {
        } else if f == 1 {
        } else if f == 2 {
        } else if f == 3 {
        } else if f == 4 {
        } else if f == 5 {
        }
    }
    assert forall|f: int|
        #![trigger box_vertices(size, color)[4 * f]]
        0 <= f < 6 implies {
        let c0 = corner_side(v[4 * f]);
        let c1 = corner_side(v[4 * f + 1]);
        let c2 = corner_side(v[4 * f + 2]);
        let c3 = corner_side(v[4 * f + 3]);
        let n = corner_normal(v[4 * f]);
        &&& cross(minus(c1, c0), minus(c2, c0)) == (4 * n.0, 4 * n.1, 4 * n.2)
        &&& cross(minus(c2, c0), minus(c3, c0)) == (4 * n.0, 4 * n.1, 4 * n.2)
    } by {
        let _ = v[4 * f + 1];
        let _ = v[4 * f + 2];
        let _ = v[4 * f + 3];
        if f == 0 {
            assert(corner_side(v[0]) == (-1int, -1int, 1int));
            assert(corner_side(v[1]) == (1int, -1int, 1int));
            assert(corner_side(v[2]) == (1int, 1int, 1int));
            assert(corner_side(v[3]) == (-1int, 1int, 1int));
            assert(corner_normal(v[0]) == (0int, 0int, 1int));
        } else if f == 1 {
            assert(corner_side(v[4]) == (1int, -1int, -1int));
            assert(corner_side(v[5]) == (-1int, -1int, -1int));
            assert(corner_side(v[6]) == (-1int, 1int, -1int));
            assert(corner_side(v[7]) == (1int, 1int, -1int));
            assert(corner_normal(v[4]) == (0int, 0int, -1int));
        } else if f == 2 {
            assert(corner_side(v[8]) == (-1int, 1int, 1int));
            assert(corner_side(v[9]) == (1int, 1int, 1int));
            assert(corner_side(v[10]) == (1int, 1int, -1int));
            assert(corner_side(v[11]) == (-1int, 1int, -1int));
            assert(corner_normal(v[8]) == (0int, 1int, 0int));
        } else if f == 3 {
            assert(corner_side(v[12]) == (-1int, -1int, -1int));
            assert(corner_side(v[13]) == (1int, -1int, -1int));
            assert(corner_side(v[14]) == (1int, -1int, 1int));
            assert(corner_side(v[15]) == (-1int, -1int, 1int));
            assert(corner_normal(v[12]) == (0int, -1int, 0int));
        } else if f == 4 {
            assert(corner_side(v[16]) == (1int, -1int, 1int));
            assert(corner_side(v[17]) == (1int, -1int, -1int));
            assert(corner_side(v[18]) == (1int, 1int, -1int));
            assert(corner_side(v[19]) == (1int, 1int, 1int));
            assert(corner_normal(v[16]) == (1int, 0int, 0int));
        } else if f == 5 {
            assert(corner_side(v[20]) == (-1int, -1int, -1int));
            assert(corner_side(v[21]) == (-1int, -1int, 1int));
            assert(corner_side(v[22]) == (-1int, 1int, 1int));
            assert(corner_side(v[23]) == (-1int, 1int, -1int));
            assert(corner_normal(v[20]) == (-1int, 0int, 0int));
        }
    }
}

} // verus!
