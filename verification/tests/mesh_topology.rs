use mmast_sim::mesh::CpuMesh;
use mmast_sim::scene::{
    box_corners, build_hale_uav, build_quadcopter, build_rover, build_terrain, rim_points,
    wing_corners, Extents, PartVertex, Rgba, TerrainPoint, HUB_SEGMENTS, MOTOR_SEGMENTS,
    TERRAIN_SIZE_M, TERRAIN_SUBDIVISIONS,
};

fn ids(n: u32) -> Vec<u32> {
    (0..n).collect()
}

fn well_formed(mesh: &CpuMesh<u32>) -> bool {
    mesh.indices.len() % 3 == 0
        && mesh.indices.iter().all(|&i| (i as usize) < mesh.vertices.len())
}

const BOX_INDICES: [u32; 36] = [
    0, 1, 2, 0, 2, 3, 4, 5, 6, 4, 6, 7, 8, 9, 10, 8, 10, 11, 12, 13, 14, 12, 14, 15, 16, 17, 18,
    16, 18, 19, 20, 21, 22, 20, 22, 23,
];

#[test]
fn terrain_two_by_two_grid() {
    let mesh = CpuMesh::terrain(ids(9), 2);
    assert_eq!(mesh.vertices, ids(9));
    assert_eq!(
        mesh.indices,
        vec![
            0, 3, 1, 1, 3, 4, 1, 4, 2, 2, 4, 5, 3, 6, 4, 4, 6, 7, 4, 7, 5, 5, 7, 8
        ]
    );
    assert_eq!(mesh.indices.len() / 3, 8);
}

#[test]
fn terrain_single_cell() {
    let mesh = CpuMesh::terrain(ids(4), 1);
    assert_eq!(mesh.indices, vec![0, 2, 1, 1, 2, 3]);
}

#[test]
fn terrain_without_cells_has_no_triangles() {
    let mesh = CpuMesh::terrain(ids(1), 0);
    assert!(mesh.indices.is_empty());
    assert_eq!(mesh.vertices.len(), 1);
}

#[test]
fn box_mesh_wires_six_quad_faces() {
    let mesh = CpuMesh::box_mesh(ids(24));
    assert_eq!(mesh.indices, BOX_INDICES.to_vec());
    assert_eq!(mesh.indices.len() / 3, 12);
    assert!(well_formed(&mesh));
}

#[test]
fn wing_is_a_box() {
    let wing = CpuMesh::wing(ids(24));
    assert_eq!(wing.indices, BOX_INDICES.to_vec());
}

#[test]
fn cylinder_three_segments() {
    let mesh = CpuMesh::cylinder(ids(8), 3);
    assert_eq!(
        mesh.indices,
        vec![0, 1, 3, 0, 3, 2, 2, 3, 5, 2, 5, 4, 4, 5, 7, 4, 7, 6]
    );
    assert!(well_formed(&mesh));
}

#[test]
fn cylinder_twelve_segments_triangle_count() {
    let mesh = CpuMesh::cylinder(ids(26), 12);
    assert_eq!(mesh.indices.len() / 3, 24);
    assert_eq!(*mesh.indices.iter().max().unwrap(), 25);
    assert!(well_formed(&mesh));
}

#[test]
fn gpu_terrain_matches_cpu_terrain() {
    let gpu = CpuMesh::from_gpu_terrain(ids(16), 4);
    let cpu = CpuMesh::terrain(ids(16), 3);
    assert_eq!(gpu.indices, cpu.indices);
    assert_eq!(gpu.indices.len(), 6 * 9);
}

#[test]
fn gpu_terrain_single_vertex_has_no_triangles() {
    let gpu = CpuMesh::from_gpu_terrain(ids(1), 1);
    assert!(gpu.indices.is_empty());
}

#[test]
fn scene_terrain_is_eighty_cells_per_side() {
    let mesh = build_terrain();
    assert_eq!(mesh.vertices.len(), 6561);
    assert_eq!(mesh.indices.len() / 3, 2 * 80 * 80);
    assert!(mesh.indices.iter().all(|&i| (i as usize) < mesh.vertices.len()));
    // Last cell (79, 79): i = 79 * 81 + 79.
    let i = 79 * 81 + 79;
    let tail = &mesh.indices[mesh.indices.len() - 6..];
    assert_eq!(tail, &[i, i + 81, i + 1, i + 1, i + 81, i + 82]);
    let color = Rgba { r: 8, g: 13, b: 20, a: 100 };
    assert_eq!(mesh.vertices[0], TerrainPoint { x_m: -200, z_m: -200, color });
    assert_eq!(mesh.vertices[1], TerrainPoint { x_m: -195, z_m: -200, color });
    assert_eq!(mesh.vertices[81], TerrainPoint { x_m: -200, z_m: -195, color });
    assert_eq!(mesh.vertices[6560], TerrainPoint { x_m: 200, z_m: 200, color });
    assert_eq!(TERRAIN_SIZE_M, 400);
    assert_eq!(TERRAIN_SUBDIVISIONS, 80);
}

fn box_size(mesh: &CpuMesh<PartVertex>) -> (Extents, Rgba) {
    match mesh.vertices[0] {
        PartVertex::BoxCorner { size_mm, color, .. } => (size_mm, color),
        other => panic!("not a box corner: {other:?}"),
    }
}

fn rim(mesh: &CpuMesh<PartVertex>) -> (u32, u32, u32, Rgba) {
    match mesh.vertices[0] {
        PartVertex::RimPoint { radius_mm, height_mm, segments, color, .. } => {
            (radius_mm, height_mm, segments, color)
        }
        other => panic!("not a rim point: {other:?}"),
    }
}

#[test]
fn box_corners_follow_the_face_table() {
    let color = Rgba { r: 1, g: 2, b: 3, a: 100 };
    let size = Extents { x: 2600, y: 700, z: 800 };
    let corners = box_corners(size, color);
    assert_eq!(corners.len(), 24);
    let corner = |k: usize| match corners[k] {
        PartVertex::BoxCorner { sign, normal, size_mm, color: c } => {
            assert_eq!(size_mm, size);
            assert_eq!(c, color);
            ((sign.x, sign.y, sign.z), (normal.x, normal.y, normal.z))
        }
        other => panic!("not a box corner: {other:?}"),
    };
    assert_eq!(corner(0), ((-1, -1, 1), (0, 0, 1)));
    assert_eq!(corner(2), ((1, 1, 1), (0, 0, 1)));
    assert_eq!(corner(4), ((1, -1, -1), (0, 0, -1)));
    assert_eq!(corner(9), ((1, 1, 1), (0, 1, 0)));
    assert_eq!(corner(15), ((-1, -1, 1), (0, -1, 0)));
    assert_eq!(corner(17), ((1, -1, -1), (1, 0, 0)));
    assert_eq!(corner(23), ((-1, 1, -1), (-1, 0, 0)));
    // Every corner lies on its face: its sign along the normal is the normal's.
    for k in 0..24 {
        let ((sx, sy, sz), (nx, ny, nz)) = corner(k);
        assert_eq!(sx * nx + sy * ny + sz * nz, 1, "corner {k}");
    }
}

#[test]
fn wing_puts_span_along_z() {
    let color = Rgba { r: 3, g: 4, b: 8, a: 100 };
    let wing = wing_corners(12000, 1100, 120, color);
    assert_eq!(wing, box_corners(Extents { x: 1100, y: 120, z: 12000 }, color));
}

#[test]
fn rim_points_alternate_bottom_and_top() {
    let color = Rgba { r: 5, g: 5, b: 5, a: 100 };
    let points = rim_points(120, 80, 3, color);
    assert_eq!(points.len(), 8);
    for (k, p) in points.iter().enumerate() {
        assert_eq!(
            *p,
            PartVertex::RimPoint {
                step: (k / 2) as u32,
                segments: 3,
                top: k % 2 == 1,
                radius_mm: 120,
                height_mm: 80,
                color
            }
        );
    }
}

#[test]
fn hale_uav_parts_in_order() {
    let meshes = build_hale_uav();
    assert_eq!(meshes.len(), 6);
    let body = Rgba { r: 4, g: 5, b: 9, a: 100 };
    let wing = Rgba { r: 3, g: 4, b: 8, a: 100 };
    let pv = Rgba { r: 4, g: 8, b: 22, a: 100 };
    assert_eq!(box_size(&meshes[0]), (Extents { x: 2600, y: 700, z: 700 }, body));
    // Wing: 12 m span along z, 1.1 m chord, 0.12 m thick.
    assert_eq!(box_size(&meshes[1]), (Extents { x: 1100, y: 120, z: 12000 }, wing));
    assert_eq!(box_size(&meshes[2]), (Extents { x: 1050, y: 20, z: 11800 }, pv));
    assert_eq!(box_size(&meshes[3]), (Extents { x: 60, y: 1000, z: 60 }, wing));
    assert_eq!(box_size(&meshes[4]), (Extents { x: 1400, y: 50, z: 60 }, wing));
    for m in meshes.iter().take(5) {
        assert_eq!(m.vertices.len(), 24);
        assert_eq!(m.indices, BOX_INDICES.to_vec());
    }
    assert_eq!(rim(&meshes[5]), (80, 100, HUB_SEGMENTS, Rgba { r: 13, g: 16, b: 25, a: 100 }));
    assert_eq!(meshes[5].vertices.len(), 26);
    assert_eq!(meshes[5].indices.len(), 6 * 12);
}

#[test]
fn quadcopter_has_body_then_four_arm_motor_pairs() {
    let meshes = build_quadcopter();
    assert_eq!(meshes.len(), 9);
    let arm_color = Rgba { r: 6, g: 7, b: 12, a: 100 };
    let motor_color = Rgba { r: 15, g: 15, b: 20, a: 100 };
    assert_eq!(box_size(&meshes[0]), (Extents { x: 150, y: 40, z: 150 }, arm_color));
    for k in 0..4 {
        assert_eq!(box_size(&meshes[1 + 2 * k]), (Extents { x: 200, y: 20, z: 20 }, arm_color));
        assert_eq!(meshes[1 + 2 * k].indices, BOX_INDICES.to_vec());
        assert_eq!(rim(&meshes[2 + 2 * k]), (30, 40, MOTOR_SEGMENTS, motor_color));
        assert_eq!(meshes[2 + 2 * k].vertices.len(), 18);
        assert_eq!(meshes[2 + 2 * k].indices.len(), 6 * 8);
    }
}

#[test]
fn rover_has_chassis_panel_and_four_wheels() {
    let meshes = build_rover();
    assert_eq!(meshes.len(), 6);
    assert_eq!(box_size(&meshes[0]), (Extents { x: 1000, y: 250, z: 600 }, Rgba { r: 12, g: 10, b: 6, a: 100 }));
    assert_eq!(box_size(&meshes[1]), (Extents { x: 900, y: 20, z: 550 }, Rgba { r: 4, g: 8, b: 22, a: 100 }));
    for k in 2..6 {
        assert_eq!(rim(&meshes[k]), (120, 80, HUB_SEGMENTS, Rgba { r: 5, g: 5, b: 5, a: 100 }));
        assert_eq!(meshes[k].vertices.len(), 26);
        assert_eq!(meshes[k].indices.len(), 72);
        assert!(meshes[k].indices.iter().all(|&i| (i as usize) < 26));
    }
}
