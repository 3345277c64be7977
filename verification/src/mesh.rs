//! CPU-side indexed triangle meshes and the procedural topologies the
//! renderer builds them from (terrain grids, boxes, wings, cylinders).
//!
//! A mesh is generic over its vertex payload: the library fixes how
//! vertices are wired into triangles, the caller supplies the vertices.

use vstd::prelude::*;
use vstd::arithmetic::div_mod::{lemma_fundamental_div_mod, lemma_fundamental_div_mod_converse, lemma_mod_bound};

verus! {

/// CPU-side mesh before upload: a vertex list and a triangle list whose
/// entries index into it, three per triangle.
pub struct CpuMesh<V> {
    pub vertices: Vec<V>,
    pub indices: Vec<u32>,
}

/// Corner `c` (0..6) of the two triangles covering grid cell (`z`, `x`) in a
/// grid with `n` vertices per row: (i, i+n, i+1) and (i+1, i+n, i+n+1).
pub open spec fn grid_corner(n: int, z: int, x: int, c: int) -> int {
    let i = z * n + x;
    if c == 0 {
        i
    } else if c == 1 {
        i + n
    } else if c == 2 {
        i + 1
    } else if c == 3 {
        i + 1
    } else if c == 4 {
        i + n
    } else {
        i + n + 1
    }
}

/// The first `cells` cells (row-major) of a grid of `s` x `s` cells, six
/// indices per cell.
pub open spec fn grid_prefix(s: nat, cells: nat) -> Seq<u32> {
    Seq::new(6 * cells, |j: int| grid_corner(s + 1int, (j / 6) / (s as int), (j / 6) % (s as int), j % 6) as u32)
}

/// Triangle indices of a terrain grid of `s` x `s` cells over
/// `(s + 1) * (s + 1)` row-major vertices.
pub open spec fn grid_indices(s: nat) -> Seq<u32> {
    grid_prefix(s, s * s)
}

/// `cells` copies of a six-entry corner `pattern`, the k-th copy offset by
/// `k * stride`.
pub open spec fn pattern_indices(cells: nat, stride: nat, pattern: Seq<u32>) -> Seq<u32> {
    Seq::new(6 * cells, |j: int| (stride * (j / 6) + pattern[j % 6]) as u32)
}

/// Two triangles per quad face with corners (0, 1, 2) and (0, 2, 3).
pub open spec fn face_pattern() -> Seq<u32> {
    seq![0u32, 1, 2, 0, 2, 3]
}

/// Two triangles per side quad of a cylinder: (b, b+1, b+3) and (b, b+3, b+2).
pub open spec fn side_pattern() -> Seq<u32> {
    seq![0u32, 1, 3, 0, 3, 2]
}

/// Indices of a box: six quad faces of four vertices each.
pub open spec fn box_indices() -> Seq<u32> {
    pattern_indices(6, 4, face_pattern())
}

/// Indices of an open cylinder with `segments` side quads over
/// `2 * (segments + 1)` vertices (bottom, top alternating).
pub open spec fn cylinder_indices(segments: nat) -> Seq<u32> {
    pattern_indices(segments, 2, side_pattern())
}

impl<V> CpuMesh<V> {
    /// Every triangle has three corners and every corner names a vertex.
    pub open spec fn well_formed(&self) -> bool {
        &&& self.indices@.len() % 3 == 0
        &&& forall|j: int|
            0 <= j < self.indices@.len() ==> (#[trigger] self.indices@[j]) < self.vertices@.len()
    }

    /// Number of triangles.
    pub open spec fn triangle_count(&self) -> nat {
        self.indices@.len() / 3
    }
}

proof fn lemma_split(j: int, k: int, c: int)
    requires
        0 <= c < 6,
        j == 6 * k + c,
    ensures
        j / 6 == k,
        j % 6 == c,
{
    lemma_fundamental_div_mod_converse(j, 6, k, c);
}

proof fn lemma_cell(q: int, s: int, z: int, x: int)
    requires
        0 < s,
        0 <= x < s,
        q == z * s + x,
    ensures
        q / s == z,
        q % s == x,
{
    lemma_fundamental_div_mod_converse(q, s, z, x);
}

proof fn lemma_grid_corner_bound(n: int, z: int, x: int, c: int)
    requires
        0 <= z < n - 1,
        0 <= x < n - 1,
        0 <= c < 6,
    ensures
        0 <= grid_corner(n, z, x, c) < n * n,
{
    assert(0 <= z * n + x && z * n + x + n + 1 < n * n) by (nonlinear_arith)
        requires
            0 <= z < n - 1,
            0 <= x < n - 1,
    ;
}

/// Cell (`z`, `x`) of a grid of `s` x `s` cells is covered by the triangles
/// (i, i+n, i+1) and (i+1, i+n, i+n+1), where n = s + 1 and i = z * n + x,
/// stored at positions 6 * (z * s + x) .. 6 * (z * s + x) + 6.
pub proof fn lemma_grid_cell(s: nat, z: nat, x: nat, c: nat)
    requires
        z < s,
        x < s,
        c < 6,
    ensures
        grid_indices(s)[6 * (z * s + x) + c as int] == grid_corner(s + 1int, z as int, x as int, c as int) as u32,
        6 * (z * s + x) + c < grid_indices(s).len(),
{
    let k: int = (z * s + x) as int;
    assert(k < s * s) by (nonlinear_arith)
        requires
            z < s,
            x < s,
            k == z * s + x,
    ;
    lemma_split(6 * k + c, k, c as int);
    lemma_cell(k, s as int, z as int, x as int);
}

/// A grid of `s` x `s` cells has 6 s^2 indices (2 s^2 triangles), each naming
/// one of its (s + 1)^2 vertices.
pub proof fn lemma_grid_well_formed(s: nat)
    requires
        (s + 1) * (s + 1) <= u32::MAX + 1,
    ensures
        grid_indices(s).len() == 6 * s * s,
        grid_indices(s).len() / 3 == 2 * s * s,
        forall|j: int|
            0 <= j < grid_indices(s).len() ==> (#[trigger] grid_indices(s)[j]) < (s + 1) * (s + 1),
{
    assert(6 * (s * s) == 6 * s * s) by (nonlinear_arith);
    assert(6 * (s * s) == (2 * s * s) * 3) by (nonlinear_arith);
    lemma_fundamental_div_mod_converse((6 * (s * s)) as int, 3, (2 * s * s) as int, 0);
    assert forall|j: int| 0 <= j < grid_indices(s).len() implies (#[trigger] grid_indices(s)[j]) < (s
        + 1) * (s + 1) by {
        let q = j / 6;
        let c = j % 6;
        lemma_fundamental_div_mod(j, 6);
        lemma_mod_bound(j, 6);
        assert(0 <= c < 6);
        assert(0 <= q < s * s);
        let z = q / (s as int);
        let x = q % (s as int);
        assert(s > 0) by (nonlinear_arith)
            requires
                0 <= q < s * s,
        ;
        lemma_fundamental_div_mod(q, s as int);
        lemma_mod_bound(q, s as int);
        assert(0 <= x < s);
        assert(0 <= z < s) by (nonlinear_arith)
            requires
                0 <= q < s * s,
                q == z * s + x,
                0 <= x < s,
        ;
        lemma_grid_corner_bound(s + 1int, z, x, c);
    }
}

/// The k-th six-entry copy of `pattern` is offset by `k * stride`; when the
/// pattern entries stay below `bound`, every index stays below
/// `(cells - 1) * stride + bound`.
pub proof fn lemma_pattern_in_range(cells: nat, stride: nat, pattern: Seq<u32>, bound: nat)
    requires
        pattern.len() == 6,
        forall|c: int| 0 <= c < 6 ==> #[trigger] pattern[c] < bound,
        cells > 0 ==> (cells - 1) * stride + bound <= u32::MAX + 1,
    ensures
        pattern_indices(cells, stride, pattern).len() == 6 * cells,
        forall|j: int|
            0 <= j < 6 * cells ==> (#[trigger] pattern_indices(cells, stride, pattern)[j]) < (cells
                - 1) * stride + bound,
{
    assert forall|j: int| 0 <= j < 6 * cells implies (#[trigger] pattern_indices(
        cells,
        stride,
        pattern,
    )[j]) < (cells - 1) * stride + bound by {
        let q = j / 6;
        let c = j % 6;
        lemma_fundamental_div_mod(j, 6);
        lemma_mod_bound(j, 6);
        assert(0 <= c < 6);
        assert(0 <= q < cells);
        assert(pattern[c] < bound);
        assert(stride * q <= (cells - 1) * stride) by (nonlinear_arith)
            requires
                0 <= q < cells,
        ;
    }
}

/// Builds the index list of a grid of `s` x `s` cells.
fn grid_index_list(s: u32) -> (indices: Vec<u32>)
    requires
        (s + 1) * (s + 1) <= u32::MAX + 1,
    ensures
        indices@ == grid_indices(s as nat),
{
    assert(s + 1 <= u32::MAX) by (nonlinear_arith)
        requires
            (s + 1) * (s + 1) <= u32::MAX + 1,
    ;
    let n: u32 = s + 1;
    let mut indices: Vec<u32> = Vec::new();
    for z in 0..s
        invariant
            n == s + 1,
            (s + 1) * (s + 1) <= u32::MAX + 1,
            indices@ == grid_prefix(s as nat, (z * s) as nat),
    {
        for x in 0..s
            invariant
                n == s + 1,
                (s + 1) * (s + 1) <= u32::MAX + 1,
                z < s,
                indices@ == grid_prefix(s as nat, (z * s + x) as nat),
        {
            assert(z * n + x + n + 1 <= u32::MAX) by (nonlinear_arith)
                requires
                    z < s,
                    x < s,
                    n == s + 1,
                    (s + 1) * (s + 1) <= u32::MAX + 1,
            ;
            let i: u32 = z * n + x;
            let ghost k: int = z * s + x;
            let ghost before = indices@;
            indices.push(i);
            indices.push(i + n);
            indices.push(i + 1);
            indices.push(i + 1);
            indices.push(i + n);
            indices.push(i + n + 1);
            assert(indices@ =~= grid_prefix(s as nat, (k + 1) as nat)) by {
                assert forall|j: int| 0 <= j < 6 * (k + 1) implies indices@[j]
                    == #[trigger] grid_corner(
                    s + 1int,
                    (j / 6) / (s as int),
                    (j / 6) % (s as int),
                    j % 6,
                ) as u32 by {
                    if j >= 6 * k {
                        lemma_split(j, k, j - 6 * k);
                        lemma_cell(k, s as int, z as int, x as int);
                    }
                }
            }
        }
        assert((z * s + s) == (z + 1) * s) by (nonlinear_arith);
    }
    indices
}

/// Builds `cells` copies of the six-entry corner `pattern`, the k-th copy
/// offset by `k * stride`.
fn pattern_index_list(cells: u32, stride: u32, pattern: [u32; 6]) -> (indices: Vec<u32>)
    requires
        forall|c: int| 0 <= c < 6 ==> (cells - 1) * stride + #[trigger] pattern@[c] <= u32::MAX,
    ensures
        indices@ == pattern_indices(cells as nat, stride as nat, pattern@),
{
    let mut indices: Vec<u32> = Vec::new();
    for k in 0..cells
        invariant
            forall|c: int| 0 <= c < 6 ==> (cells - 1) * stride + #[trigger] pattern@[c] <= u32::MAX,
            indices@ == pattern_indices(k as nat, stride as nat, pattern@),
    {
        assert(k * stride <= (cells - 1) * stride) by (nonlinear_arith)
            requires
                k < cells,
        ;
        assert((cells - 1) * stride + pattern@[0] <= u32::MAX);
        assert((cells - 1) * stride + pattern@[1] <= u32::MAX);
        assert((cells - 1) * stride + pattern@[2] <= u32::MAX);
        assert((cells - 1) * stride + pattern@[3] <= u32::MAX);
        assert((cells - 1) * stride + pattern@[4] <= u32::MAX);
        assert((cells - 1) * stride + pattern@[5] <= u32::MAX);
        let base: u32 = k * stride;
        let ghost before = indices@;
        assert(stride * k == k * stride) by (nonlinear_arith);
        indices.push(base + pattern[0]);
        indices.push(base + pattern[1]);
        indices.push(base + pattern[2]);
        indices.push(base + pattern[3]);
        indices.push(base + pattern[4]);
        indices.push(base + pattern[5]);
        assert(indices@ =~= pattern_indices((k + 1) as nat, stride as nat, pattern@)) by {
            assert forall|j: int| 0 <= j < 6 * (k + 1) implies indices@[j]
                == #[trigger] ((stride * (j / 6) + pattern@[j % 6]) as u32) by {
                if j >= 6 * k {
                    lemma_split(j, k as int, j - 6 * k);
                } else {
                    assert(indices@[j] == before[j]);
                }
            }
        }
    }
    indices
}

impl<V> CpuMesh<V> {
    /// Flat terrain grid of `subdivisions` x `subdivisions` cells over the
    /// `(subdivisions + 1)^2` row-major grid `vertices`, two triangles per cell.
    pub fn terrain(vertices: Vec<V>, subdivisions: u32) -> (mesh: Self)
        requires
            (subdivisions + 1) * (subdivisions + 1) <= u32::MAX,
            vertices@.len() == (subdivisions + 1) * (subdivisions + 1),
        ensures
            mesh.vertices@ == vertices@,
            mesh.indices@ == grid_indices(subdivisions as nat),
            mesh.well_formed(),
            mesh.triangle_count() == 2 * subdivisions * subdivisions,
    {
        let indices = grid_index_list(subdivisions);
        proof {
            lemma_grid_well_formed(subdivisions as nat);
        }
        CpuMesh { vertices, indices }
    }

    /// Box (fuselage / body) over 24 `vertices`: six quad faces of four
    /// corners each, two triangles per face.
    pub fn box_mesh(vertices: Vec<V>) -> (mesh: Self)
        requires
            vertices@.len() == 24,
        ensures
            mesh.vertices@ == vertices@,
            mesh.indices@ == box_indices(),
            mesh.well_formed(),
            mesh.triangle_count() == 12,
    {
        let indices = pattern_index_list(6, 4, [0, 1, 2, 0, 2, 3]);
        proof {
            assert([0u32, 1, 2, 0, 2, 3]@ =~= face_pattern());
            lemma_pattern_in_range(6, 4, face_pattern(), 4);
        }
        CpuMesh { vertices, indices }
    }

    /// Flat wing: a thin box over 24 `vertices`, laid out as `box_mesh`.
    pub fn wing(vertices: Vec<V>) -> (mesh: Self)
        requires
            vertices@.len() == 24,
        ensures
            mesh.vertices@ == vertices@,
            mesh.indices@ == box_indices(),
            mesh.well_formed(),
            mesh.triangle_count() == 12,
    {
        Self::box_mesh(vertices)
    }

    /// Open cylinder (propeller hub, tower shaft) with `segments` side quads
    /// over `2 * (segments + 1)` vertices, alternating bottom and top rim.
    pub fn cylinder(vertices: Vec<V>, segments: u32) -> (mesh: Self)
        requires
            2 * segments + 1 <= u32::MAX,
            vertices@.len() == 2 * (segments + 1),
        ensures
            mesh.vertices@ == vertices@,
            mesh.indices@ == cylinder_indices(segments as nat),
            mesh.well_formed(),
            mesh.triangle_count() == 2 * segments,
    {
        proof {
            assert([0u32, 1, 3, 0, 3, 2]@ =~= side_pattern());
        }
        let indices = pattern_index_list(segments, 2, [0, 1, 3, 0, 3, 2]);
        proof {
            lemma_pattern_in_range(segments as nat, 2, side_pattern(), 4);
        }
        CpuMesh { vertices, indices }
    }

    /// Terrain mesh over a `grid_size` x `grid_size` row-major vertex grid
    /// produced by the GPU terrain generator: `grid_size - 1` cells per side.
    pub fn from_gpu_terrain(vertices: Vec<V>, grid_size: u32) -> (mesh: Self)
        requires
            grid_size >= 1,
            grid_size * grid_size <= u32::MAX + 1,
            vertices@.len() == grid_size * grid_size,
        ensures
            mesh.vertices@ == vertices@,
            mesh.indices@ == grid_indices((grid_size - 1) as nat),
            mesh.well_formed(),
            mesh.triangle_count() == 2 * (grid_size - 1) * (grid_size - 1),
    {
        let indices = grid_index_list(grid_size - 1);
        proof {
            lemma_grid_well_formed((grid_size - 1) as nat);
        }
        CpuMesh { vertices, indices }
    }
}

} // verus!
