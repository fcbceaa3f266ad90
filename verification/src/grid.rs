//! The flat base grid of a terrain plane.
//!
//! The grid spans the rectangle of the plane in the XZ plane, row by row.
//! The vertices of a row follow one another along x, and `x_subdivisions`
//! counts the cuts across the width between the first of them and the
//! last; the rows follow one another along z, and `z_subdivisions` counts
//! the cuts across the length between the first row and the last.

use vstd::prelude::*;
use crate::scalar::{SCALE, floor_div, lemma_share_bound};

verus! {

/// The size and the density of a grid.
#[derive(Debug, Copy, Clone)]
pub struct RectPlane {
    /// The extent along x, in steps.
    pub width: i64,
    /// The extent along z, in steps.
    pub length: i64,
    /// The cuts across the width: between the first vertex of a row and
    /// its last.
    pub x_subdivisions: u32,
    /// The cuts across the length: between the first row and the last.
    pub z_subdivisions: u32,
}

/// The buffers of a mesh: one entry per vertex in each of the first four,
/// and three indices per triangle in the last.
#[derive(Debug, Clone)]
pub struct MeshBuffers {
    pub positions: Vec<[i64; 3]>,
    pub normals: Vec<[i64; 3]>,
    pub uvs: Vec<[i64; 2]>,
    pub colors: Vec<[i64; 4]>,
    pub indices: Vec<u32>,
}

/// Why a grid cannot be built.
#[derive(Debug, Clone, Copy, PartialEq, Eq, Structural)]
pub enum GridError {
    /// The width or the length is not positive.
    EmptyExtent,
    /// The grid would hold more vertices than a 32-bit index can name.
    TooManyVertices,
}

/// The coordinate of vertex `i` of `n + 1` that are spread evenly over
/// `[-extent / 2, extent / 2]`.
pub open spec fn coordinate_spec(extent: int, i: int, n: int) -> int {
    -(extent / 2) + (2 * (extent / 2) * i) / n
}

/// The fraction `i / n` in fixed point.
pub open spec fn fraction_spec(i: int, n: int) -> int {
    (SCALE * i) / n
}

/// Corner `j` of the two triangles of quad `q`, in a grid of `columns`
/// vertices per row.
pub open spec fn quad_corner_spec(columns: int, q: int, j: int) -> int {
    let base = (q / (columns - 1)) * columns + q % (columns - 1);
    if j == 0 {
        base + columns + 1
    } else if j == 1 || j == 5 {
        base + 1
    } else if j == 2 || j == 4 {
        base + columns
    } else {
        base
    }
}

impl RectPlane {
    /// The number of vertices in a row, which runs along x.
    pub open spec fn columns(self) -> int {
        self.x_subdivisions + 2
    }

    /// The number of rows of vertices, which follow one another along z.
    pub open spec fn rows(self) -> int {
        self.z_subdivisions + 2
    }

    /// The number of vertices.
    pub open spec fn vertex_count(self) -> int {
        (self.x_subdivisions + 2) * (self.z_subdivisions + 2)
    }

    /// The number of indices: six for each quad.
    pub open spec fn index_count(self) -> int {
        6 * ((self.x_subdivisions + 1) * (self.z_subdivisions + 1))
    }

    /// Whether a grid can be built: both extents are positive and a 32-bit
    /// index can name every vertex.
    pub open spec fn wf(self) -> bool {
        &&& self.width > 0
        &&& self.length > 0
        &&& self.vertex_count() <= u32::MAX
    }

    /// The position of vertex `k`.
    pub open spec fn position_spec(self, k: int) -> (int, int, int) {
        (
            coordinate_spec(self.width as int, k % self.columns(), self.columns() - 1),
            0,
            coordinate_spec(self.length as int, k / self.columns(), self.rows() - 1),
        )
    }

    /// The texture coordinates of vertex `k`: `u` grows with x, `v` falls
    /// as z grows.
    pub open spec fn uv_spec(self, k: int) -> (int, int) {
        (
            fraction_spec(k % self.columns(), self.columns() - 1),
            SCALE - fraction_spec(k / self.columns(), self.rows() - 1),
        )
    }

    /// Whether `mesh` is laid out as the grid of this plane: every vertex
    /// at its place in the XZ plane with its normal up and its texture
    /// coordinates, two triangles per quad. Heights and colours are left
    /// open.
    pub open spec fn lays_out(self, mesh: MeshBuffers) -> bool {
        &&& mesh.positions@.len() == self.vertex_count()
        &&& mesh.normals@.len() == self.vertex_count()
        &&& mesh.uvs@.len() == self.vertex_count()
        &&& mesh.indices@.len() == self.index_count()
        &&& forall|k: int|
            0 <= k < self.vertex_count() ==> {
                &&& (#[trigger] mesh.positions@[k])[0] == self.position_spec(k).0
                &&& mesh.positions@[k][2] == self.position_spec(k).2
            }
        &&& forall|k: int|
            0 <= k < self.vertex_count() ==> {
                &&& (#[trigger] mesh.normals@[k])[0] == 0
                &&& mesh.normals@[k][1] == SCALE
                &&& mesh.normals@[k][2] == 0
            }
        &&& forall|k: int|
            0 <= k < self.vertex_count() ==> {
                &&& (#[trigger] mesh.uvs@[k])[0] == self.uv_spec(k).0
                &&& mesh.uvs@[k][1] == self.uv_spec(k).1
            }
        &&& forall|i: int|
            0 <= i < self.index_count() ==> {
                &&& (#[trigger] mesh.indices@[i]) == quad_corner_spec(self.columns(), i / 6, i % 6)
                &&& mesh.indices@[i] < self.vertex_count()
            }
    }

    /// Whether `mesh` is the flat grid of this plane: laid out as its
    /// grid, every height zero, no colours yet.
    pub open spec fn is_grid(self, mesh: MeshBuffers) -> bool {
        &&& self.lays_out(mesh)
        &&& mesh.colors@.len() == 0
        &&& forall|k: int| 0 <= k < self.vertex_count() ==> (#[trigger] mesh.positions@[k])[1] == 0
    }

    /// Tells whether a grid can be built, and if not, why.
    pub fn validate(&self) -> (r: Result<(), GridError>)
        ensures
            r.is_ok() == self.wf(),
            r == Err::<(), GridError>(GridError::EmptyExtent) <==> (self.width <= 0 || self.length <= 0),
    {
        if self.width <= 0 || self.length <= 0 {
            return Err(GridError::EmptyExtent);
        }
        let rows: u128 = self.x_subdivisions as u128 + 2;
        let columns: u128 = self.z_subdivisions as u128 + 2;
        proof {
            crate::scalar::lemma_product_bound(rows as int, columns as int, 0x1_0000_0001, 0x1_0000_0001);
        }
        if rows * columns > u32::MAX as u128 {
            Err(GridError::TooManyVertices)
        } else {
            Ok(())
        }
    }
}

impl RectPlane {
    /// Builds the flat grid of this plane.
    pub fn mesh(&self) -> (r: MeshBuffers)
        requires
            self.wf(),
        ensures
            self.is_grid(r),
    {
        proof {
            lemma_factor_bound(self.rows(), self.columns(), u32::MAX as int);
            lemma_factor_bound(self.columns(), self.rows(), u32::MAX as int);
            assert((self.rows() - 1) * (self.columns() - 1) <= self.rows() * self.columns())
                by (nonlinear_arith)
                requires
                    self.rows() >= 2,
                    self.columns() >= 2,
            ;
        }
        let columns: u32 = self.x_subdivisions + 2;
        let rows: u32 = self.z_subdivisions + 2;
        proof {
            assert(rows * columns == columns * rows && (rows - 1) * (columns - 1) == (columns - 1) * (
            rows - 1)) by (nonlinear_arith);
        }
        let count: u32 = rows * columns;
        let quads: u32 = (rows - 1) * (columns - 1);
        let mut positions: Vec<[i64; 3]> = Vec::new();
        let mut normals: Vec<[i64; 3]> = Vec::new();
        let mut uvs: Vec<[i64; 2]> = Vec::new();
        let mut indices: Vec<u32> = Vec::new();
        let mut k: u32 = 0;
        while k < count
            invariant
                self.wf(),
                rows == self.rows(),
                columns == self.columns(),
                count == self.vertex_count(),
                count == rows * columns,
                k <= count,
                positions@.len() == k,
                normals@.len() == k,
                uvs@.len() == k,
                forall|a: int|
                    0 <= a < k ==> {
                        &&& (#[trigger] positions@[a])[0] == self.position_spec(a).0
                        &&& positions@[a][1] == 0
                        &&& positions@[a][2] == self.position_spec(a).2
                    },
                forall|a: int|
                    0 <= a < k ==> {
                        &&& (#[trigger] normals@[a])[0] == 0
                        &&& normals@[a][1] == SCALE
                        &&& normals@[a][2] == 0
                    },
                forall|a: int|
                    0 <= a < k ==> {
                        &&& (#[trigger] uvs@[a])[0] == self.uv_spec(a).0
                        &&& uvs@[a][1] == self.uv_spec(a).1
                    },
            decreases count - k,
        {
            proof {
                lemma_cell(k as int, rows as int, columns as int);
            }
            let row: u32 = k / columns;
            let col: u32 = k % columns;
            let x: i64 = grid_coordinate(self.width, col, columns - 1);
            let z: i64 = grid_coordinate(self.length, row, rows - 1);
            let u: i64 = unit_fraction(col, columns - 1);
            let v: i64 = SCALE - unit_fraction(row, rows - 1);
            positions.push([x, 0, z]);
            normals.push([0, SCALE, 0]);
            uvs.push([u, v]);
            k = k + 1;
        }
        let mut q: u32 = 0;
        while q < quads
            invariant
                self.wf(),
                rows == self.rows(),
                columns == self.columns(),
                count == self.vertex_count(),
                quads == (rows - 1) * (columns - 1),
                6 * quads == self.index_count(),
                q <= quads,
                indices@.len() == 6 * q,
                forall|i: int|
                    0 <= i < 6 * q ==> {
                        &&& (#[trigger] indices@[i]) == quad_corner_spec(self.columns(), i / 6, i % 6)
                        &&& indices@[i] < self.vertex_count()
                    },
            decreases quads - q,
        {
            proof {
                lemma_cell(q as int, rows - 1, columns - 1);
                lemma_quad_bound(
                    (q / ((columns - 1) as u32)) as int,
                    (q % ((columns - 1) as u32)) as int,
                    rows as int,
                    columns as int,
                );
            }
            let base: u32 = (q / (columns - 1)) * columns + q % (columns - 1);
            indices.push(base + columns + 1);
            indices.push(base + 1);
            indices.push(base + columns);
            indices.push(base);
            indices.push(base + columns);
            indices.push(base + 1);
            q = q + 1;
        }
        MeshBuffers { positions, normals, uvs, colors: Vec::new(), indices }
    }
}

/// The flat grid of a plane with the given cuts and extents.
pub fn plane_mesh(subdivisions: &(u32, u32), dims: &(i64, i64)) -> (r: MeshBuffers)
    requires
        (RectPlane {
            width: dims.0,
            length: dims.1,
            x_subdivisions: subdivisions.0,
            z_subdivisions: subdivisions.1,
        }).wf(),
    ensures
        (RectPlane {
            width: dims.0,
            length: dims.1,
            x_subdivisions: subdivisions.0,
            z_subdivisions: subdivisions.1,
        }).is_grid(r),
{
    let plane = RectPlane {
        width: dims.0,
        length: dims.1,
        x_subdivisions: subdivisions.0,
        z_subdivisions: subdivisions.1,
    };
    plane.mesh()
}

/// Where a product of two factors, the second at least two, stays under a
/// limit, the first stays under half of it.
pub proof fn lemma_factor_bound(a: int, b: int, limit: int)
    requires
        0 <= a,
        2 <= b,
        a * b <= limit,
    ensures
        2 * a <= limit,
{
    assert(2 * a <= a * b) by (nonlinear_arith)
        requires
            0 <= a,
            2 <= b,
    ;
}

/// Entry `k` of a table of `rows` by `columns`, counted row by row, stands
/// in row `k / columns` and column `k % columns`.
pub proof fn lemma_cell(k: int, rows: int, columns: int)
    requires
        0 <= k < rows * columns,
        0 < columns,
    ensures
        0 <= k / columns < rows,
        0 <= k % columns < columns,
        k == (k / columns) * columns + k % columns,
{
    vstd::arithmetic::div_mod::lemma_fundamental_div_mod(k, columns);
    vstd::arithmetic::div_mod::lemma_mod_bound(k, columns);
    let q: int = k / columns;
    assert(0 <= q < rows && k == q * columns + k % columns) by (nonlinear_arith)
        requires
            k == columns * q + k % columns,
            0 <= k % columns < columns,
            0 <= k < rows * columns,
    ;
}

/// The four corners of the quad at `row` and `col` are vertices of the grid.
pub proof fn lemma_quad_bound(row: int, col: int, rows: int, columns: int)
    requires
        0 <= row < rows - 1,
        0 <= col < columns - 1,
    ensures
        0 <= row * columns + col,
        row * columns + col + columns + 1 < rows * columns,
{
    assert(0 <= row * columns + col && row * columns + col + columns + 1 < rows * columns)
        by (nonlinear_arith)
        requires
            0 <= row,
            row + 2 <= rows,
            0 <= col,
            col + 2 <= columns,
    ;
}

/// The coordinate of vertex `i` of `n + 1` that are spread evenly over
/// `[-extent / 2, extent / 2]`.
pub fn grid_coordinate(extent: i64, i: u32, n: u32) -> (r: i64)
    requires
        extent > 0,
        0 < n,
        i <= n,
    ensures
        r == coordinate_spec(extent as int, i as int, n as int),
        -(extent / 2) <= r <= extent / 2,
{
    let half: i128 = (extent / 2) as i128;
    proof {
        crate::scalar::lemma_product_bound(2 * half as int, i as int, 0x8000_0000_0000_0000, 0x1_0000_0000);
        lemma_share_bound(2 * half as int, i as int, n as int);
    }
    let share: i128 = floor_div(2 * half * (i as i128), n as i128);
    (share - half) as i64
}

/// The fraction `i / n` in fixed point.
pub fn unit_fraction(i: u32, n: u32) -> (r: i64)
    requires
        0 < n,
        i <= n,
    ensures
        r == fraction_spec(i as int, n as int),
        0 <= r <= SCALE,
{
    proof {
        crate::scalar::lemma_product_bound(SCALE as int, i as int, 1_000_000, 0x1_0000_0000);
        lemma_share_bound(SCALE as int, i as int, n as int);
    }
    floor_div((SCALE as i128) * (i as i128), n as i128) as i64
}

/// The grid spans the extents of its plane and the unit square of its
/// texture: every vertex lies between minus half the extent and half the
/// extent on each axis, the first vertex at the least corner and the last
/// at the greatest; `u` runs from zero to one with x, `v` from one to zero
/// with z.
pub proof fn grid_spans_extents(plane: RectPlane, k: int)
    requires
        plane.wf(),
        0 <= k < plane.vertex_count(),
    ensures
        -(plane.width / 2) <= plane.position_spec(k).0 <= plane.width / 2,
        -(plane.length / 2) <= plane.position_spec(k).2 <= plane.length / 2,
        0 <= plane.uv_spec(k).0 <= SCALE,
        0 <= plane.uv_spec(k).1 <= SCALE,
        plane.position_spec(0) == (-(plane.width / 2), 0int, -(plane.length / 2)),
        plane.position_spec(plane.vertex_count() - 1) == (plane.width / 2, 0int, plane.length / 2),
        plane.uv_spec(0) == (0int, SCALE as int),
        plane.uv_spec(plane.vertex_count() - 1) == (SCALE as int, 0int),
{
    let rows = plane.rows();
    let columns = plane.columns();
    let last = plane.vertex_count() - 1;
    let half_x = plane.width / 2;
    let half_z = plane.length / 2;
    lemma_cell(k, rows, columns);
    lemma_share_bound(2 * half_x, k % columns, columns - 1);
    lemma_share_bound(2 * half_z, k / columns, rows - 1);
    lemma_share_bound(SCALE as int, k % columns, columns - 1);
    lemma_share_bound(SCALE as int, k / columns, rows - 1);
    assert(last == (rows - 1) * columns + (columns - 1)) by (nonlinear_arith)
        requires
            last == rows * columns - 1,
    ;
    vstd::arithmetic::div_mod::lemma_fundamental_div_mod_converse(last, columns, rows - 1, columns - 1);
    vstd::arithmetic::div_mod::lemma_div_multiples_vanish(2 * half_x, columns - 1);
    vstd::arithmetic::div_mod::lemma_div_multiples_vanish(2 * half_z, rows - 1);
    vstd::arithmetic::div_mod::lemma_div_multiples_vanish(SCALE as int, columns - 1);
    vstd::arithmetic::div_mod::lemma_div_multiples_vanish(SCALE as int, rows - 1);
    assert(2 * half_x * (columns - 1) == (columns - 1) * (2 * half_x)) by (nonlinear_arith);
    assert(2 * half_z * (rows - 1) == (rows - 1) * (2 * half_z)) by (nonlinear_arith);
    assert(SCALE * (columns - 1) == (columns - 1) * SCALE) by (nonlinear_arith);
    assert(SCALE * (rows - 1) == (rows - 1) * SCALE) by (nonlinear_arith);
    assert(2 * half_x * 0 == 0 && 2 * half_z * 0 == 0 && SCALE * 0 == 0) by (nonlinear_arith);
    assert(0int / columns == 0 && 0int % columns == 0) by {
        vstd::arithmetic::div_mod::lemma_fundamental_div_mod_converse(0, columns, 0, 0);
    }
    assert(0int / (columns - 1) == 0 && 0int / (rows - 1) == 0) by {
        vstd::arithmetic::div_mod::lemma_fundamental_div_mod_converse(0, columns - 1, 0, 0);
        vstd::arithmetic::div_mod::lemma_fundamental_div_mod_converse(0, rows - 1, 0, 0);
    }
}

} // verus!
