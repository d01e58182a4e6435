//! A chunk: a cuboid grid of voxels that builds itself from a height field
//! and culls its own faces into a quad mesh.
//!
//! The grid is one flat buffer, cell `(x, y, z)` at `(x*height + y)*depth + z`.
//! Meshing walks every voxel in that order and, for each non-Air voxel,
//! emits a quad for each of its six faces whose neighbor is Air or outside
//! the grid; a face on the chunk boundary is always emitted.

use vstd::prelude::*;
use crate::block::{
    Block, BlockType, BlockVertex, Face, Vec3i, pos_in_range, spec_quad, spec_tex_coords,
};
use crate::mesh::{TerrainMesh, mesh_indices, quad_indices, lemma_mesh_indices_valid};
use crate::height::HeightField;

verus! {

/// The largest side length a chunk grid may have.
pub const MAX_CHUNK_DIM: usize = 512;

/// The largest magnitude a chunk origin coordinate may have, in grid units.
pub const MAX_CHUNK_ORIGIN: i64 = 0x1000_0000;

/// The flat index of cell `(x, y, z)` in a grid of height `h` and depth `d`.
pub open spec fn grid_index(h: int, d: int, x: int, y: int, z: int) -> int {
    (x * h + y) * d + z
}

/// Whether `(x, y, z)` lies inside a `w x h x d` grid.
pub open spec fn grid_in_bounds(w: int, h: int, d: int, x: int, y: int, z: int) -> bool {
    &&& 0 <= x < w
    &&& 0 <= y < h
    &&& 0 <= z < d
}

/// Whether cell `(x, y, z)` holds a non-Air voxel; any cell outside the grid
/// counts as empty.
pub open spec fn solid_at(g: Seq<Block>, w: int, h: int, d: int, x: int, y: int, z: int) -> bool {
    grid_in_bounds(w, h, d, x, y, z)
        && g[grid_index(h, d, x, y, z)].block_type != BlockType::Air
}

/// The cell one step from `(x, y, z)` in the direction of `face`.
pub open spec fn neighbor_of(x: int, y: int, z: int, face: Face) -> (int, int, int) {
    match face {
        Face::Left => (x - 1, y, z),
        Face::Right => (x + 1, y, z),
        Face::Bottom => (x, y - 1, z),
        Face::Top => (x, y + 1, z),
        Face::Front => (x, y, z - 1),
        Face::Back => (x, y, z + 1),
    }
}

/// Whether meshing emits the `face` quad of cell `(x, y, z)`: the cell is
/// solid and its neighbor in that direction is Air or outside the grid.
pub open spec fn face_rendered(
    g: Seq<Block>, w: int, h: int, d: int, x: int, y: int, z: int, face: Face,
) -> bool {
    let n = neighbor_of(x, y, z, face);
    solid_at(g, w, h, d, x, y, z) && !solid_at(g, w, h, d, n.0, n.1, n.2)
}

/// 1 if the `face` quad of cell `(x, y, z)` is emitted, else 0.
pub open spec fn face_count(
    g: Seq<Block>, w: int, h: int, d: int, x: int, y: int, z: int, face: Face,
) -> nat {
    if face_rendered(g, w, h, d, x, y, z, face) { 1 } else { 0 }
}

/// The vertices the `face` quad of cell `(x, y, z)` contributes: four if the
/// face is emitted, none otherwise.
pub open spec fn face_quad(
    g: Seq<Block>, w: int, h: int, d: int, x: int, y: int, z: int, face: Face,
) -> Seq<BlockVertex> {
    if face_rendered(g, w, h, d, x, y, z, face) {
        let b = g[grid_index(h, d, x, y, z)];
        spec_quad(face, spec_tex_coords(b.block_type, face), b.position)
    } else {
        Seq::empty()
    }
}

/// How many faces cell `(x, y, z)` contributes, over the six directions.
pub open spec fn cell_faces(
    g: Seq<Block>, w: int, h: int, d: int, x: int, y: int, z: int,
) -> nat {
    face_count(g, w, h, d, x, y, z, Face::Left) + face_count(g, w, h, d, x, y, z, Face::Right)
        + face_count(g, w, h, d, x, y, z, Face::Bottom) + face_count(
        g, w, h, d, x, y, z, Face::Top,
    ) + face_count(g, w, h, d, x, y, z, Face::Front) + face_count(
        g, w, h, d, x, y, z, Face::Back,
    )
}

/// The vertices cell `(x, y, z)` contributes, its faces in the order
/// Left, Right, Bottom, Top, Front, Back.
pub open spec fn cell_verts(
    g: Seq<Block>, w: int, h: int, d: int, x: int, y: int, z: int,
) -> Seq<BlockVertex> {
    face_quad(g, w, h, d, x, y, z, Face::Left) + face_quad(g, w, h, d, x, y, z, Face::Right)
        + face_quad(g, w, h, d, x, y, z, Face::Bottom) + face_quad(
        g, w, h, d, x, y, z, Face::Top,
    ) + face_quad(g, w, h, d, x, y, z, Face::Front) + face_quad(
        g, w, h, d, x, y, z, Face::Back,
    )
}

/// Faces contributed by cells `(x, y, 0)` through `(x, y, z_count - 1)`.
pub open spec fn col_faces(
    g: Seq<Block>, w: int, h: int, d: int, x: int, y: int, z_count: int,
) -> nat
    decreases z_count,
{
    if z_count <= 0 {
        0
    } else {
        col_faces(g, w, h, d, x, y, z_count - 1) + cell_faces(g, w, h, d, x, y, z_count - 1)
    }
}

/// Vertices contributed by cells `(x, y, 0)` through `(x, y, z_count - 1)`.
pub open spec fn col_verts(
    g: Seq<Block>, w: int, h: int, d: int, x: int, y: int, z_count: int,
) -> Seq<BlockVertex>
    decreases z_count,
{
    if z_count <= 0 {
        Seq::empty()
    } else {
        col_verts(g, w, h, d, x, y, z_count - 1) + cell_verts(g, w, h, d, x, y, z_count - 1)
    }
}

/// Faces contributed by the columns `(x, 0)` through `(x, y_count - 1)`.
pub open spec fn slab_faces(
    g: Seq<Block>, w: int, h: int, d: int, x: int, y_count: int,
) -> nat
    decreases y_count,
{
    if y_count <= 0 {
        0
    } else {
        slab_faces(g, w, h, d, x, y_count - 1) + col_faces(g, w, h, d, x, y_count - 1, d)
    }
}

/// Vertices contributed by the columns `(x, 0)` through `(x, y_count - 1)`.
pub open spec fn slab_verts(
    g: Seq<Block>, w: int, h: int, d: int, x: int, y_count: int,
) -> Seq<BlockVertex>
    decreases y_count,
{
    if y_count <= 0 {
        Seq::empty()
    } else {
        slab_verts(g, w, h, d, x, y_count - 1) + col_verts(g, w, h, d, x, y_count - 1, d)
    }
}

/// Faces contributed by the slabs `0` through `x_count - 1`.
pub open spec fn grid_faces(g: Seq<Block>, w: int, h: int, d: int, x_count: int) -> nat
    decreases x_count,
{
    if x_count <= 0 {
        0
    } else {
        grid_faces(g, w, h, d, x_count - 1) + slab_faces(g, w, h, d, x_count - 1, h)
    }
}

/// Vertices contributed by the slabs `0` through `x_count - 1`.
pub open spec fn grid_verts(g: Seq<Block>, w: int, h: int, d: int, x_count: int) -> Seq<BlockVertex>
    decreases x_count,
{
    if x_count <= 0 {
        Seq::empty()
    } else {
        grid_verts(g, w, h, d, x_count - 1) + slab_verts(g, w, h, d, x_count - 1, h)
    }
}

/// How many faces meshing the whole grid emits.
pub open spec fn total_faces_of(g: Seq<Block>, w: int, h: int, d: int) -> nat {
    grid_faces(g, w, h, d, w)
}

/// The whole grid's vertex list, cells in scan order.
pub open spec fn mesh_verts_of(g: Seq<Block>, w: int, h: int, d: int) -> Seq<BlockVertex> {
    grid_verts(g, w, h, d, w)
}

/// A flat grid index stays below `x_count * h * d` while `x < x_count`.
pub proof fn lemma_grid_index_bound(h: int, d: int, x: int, y: int, z: int, x_count: int)
    requires
        0 <= x < x_count,
        0 <= y < h,
        0 <= z < d,
    ensures
        0 <= grid_index(h, d, x, y, z) < x_count * h * d,
{
    assert(0 <= (x * h + y) * d + z < x_count * h * d) by (nonlinear_arith)
        requires
            0 <= x < x_count,
            0 <= y < h,
            0 <= z < d,
    ;
}

/// Each face contributes four vertices when emitted and none otherwise.
proof fn lemma_face_quad_len(
    g: Seq<Block>, w: int, h: int, d: int, x: int, y: int, z: int, face: Face,
)
    ensures
        face_quad(g, w, h, d, x, y, z, face).len() == 4 * face_count(g, w, h, d, x, y, z, face),
{
    if face_rendered(g, w, h, d, x, y, z, face) {
        let b = g[grid_index(h, d, x, y, z)];
        let tex = spec_tex_coords(b.block_type, face);
        match face {
            Face::Top => assert(spec_quad(face, tex, b.position).len() == 4),
            Face::Bottom => assert(spec_quad(face, tex, b.position).len() == 4),
            Face::Left => assert(spec_quad(face, tex, b.position).len() == 4),
            Face::Right => assert(spec_quad(face, tex, b.position).len() == 4),
            Face::Front => assert(spec_quad(face, tex, b.position).len() == 4),
            Face::Back => assert(spec_quad(face, tex, b.position).len() == 4),
        }
    }
}

/// A cell contributes four vertices per emitted face.
pub proof fn lemma_cell_verts_len(g: Seq<Block>, w: int, h: int, d: int, x: int, y: int, z: int)
    ensures
        cell_verts(g, w, h, d, x, y, z).len() == 4 * cell_faces(g, w, h, d, x, y, z),
{
    lemma_face_quad_len(g, w, h, d, x, y, z, Face::Left);
    lemma_face_quad_len(g, w, h, d, x, y, z, Face::Right);
    lemma_face_quad_len(g, w, h, d, x, y, z, Face::Bottom);
    lemma_face_quad_len(g, w, h, d, x, y, z, Face::Top);
    lemma_face_quad_len(g, w, h, d, x, y, z, Face::Front);
    lemma_face_quad_len(g, w, h, d, x, y, z, Face::Back);
}

/// A column contributes four vertices per emitted face.
pub proof fn lemma_col_verts_len(
    g: Seq<Block>, w: int, h: int, d: int, x: int, y: int, z_count: int,
)
    ensures
        col_verts(g, w, h, d, x, y, z_count).len() == 4 * col_faces(g, w, h, d, x, y, z_count),
    decreases z_count,
{
    if z_count > 0 {
        lemma_col_verts_len(g, w, h, d, x, y, z_count - 1);
        lemma_cell_verts_len(g, w, h, d, x, y, z_count - 1);
    }
}

/// A slab contributes four vertices per emitted face.
pub proof fn lemma_slab_verts_len(g: Seq<Block>, w: int, h: int, d: int, x: int, y_count: int)
    ensures
        slab_verts(g, w, h, d, x, y_count).len() == 4 * slab_faces(g, w, h, d, x, y_count),
    decreases y_count,
{
    if y_count > 0 {
        lemma_slab_verts_len(g, w, h, d, x, y_count - 1);
        lemma_col_verts_len(g, w, h, d, x, y_count - 1, d);
    }
}

/// The grid contributes four vertices per emitted face.
pub proof fn lemma_grid_verts_len(g: Seq<Block>, w: int, h: int, d: int, x_count: int)
    ensures
        grid_verts(g, w, h, d, x_count).len() == 4 * grid_faces(g, w, h, d, x_count),
    decreases x_count,
{
    if x_count > 0 {
        lemma_grid_verts_len(g, w, h, d, x_count - 1);
        lemma_slab_verts_len(g, w, h, d, x_count - 1, h);
    }
}

/// A column of `z_count` cells emits at most six faces per cell.
pub proof fn lemma_col_faces_le(g: Seq<Block>, w: int, h: int, d: int, x: int, y: int, z_count: int)
    requires
        z_count >= 0,
    ensures
        col_faces(g, w, h, d, x, y, z_count) <= 6 * z_count,
    decreases z_count,
{
    if z_count > 0 {
        lemma_col_faces_le(g, w, h, d, x, y, z_count - 1);
    }
}

/// A slab of `y_count` columns emits at most six faces per cell.
pub proof fn lemma_slab_faces_le(g: Seq<Block>, w: int, h: int, d: int, x: int, y_count: int)
    requires
        y_count >= 0,
        d >= 0,
    ensures
        slab_faces(g, w, h, d, x, y_count) <= 6 * y_count * d,
    decreases y_count,
{
    if y_count > 0 {
        lemma_slab_faces_le(g, w, h, d, x, y_count - 1);
        lemma_col_faces_le(g, w, h, d, x, y_count - 1, d);
        assert(6 * (y_count - 1) * d + 6 * d == 6 * y_count * d) by (nonlinear_arith);
    }
}

/// A prefix of `x_count` slabs emits at most six faces per cell.
pub proof fn lemma_grid_faces_le(g: Seq<Block>, w: int, h: int, d: int, x_count: int)
    requires
        x_count >= 0,
        h >= 0,
        d >= 0,
    ensures
        grid_faces(g, w, h, d, x_count) <= 6 * x_count * h * d,
    decreases x_count,
{
    if x_count > 0 {
        lemma_grid_faces_le(g, w, h, d, x_count - 1);
        lemma_slab_faces_le(g, w, h, d, x_count - 1, h);
        assert(6 * (x_count - 1) * h * d + 6 * h * d == 6 * x_count * h * d) by (nonlinear_arith);
    }
}

/// While a cell remains to be scanned, the faces emitted so far leave room
/// for that cell's six quads.
proof fn lemma_faces_prefix_bound(
    g: Seq<Block>, w: int, h: int, d: int, x: int, y: int, z: int,
)
    requires
        0 <= x < w,
        0 <= y < h,
        0 <= z < d,
    ensures
        grid_faces(g, w, h, d, x) + slab_faces(g, w, h, d, x, y) + col_faces(g, w, h, d, x, y, z)
            <= 6 * (w * h * d) - 6,
{
    lemma_grid_faces_le(g, w, h, d, x);
    lemma_slab_faces_le(g, w, h, d, x, y);
    lemma_col_faces_le(g, w, h, d, x, y, z);
    assert(6 * x * h * d + 6 * y * d + 6 * z <= 6 * (w * h * d) - 6) by (nonlinear_arith)
        requires
            0 <= x < w,
            0 <= y < h,
            0 <= z < d,
    ;
}

/// A column of cells that all contribute nothing has no faces.
proof fn lemma_col_faces_zero(g: Seq<Block>, w: int, h: int, d: int, x: int, y: int, zc: int)
    requires
        forall|c: int| 0 <= c < zc ==> #[trigger] cell_faces(g, w, h, d, x, y, c) == 0,
    ensures
        col_faces(g, w, h, d, x, y, zc) == 0,
    decreases zc,
{
    if zc > 0 {
        lemma_col_faces_zero(g, w, h, d, x, y, zc - 1);
    }
}

/// A column whose cells contribute nothing but the one at `z0` sums to that
/// cell's count.
proof fn lemma_col_faces_single(
    g: Seq<Block>, w: int, h: int, d: int, x: int, y: int, zc: int, z0: int,
)
    requires
        0 <= z0 < zc,
        forall|c: int|
            0 <= c < zc && c != z0 ==> #[trigger] cell_faces(g, w, h, d, x, y, c) == 0,
    ensures
        col_faces(g, w, h, d, x, y, zc) == cell_faces(g, w, h, d, x, y, z0),
    decreases zc,
{
    if zc - 1 == z0 {
        lemma_col_faces_zero(g, w, h, d, x, y, zc - 1);
    } else {
        lemma_col_faces_single(g, w, h, d, x, y, zc - 1, z0);
    }
}

/// A column whose cells contribute nothing but those at `z1 < z2` sums to
/// their two counts.
proof fn lemma_col_faces_two(
    g: Seq<Block>, w: int, h: int, d: int, x: int, y: int, zc: int, z1: int, z2: int,
)
    requires
        0 <= z1 < z2 < zc,
        forall|c: int|
            0 <= c < zc && c != z1 && c != z2 ==> #[trigger] cell_faces(g, w, h, d, x, y, c) == 0,
    ensures
        col_faces(g, w, h, d, x, y, zc) == cell_faces(g, w, h, d, x, y, z1) + cell_faces(
            g, w, h, d, x, y, z2),
    decreases zc,
{
    if zc - 1 == z2 {
        lemma_col_faces_single(g, w, h, d, x, y, zc - 1, z1);
    } else {
        lemma_col_faces_two(g, w, h, d, x, y, zc - 1, z1, z2);
    }
}

/// A slab of cells that all contribute nothing has no faces.
proof fn lemma_slab_faces_zero(g: Seq<Block>, w: int, h: int, d: int, x: int, yc: int)
    requires
        forall|b: int, c: int|
            0 <= b < yc && 0 <= c < d ==> #[trigger] cell_faces(g, w, h, d, x, b, c) == 0,
    ensures
        slab_faces(g, w, h, d, x, yc) == 0,
    decreases yc,
{
    if yc > 0 {
        lemma_slab_faces_zero(g, w, h, d, x, yc - 1);
        lemma_col_faces_zero(g, w, h, d, x, yc - 1, d);
    }
}

/// A slab whose cells contribute nothing but the one at `(y0, z0)` sums to
/// that cell's count.
proof fn lemma_slab_faces_single(
    g: Seq<Block>, w: int, h: int, d: int, x: int, yc: int, y0: int, z0: int,
)
    requires
        0 <= y0 < yc,
        0 <= z0 < d,
        forall|b: int, c: int|
            0 <= b < yc && 0 <= c < d && !(b == y0 && c == z0)
                ==> #[trigger] cell_faces(g, w, h, d, x, b, c) == 0,
    ensures
        slab_faces(g, w, h, d, x, yc) == cell_faces(g, w, h, d, x, y0, z0),
    decreases yc,
{
    if yc - 1 == y0 {
        lemma_slab_faces_zero(g, w, h, d, x, yc - 1);
        lemma_col_faces_single(g, w, h, d, x, y0, d, z0);
    } else {
        lemma_slab_faces_single(g, w, h, d, x, yc - 1, y0, z0);
        lemma_col_faces_zero(g, w, h, d, x, yc - 1, d);
    }
}

/// A slab whose cells contribute nothing but those at `(y1, z1)` and
/// `(y2, z2)`, the first scanned earlier, sums to their two counts.
proof fn lemma_slab_faces_two(
    g: Seq<Block>, w: int, h: int, d: int, x: int, yc: int,
    y1: int, z1: int, y2: int, z2: int,
)
    requires
        0 <= y1 <= y2 < yc,
        0 <= z1 < d,
        0 <= z2 < d,
        y1 < y2 || (y1 == y2 && z1 < z2),
        forall|b: int, c: int|
            0 <= b < yc && 0 <= c < d && !(b == y1 && c == z1) && !(b == y2 && c == z2)
                ==> #[trigger] cell_faces(g, w, h, d, x, b, c) == 0,
    ensures
        slab_faces(g, w, h, d, x, yc) == cell_faces(g, w, h, d, x, y1, z1) + cell_faces(
            g, w, h, d, x, y2, z2),
    decreases yc,
{
    if yc - 1 == y2 {
        if y1 == y2 {
            lemma_slab_faces_zero(g, w, h, d, x, yc - 1);
            lemma_col_faces_two(g, w, h, d, x, y2, d, z1, z2);
        } else {
            lemma_slab_faces_single(g, w, h, d, x, yc - 1, y1, z1);
            lemma_col_faces_single(g, w, h, d, x, y2, d, z2);
        }
    } else {
        lemma_slab_faces_two(g, w, h, d, x, yc - 1, y1, z1, y2, z2);
        lemma_col_faces_zero(g, w, h, d, x, yc - 1, d);
    }
}

/// A grid prefix of cells that all contribute nothing has no faces.
proof fn lemma_grid_faces_zero(g: Seq<Block>, w: int, h: int, d: int, xc: int)
    requires
        forall|a: int, b: int, c: int|
            0 <= a < xc && 0 <= b < h && 0 <= c < d
                ==> #[trigger] cell_faces(g, w, h, d, a, b, c) == 0,
    ensures
        grid_faces(g, w, h, d, xc) == 0,
    decreases xc,
{
    if xc > 0 {
        lemma_grid_faces_zero(g, w, h, d, xc - 1);
        lemma_slab_faces_zero(g, w, h, d, xc - 1, h);
    }
}

/// A grid prefix whose cells contribute nothing but the one at
/// `(x0, y0, z0)` sums to that cell's count.
proof fn lemma_grid_faces_single(
    g: Seq<Block>, w: int, h: int, d: int, xc: int, x0: int, y0: int, z0: int,
)
    requires
        0 <= x0 < xc,
        0 <= y0 < h,
        0 <= z0 < d,
        forall|a: int, b: int, c: int|
            0 <= a < xc && 0 <= b < h && 0 <= c < d && !(a == x0 && b == y0 && c == z0)
                ==> #[trigger] cell_faces(g, w, h, d, a, b, c) == 0,
    ensures
        grid_faces(g, w, h, d, xc) == cell_faces(g, w, h, d, x0, y0, z0),
    decreases xc,
{
    if xc - 1 == x0 {
        lemma_grid_faces_zero(g, w, h, d, xc - 1);
        lemma_slab_faces_single(g, w, h, d, x0, h, y0, z0);
    } else {
        lemma_grid_faces_single(g, w, h, d, xc - 1, x0, y0, z0);
        lemma_slab_faces_zero(g, w, h, d, xc - 1, h);
    }
}

/// A grid prefix whose cells contribute nothing but those at
/// `(x1, y1, z1)` and `(x2, y2, z2)`, the first scanned earlier, sums to
/// their two counts.
proof fn lemma_grid_faces_two(
    g: Seq<Block>, w: int, h: int, d: int, xc: int,
    x1: int, y1: int, z1: int, x2: int, y2: int, z2: int,
)
    requires
        0 <= x1 <= x2 < xc,
        0 <= y1 < h,
        0 <= y2 < h,
        0 <= z1 < d,
        0 <= z2 < d,
        scanned_before(x1, y1, z1, x2, y2, z2),
        forall|a: int, b: int, c: int|
            0 <= a < xc && 0 <= b < h && 0 <= c < d && !(a == x1 && b == y1 && c == z1) && !(a == x2
                && b == y2 && c == z2) ==> #[trigger] cell_faces(g, w, h, d, a, b, c) == 0,
    ensures
        grid_faces(g, w, h, d, xc) == cell_faces(g, w, h, d, x1, y1, z1) + cell_faces(
            g, w, h, d, x2, y2, z2),
    decreases xc,
{
    if xc - 1 == x2 {
        if x1 == x2 {
            lemma_grid_faces_zero(g, w, h, d, xc - 1);
            lemma_slab_faces_two(g, w, h, d, x2, h, y1, z1, y2, z2);
        } else {
            lemma_grid_faces_single(g, w, h, d, xc - 1, x1, y1, z1);
            lemma_slab_faces_single(g, w, h, d, x2, h, y2, z2);
        }
    } else {
        lemma_grid_faces_two(g, w, h, d, xc - 1, x1, y1, z1, x2, y2, z2);
        lemma_slab_faces_zero(g, w, h, d, xc - 1, h);
    }
}

/// The block type of the cell at height `y` in a column whose terrain
/// surface sits at `level`: the surface cell is Grass, the floor cell Stone,
/// cells between floor and surface Dirt, and everything above Air. A column
/// whose surface sits at the floor gets Grass there, not Stone.
pub open spec fn classify_block(y: int, level: int) -> BlockType {
    if y == level {
        BlockType::Grass
    } else if y == 0 {
        BlockType::Stone
    } else if y < level {
        BlockType::Dirt
    } else {
        BlockType::Air
    }
}

/// Whether `(a, b, c)` is scanned strictly before `(x, y, z)` in the grid's
/// x-outermost, z-innermost scan order.
pub open spec fn scanned_before(a: int, b: int, c: int, x: int, y: int, z: int) -> bool {
    a < x || (a == x && (b < y || (b == y && c < z)))
}

/// A cell scanned earlier sits at a smaller flat index.
proof fn lemma_grid_index_lt(h: int, d: int, a: int, b: int, c: int, x: int, y: int, z: int)
    requires
        0 <= a,
        0 <= b < h,
        0 <= c < d,
        0 <= y,
        0 <= z,
        scanned_before(a, b, c, x, y, z),
    ensures
        grid_index(h, d, a, b, c) < grid_index(h, d, x, y, z),
{
    if a < x {
        assert((a * h + b) * d + c < (x * h + y) * d + z) by (nonlinear_arith)
            requires
                a < x,
                0 <= b < h,
                0 <= c < d,
                0 <= y,
                0 <= z,
        ;
    } else if b < y {
        assert((a * h + b) * d + c < (a * h + y) * d + z) by (nonlinear_arith)
            requires
                b < y,
                0 <= c < d,
                0 <= z,
        ;
    }
}

/// The voxel `populate` writes into cell `(x, y, z)` of a chunk at `origin`:
/// its type classifies the cell against the terrain level of the column's
/// global coordinates, and its world position is the global grid coordinate
/// scaled by `block_scale`.
pub open spec fn populated_block(
    origin: Vec3i, hf: HeightField, block_scale: int, x: int, y: int, z: int,
) -> Block {
    Block {
        block_type: classify_block(y, hf.spec_level_at(origin.x + x, origin.z + z)),
        position: Vec3i {
            x: ((origin.x + x) * block_scale) as i64,
            y: ((origin.y + y) * block_scale) as i64,
            z: ((origin.z + z) * block_scale) as i64,
        },
    }
}

/// A cuboid grid of voxels with its origin (in grid units) and its most
/// recently generated mesh.
pub struct Chunk {
    /// Chunk origin, in grid units.
    pub position: Vec3i,
    /// Grid side lengths, in voxels.
    pub width: usize,
    pub height: usize,
    pub depth: usize,
    /// The voxel grid, cell `(x, y, z)` at `(x*height + y)*depth + z`.
    pub blocks: Vec<Block>,
    /// The mesh the last `generate_mesh` call built.
    pub mesh: TerrainMesh,
}

impl Chunk {
    /// The number of cells in the grid.
    pub open spec fn grid_size(self) -> int {
        self.width * self.height * self.depth
    }

    /// The grid is well-formed: one block per cell, side lengths and origin
    /// within the supported ranges, and every stored position safe to offset
    /// by one unit.
    pub open spec fn wf_grid(self) -> bool {
        &&& self.blocks@.len() == self.grid_size()
        &&& self.width <= MAX_CHUNK_DIM
        &&& self.height <= MAX_CHUNK_DIM
        &&& self.depth <= MAX_CHUNK_DIM
        &&& -MAX_CHUNK_ORIGIN <= self.position.x <= MAX_CHUNK_ORIGIN
        &&& -MAX_CHUNK_ORIGIN <= self.position.y <= MAX_CHUNK_ORIGIN
        &&& -MAX_CHUNK_ORIGIN <= self.position.z <= MAX_CHUNK_ORIGIN
        &&& forall|i: int|
            0 <= i < self.blocks@.len() ==> pos_in_range(#[trigger] self.blocks@[i].position)
    }

    /// The chunk is well-formed: its grid is, and its mesh's indices address
    /// its mesh's vertices.
    pub open spec fn wf(self) -> bool {
        self.wf_grid() && self.mesh.wf()
    }

    /// The block in cell `(x, y, z)`.
    pub open spec fn block_at(self, x: int, y: int, z: int) -> Block {
        self.blocks@[grid_index(self.height as int, self.depth as int, x, y, z)]
    }

    /// Whether `(x, y, z)` lies inside this chunk's grid.
    pub open spec fn in_bounds(self, x: int, y: int, z: int) -> bool {
        grid_in_bounds(self.width as int, self.height as int, self.depth as int, x, y, z)
    }

    /// How many faces meshing this grid emits.
    pub open spec fn total_faces(self) -> nat {
        total_faces_of(self.blocks@, self.width as int, self.height as int, self.depth as int)
    }

    /// The vertex list meshing this grid builds.
    pub open spec fn spec_mesh_verts(self) -> Seq<BlockVertex> {
        mesh_verts_of(self.blocks@, self.width as int, self.height as int, self.depth as int)
    }

    /// An all-Air chunk of the given origin and side lengths, with an empty
    /// mesh. Every block starts as Air at the zero position, as
    /// `populate` will overwrite both.
    pub fn new(position: Vec3i, width: usize, height: usize, depth: usize) -> (r: Chunk)
        requires
            -MAX_CHUNK_ORIGIN <= position.x <= MAX_CHUNK_ORIGIN,
            -MAX_CHUNK_ORIGIN <= position.y <= MAX_CHUNK_ORIGIN,
            -MAX_CHUNK_ORIGIN <= position.z <= MAX_CHUNK_ORIGIN,
            width <= MAX_CHUNK_DIM,
            height <= MAX_CHUNK_DIM,
            depth <= MAX_CHUNK_DIM,
        ensures
            r.wf(),
            r.position == position,
            r.width == width,
            r.height == height,
            r.depth == depth,
            forall|i: int|
                0 <= i < r.blocks@.len() ==> #[trigger] r.blocks@[i] == (Block {
                    block_type: BlockType::Air,
                    position: Vec3i { x: 0, y: 0, z: 0 },
                }),
            forall|x: int, y: int, z: int|
                r.in_bounds(x, y, z) ==> (#[trigger] r.block_at(x, y, z)).block_type
                    == BlockType::Air,
            r.mesh.vertices@ == Seq::<BlockVertex>::empty(),
            r.mesh.indices@ == Seq::<u32>::empty(),
    {
        proof {
            assert(width * height <= MAX_CHUNK_DIM * MAX_CHUNK_DIM) by (nonlinear_arith)
                requires
                    width <= MAX_CHUNK_DIM,
                    height <= MAX_CHUNK_DIM,
            ;
            assert(width * height * depth <= MAX_CHUNK_DIM * MAX_CHUNK_DIM * MAX_CHUNK_DIM)
                by (nonlinear_arith)
                requires
                    width <= MAX_CHUNK_DIM,
                    height <= MAX_CHUNK_DIM,
                    depth <= MAX_CHUNK_DIM,
            ;
        }
        let n: usize = width * height * depth;
        let air = Block { block_type: BlockType::Air, position: Vec3i { x: 0, y: 0, z: 0 } };
        let mut blocks: Vec<Block> = Vec::new();
        let mut i: usize = 0;
        while i < n
            invariant
                i <= n,
                blocks@.len() == i,
                forall|k: int| 0 <= k < i ==> #[trigger] blocks@[k] == air,
            decreases n - i,
        {
            blocks.push(air);
            i = i + 1;
        }
        let r = Chunk { position, width, height, depth, blocks, mesh: TerrainMesh::new() };
        proof {
            assert forall|x: int, y: int, z: int| r.in_bounds(x, y, z) implies (
            #[trigger] r.block_at(x, y, z)).block_type == BlockType::Air by {
                lemma_grid_index_bound(height as int, depth as int, x, y, z, width as int);
            }
        }
        r
    }

    /// The chunk's current mesh.
    pub fn mesh(&self) -> (r: &TerrainMesh)
        ensures
            r == &self.mesh,
    {
        &self.mesh
    }

    /// Whether the face of a voxel toward cell `(x, y, z)` is rendered:
    /// true when that cell lies outside the grid or holds Air.
    fn should_render_face(&self, x: i64, y: i64, z: i64) -> (r: bool)
        requires
            self.wf_grid(),
        ensures
            r == !solid_at(
                self.blocks@,
                self.width as int,
                self.height as int,
                self.depth as int,
                x as int,
                y as int,
                z as int,
            ),
    {
        if x < 0 || y < 0 || z < 0 {
            return true;
        }
        if x >= self.width as i64 || y >= self.height as i64 || z >= self.depth as i64 {
            return true;
        }
        let xu = x as usize;
        let yu = y as usize;
        let zu = z as usize;
        proof {
            lemma_grid_index_bound(
                self.height as int,
                self.depth as int,
                xu as int,
                yu as int,
                zu as int,
                self.width as int,
            );
            assert(xu * self.height <= MAX_CHUNK_DIM * MAX_CHUNK_DIM
                && (xu * self.height + yu) * self.depth
                    <= (MAX_CHUNK_DIM * MAX_CHUNK_DIM + MAX_CHUNK_DIM) * MAX_CHUNK_DIM
                && (xu * self.height + yu) * self.depth + zu < 0x8000_0000) by (nonlinear_arith)
                requires
                    xu < MAX_CHUNK_DIM,
                    yu < self.height,
                    zu < self.depth,
                    self.height <= MAX_CHUNK_DIM,
                    self.depth <= MAX_CHUNK_DIM,
            ;
        }
        let idx: usize = (xu * self.height + yu) * self.depth + zu;
        let block = self.blocks[idx];
        block.is_air()
    }

    /// Emits the `face` quad of the solid block in cell `(x, y, z)` if its
    /// neighbor leaves it exposed; `f0` is the number of faces the mesh
    /// holds before the call.
    fn emit_face(
        &mut self,
        block: Block,
        x: usize,
        y: usize,
        z: usize,
        face: Face,
        Ghost(f0): Ghost<nat>,
    )
        requires
            old(self).wf_grid(),
            old(self).in_bounds(x as int, y as int, z as int),
            block == old(self).block_at(x as int, y as int, z as int),
            block.block_type != BlockType::Air,
            old(self).mesh.vertices@.len() == 4 * f0,
            old(self).mesh.indices@ == mesh_indices(f0),
            4 * f0 + 4 <= u32::MAX,
        ensures
            final(self).position == old(self).position,
            final(self).width == old(self).width,
            final(self).height == old(self).height,
            final(self).depth == old(self).depth,
            final(self).blocks == old(self).blocks,
            final(self).mesh.vertices@ == old(self).mesh.vertices@ + face_quad(
                old(self).blocks@,
                old(self).width as int,
                old(self).height as int,
                old(self).depth as int,
                x as int,
                y as int,
                z as int,
                face,
            ),
            final(self).mesh.vertices@.len() == 4 * (f0 + face_count(
                old(self).blocks@,
                old(self).width as int,
                old(self).height as int,
                old(self).depth as int,
                x as int,
                y as int,
                z as int,
                face,
            )),
            final(self).mesh.indices@ == mesh_indices(
                f0 + face_count(
                    old(self).blocks@,
                    old(self).width as int,
                    old(self).height as int,
                    old(self).depth as int,
                    x as int,
                    y as int,
                    z as int,
                    face,
                ),
            ),
    {
        let ghost g = self.blocks@;
        let ghost wi = self.width as int;
        let ghost hi = self.height as int;
        let ghost di = self.depth as int;
        let (nx, ny, nz): (i64, i64, i64) = match face {
            Face::Left => (x as i64 - 1, y as i64, z as i64),
            Face::Right => (x as i64 + 1, y as i64, z as i64),
            Face::Bottom => (x as i64, y as i64 - 1, z as i64),
            Face::Top => (x as i64, y as i64 + 1, z as i64),
            Face::Front => (x as i64, y as i64, z as i64 - 1),
            Face::Back => (x as i64, y as i64, z as i64 + 1),
        };
        proof {
            assert((nx as int, ny as int, nz as int) == neighbor_of(
                x as int, y as int, z as int, face));
        }
        if self.should_render_face(nx, ny, nz) {
            proof {
                assert(solid_at(g, wi, hi, di, x as int, y as int, z as int));
                assert(face_rendered(g, wi, hi, di, x as int, y as int, z as int, face));
                lemma_grid_index_bound(hi, di, x as int, y as int, z as int, wi);
            }
            let quad = block.generate_face(face);
            self.mesh.add_face(quad);
            proof {
                lemma_face_quad_len(g, wi, hi, di, x as int, y as int, z as int, face);
                assert(self.mesh.vertices@ == old(self).mesh.vertices@ + face_quad(
                    g, wi, hi, di, x as int, y as int, z as int, face));
                assert(mesh_indices(f0 + 1) == mesh_indices(f0) + quad_indices(4 * f0 as int));
            }
        } else {
            proof {
                assert(!face_rendered(g, wi, hi, di, x as int, y as int, z as int, face));
                assert(self.mesh.vertices@ =~= old(self).mesh.vertices@ + face_quad(
                    g, wi, hi, di, x as int, y as int, z as int, face));
            }
        }
    }

    /// Emits every exposed face of cell `(x, y, z)`, in the order Left,
    /// Right, Bottom, Top, Front, Back; `f0` is the number of faces the mesh
    /// holds before the call.
    #[verifier::rlimit(100)]
    #[verifier::spinoff_prover]
    fn mesh_cell(&mut self, x: usize, y: usize, z: usize, Ghost(f0): Ghost<nat>)
        requires
            old(self).wf_grid(),
            old(self).in_bounds(x as int, y as int, z as int),
            old(self).mesh.vertices@.len() == 4 * f0,
            old(self).mesh.indices@ == mesh_indices(f0),
            4 * f0 + 24 <= u32::MAX,
        ensures
            final(self).position == old(self).position,
            final(self).width == old(self).width,
            final(self).height == old(self).height,
            final(self).depth == old(self).depth,
            final(self).blocks == old(self).blocks,
            final(self).mesh.vertices@ == old(self).mesh.vertices@ + cell_verts(
                old(self).blocks@,
                old(self).width as int,
                old(self).height as int,
                old(self).depth as int,
                x as int,
                y as int,
                z as int,
            ),
            final(self).mesh.vertices@.len() == 4 * (f0 + cell_faces(
                old(self).blocks@,
                old(self).width as int,
                old(self).height as int,
                old(self).depth as int,
                x as int,
                y as int,
                z as int,
            )),
            final(self).mesh.indices@ == mesh_indices(
                f0 + cell_faces(
                    old(self).blocks@,
                    old(self).width as int,
                    old(self).height as int,
                    old(self).depth as int,
                    x as int,
                    y as int,
                    z as int,
                ),
            ),
    {
        let ghost g = self.blocks@;
        let ghost wi = self.width as int;
        let ghost hi = self.height as int;
        let ghost di = self.depth as int;
        let h = self.height;
        let d = self.depth;
        proof {
            lemma_grid_index_bound(hi, di, x as int, y as int, z as int, wi);
            assert(x * h <= MAX_CHUNK_DIM * MAX_CHUNK_DIM
                && (x * h + y) * d
                    <= (MAX_CHUNK_DIM * MAX_CHUNK_DIM + MAX_CHUNK_DIM) * MAX_CHUNK_DIM
                && (x * h + y) * d + z < 0x8000_0000) by (nonlinear_arith)
                requires
                    x < MAX_CHUNK_DIM,
                    y < h,
                    z < d,
                    h <= MAX_CHUNK_DIM,
                    d <= MAX_CHUNK_DIM,
            ;
        }
        let idx: usize = (x * h + y) * d + z;
        let block = self.blocks[idx];
        let ghost v0 = self.mesh.vertices@;
        if !block.is_air() {
            let ghost f1 = f0 + face_count(g, wi, hi, di, x as int, y as int, z as int, Face::Left);
            self.emit_face(block, x, y, z, Face::Left, Ghost(f0));
            let ghost a1 = v0 + face_quad(g, wi, hi, di, x as int, y as int, z as int, Face::Left);
            let ghost f2 = f1 + face_count(
                g, wi, hi, di, x as int, y as int, z as int, Face::Right);
            self.emit_face(block, x, y, z, Face::Right, Ghost(f1));
            let ghost a2 = a1 + face_quad(g, wi, hi, di, x as int, y as int, z as int, Face::Right);
            let ghost f3 = f2 + face_count(
                g, wi, hi, di, x as int, y as int, z as int, Face::Bottom);
            self.emit_face(block, x, y, z, Face::Bottom, Ghost(f2));
            let ghost a3 = a2 + face_quad(
                g, wi, hi, di, x as int, y as int, z as int, Face::Bottom);
            let ghost f4 = f3 + face_count(g, wi, hi, di, x as int, y as int, z as int, Face::Top);
            self.emit_face(block, x, y, z, Face::Top, Ghost(f3));
            let ghost a4 = a3 + face_quad(g, wi, hi, di, x as int, y as int, z as int, Face::Top);
            let ghost f5 = f4 + face_count(
                g, wi, hi, di, x as int, y as int, z as int, Face::Front);
            self.emit_face(block, x, y, z, Face::Front, Ghost(f4));
            let ghost a5 = a4 + face_quad(g, wi, hi, di, x as int, y as int, z as int, Face::Front);
            self.emit_face(block, x, y, z, Face::Back, Ghost(f5));
            proof {
                let a6 = a5 + face_quad(g, wi, hi, di, x as int, y as int, z as int, Face::Back);
                assert(self.mesh.vertices@ == a6);
                assert(a6 =~= v0 + cell_verts(g, wi, hi, di, x as int, y as int, z as int));
            }
        } else {
            proof {
                assert(!solid_at(g, wi, hi, di, x as int, y as int, z as int));
                assert(cell_faces(g, wi, hi, di, x as int, y as int, z as int) == 0);
                assert(cell_verts(g, wi, hi, di, x as int, y as int, z as int)
                    =~= Seq::<BlockVertex>::empty());
                assert(self.mesh.vertices@ =~= v0 + cell_verts(
                    g, wi, hi, di, x as int, y as int, z as int));
            }
        }
    }

    /// Rebuilds the chunk's mesh from its grid, replacing the old mesh
    /// wholesale: every non-Air voxel emits a quad for each of its six faces
    /// whose neighbor cell is Air or outside the grid, so a boundary face is
    /// always emitted. Each quad's two triangles are indexed (0,1,2) and
    /// (0,2,3), rebased by the vertex count before the quad.
    #[verifier::rlimit(100)]
    pub fn generate_mesh(&mut self)
        requires
            old(self).wf_grid(),
        ensures
            final(self).position == old(self).position,
            final(self).width == old(self).width,
            final(self).height == old(self).height,
            final(self).depth == old(self).depth,
            final(self).blocks@ == old(self).blocks@,
            final(self).mesh.vertices@ == old(self).spec_mesh_verts(),
            final(self).mesh.indices@ == mesh_indices(old(self).total_faces()),
            final(self).mesh.vertices@.len() == 4 * old(self).total_faces(),
            final(self).mesh.indices@.len() == 6 * old(self).total_faces(),
            final(self).wf(),
    {
        let ghost g = self.blocks@;
        let ghost wi = self.width as int;
        let ghost hi = self.height as int;
        let ghost di = self.depth as int;
        let ghost p0 = self.position;
        self.mesh = TerrainMesh::new();
        let w = self.width;
        let h = self.height;
        let d = self.depth;
        let mut x: usize = 0;
        while x < w
            invariant
                self.width == w,
                self.height == h,
                self.depth == d,
                wi == w as int,
                hi == h as int,
                di == d as int,
                self.position == p0,
                self.blocks@ == g,
                self.wf_grid(),
                x <= w,
                self.mesh.vertices@ == grid_verts(g, wi, hi, di, x as int),
                self.mesh.vertices@.len() == 4 * grid_faces(g, wi, hi, di, x as int),
                self.mesh.indices@ == mesh_indices(grid_faces(g, wi, hi, di, x as int)),
            decreases w - x,
        {
            let mut y: usize = 0;
            while y < h
                invariant
                    self.width == w,
                    self.height == h,
                    self.depth == d,
                    wi == w as int,
                    hi == h as int,
                    di == d as int,
                    self.position == p0,
                    self.blocks@ == g,
                    self.wf_grid(),
                    x < w,
                    y <= h,
                    self.mesh.vertices@ == grid_verts(g, wi, hi, di, x as int) + slab_verts(
                        g, wi, hi, di, x as int, y as int),
                    self.mesh.vertices@.len() == 4 * (grid_faces(g, wi, hi, di, x as int)
                        + slab_faces(g, wi, hi, di, x as int, y as int)),
                    self.mesh.indices@ == mesh_indices(grid_faces(g, wi, hi, di, x as int)
                        + slab_faces(g, wi, hi, di, x as int, y as int)),
                decreases h - y,
            {
                let mut z: usize = 0;
                while z < d
                    invariant
                        self.width == w,
                        self.height == h,
                        self.depth == d,
                        wi == w as int,
                        hi == h as int,
                        di == d as int,
                        self.position == p0,
                        self.blocks@ == g,
                        self.wf_grid(),
                        x < w,
                        y < h,
                        z <= d,
                        self.mesh.vertices@ == grid_verts(g, wi, hi, di, x as int) + slab_verts(
                            g, wi, hi, di, x as int, y as int) + col_verts(
                            g, wi, hi, di, x as int, y as int, z as int),
                        self.mesh.vertices@.len() == 4 * (grid_faces(g, wi, hi, di, x as int)
                            + slab_faces(g, wi, hi, di, x as int, y as int) + col_faces(
                            g, wi, hi, di, x as int, y as int, z as int)),
                        self.mesh.indices@ == mesh_indices(
                            grid_faces(g, wi, hi, di, x as int) + slab_faces(
                                g, wi, hi, di, x as int, y as int) + col_faces(
                                g, wi, hi, di, x as int, y as int, z as int)),
                    decreases d - z,
                {
                    let ghost f0: nat = grid_faces(g, wi, hi, di, x as int) + slab_faces(
                        g, wi, hi, di, x as int, y as int) + col_faces(
                        g, wi, hi, di, x as int, y as int, z as int);
                    proof {
                        lemma_faces_prefix_bound(g, wi, hi, di, x as int, y as int, z as int);
                        assert(24 * (wi * hi * di) <= u32::MAX as int) by (nonlinear_arith)
                            requires
                                0 <= wi <= MAX_CHUNK_DIM as int,
                                0 <= hi <= MAX_CHUNK_DIM as int,
                                0 <= di <= MAX_CHUNK_DIM as int,
                        ;
                        assert(4 * f0 + 24 <= u32::MAX);
                    }
                    self.mesh_cell(x, y, z, Ghost(f0));
                    proof {
                        assert(self.mesh.vertices@ =~= grid_verts(g, wi, hi, di, x as int)
                            + slab_verts(g, wi, hi, di, x as int, y as int) + col_verts(
                            g, wi, hi, di, x as int, y as int, z as int + 1));
                    }
                    z = z + 1;
                }
                proof {
                    assert(self.mesh.vertices@ =~= grid_verts(g, wi, hi, di, x as int)
                        + slab_verts(g, wi, hi, di, x as int, y as int + 1));
                }
                y = y + 1;
            }
            proof {
                assert(self.mesh.vertices@ =~= grid_verts(g, wi, hi, di, x as int + 1));
            }
            x = x + 1;
        }
        proof {
            let total = total_faces_of(g, wi, hi, di);
            lemma_mesh_indices_valid(total);
            assert forall|i: int| 0 <= i < self.mesh.indices@.len() implies (
            #[trigger] self.mesh.indices@[i] as int) < self.mesh.vertices@.len() by {}
        }
    }

    /// Fills the grid from the height field and rebuilds the mesh.
    ///
    /// Every cell is classified against the terrain level of its column's
    /// global (world-space) coordinates — the chunk origin's column offset
    /// plus the local column — and every voxel's world position is its
    /// global grid coordinate scaled by `block_scale`. Every column the
    /// chunk occupies must lie inside the height field's domain.
    pub fn populate(&mut self, height_field: &HeightField, block_scale: i64)
        requires
            old(self).wf_grid(),
            height_field.wf(),
            0 <= old(self).position.x,
            0 <= old(self).position.z,
            old(self).position.x + old(self).width <= height_field.width,
            old(self).position.z + old(self).depth <= height_field.depth,
            0 <= block_scale <= 65536,
        ensures
            final(self).position == old(self).position,
            final(self).width == old(self).width,
            final(self).height == old(self).height,
            final(self).depth == old(self).depth,
            forall|x: int, y: int, z: int|
                final(self).in_bounds(x, y, z) ==> #[trigger] final(self).block_at(x, y, z)
                    == populated_block(
                    old(self).position, *height_field, block_scale as int, x, y, z),
            final(self).mesh.vertices@ == final(self).spec_mesh_verts(),
            final(self).mesh.indices@ == mesh_indices(final(self).total_faces()),
            final(self).mesh.vertices@.len() == 4 * final(self).total_faces(),
            final(self).mesh.indices@.len() == 6 * final(self).total_faces(),
            final(self).wf(),
    {
        let ghost orig = *self;
        let w = self.width;
        let h = self.height;
        let d = self.depth;
        let ghost wi = w as int;
        let ghost hi = h as int;
        let ghost di = d as int;
        let ghost origin = self.position;
        let ghost hfg = *height_field;
        let ghost bs = block_scale as int;
        let px: i64 = self.position.x;
        let py: i64 = self.position.y;
        let pz: i64 = self.position.z;
        let mut blocks: Vec<Block> = Vec::new();
        let mut x: usize = 0;
        proof {
            assert((0 as int) * hi * di == 0) by (nonlinear_arith);
        }
        while x < w
            invariant
                *self == orig,
                w == self.width,
                h == self.height,
                d == self.depth,
                wi == w as int,
                hi == h as int,
                di == d as int,
                origin == self.position,
                px == origin.x,
                py == origin.y,
                pz == origin.z,
                hfg == *height_field,
                bs == block_scale as int,
                self.wf_grid(),
                height_field.wf(),
                0 <= px,
                0 <= pz,
                px + wi <= height_field.width,
                pz + di <= height_field.depth,
                0 <= block_scale <= 65536,
                x <= w,
                blocks@.len() == (x as int) * hi * di,
                forall|i: int|
                    0 <= i < blocks@.len() ==> pos_in_range(#[trigger] blocks@[i].position),
                forall|a: int, b: int, c: int|
                    grid_in_bounds(wi, hi, di, a, b, c) && scanned_before(a, b, c, x as int, 0, 0)
                        ==> #[trigger] blocks@[grid_index(hi, di, a, b, c)] == populated_block(
                        origin, hfg, bs, a, b, c),
            decreases w - x,
        {
            let mut y: usize = 0;
            while y < h
                invariant
                    *self == orig,
                    w == self.width,
                    h == self.height,
                    d == self.depth,
                    wi == w as int,
                    hi == h as int,
                    di == d as int,
                    origin == self.position,
                    px == origin.x,
                    py == origin.y,
                    pz == origin.z,
                    hfg == *height_field,
                    bs == block_scale as int,
                    self.wf_grid(),
                    height_field.wf(),
                    0 <= px,
                    0 <= pz,
                    px + wi <= height_field.width,
                    pz + di <= height_field.depth,
                    0 <= block_scale <= 65536,
                    x < w,
                    y <= h,
                    blocks@.len() == (x as int) * hi * di + (y as int) * di,
                    forall|i: int|
                        0 <= i < blocks@.len() ==> pos_in_range(#[trigger] blocks@[i].position),
                    forall|a: int, b: int, c: int|
                        grid_in_bounds(wi, hi, di, a, b, c) && scanned_before(
                            a, b, c, x as int, y as int, 0)
                            ==> #[trigger] blocks@[grid_index(hi, di, a, b, c)] == populated_block(
                            origin, hfg, bs, a, b, c),
                decreases h - y,
            {
                let mut z: usize = 0;
                while z < d
                    invariant
                        *self == orig,
                        w == self.width,
                        h == self.height,
                        d == self.depth,
                        wi == w as int,
                        hi == h as int,
                        di == d as int,
                        origin == self.position,
                        px == origin.x,
                        py == origin.y,
                        pz == origin.z,
                        hfg == *height_field,
                        bs == block_scale as int,
                        self.wf_grid(),
                        height_field.wf(),
                        0 <= px,
                        0 <= pz,
                        px + wi <= height_field.width,
                        pz + di <= height_field.depth,
                        0 <= block_scale <= 65536,
                        x < w,
                        y < h,
                        z <= d,
                        blocks@.len() == (x as int) * hi * di + (y as int) * di + z as int,
                        forall|i: int|
                            0 <= i < blocks@.len() ==> pos_in_range(
                                #[trigger] blocks@[i].position),
                        forall|a: int, b: int, c: int|
                            grid_in_bounds(wi, hi, di, a, b, c) && scanned_before(
                                a, b, c, x as int, y as int, z as int)
                                ==> #[trigger] blocks@[grid_index(hi, di, a, b, c)]
                                == populated_block(origin, hfg, bs, a, b, c),
                    decreases d - z,
                {
                    let gx: usize = px as usize + x;
                    let gz: usize = pz as usize + z;
                    let level: u32 = height_field.level_at(gx, gz);
                    let block_type = if (y as u64) == (level as u64) {
                        BlockType::Grass
                    } else if y == 0 {
                        BlockType::Stone
                    } else if (y as u64) < (level as u64) {
                        BlockType::Dirt
                    } else {
                        BlockType::Air
                    };
                    proof {
                        lemma_scaled_coord_bound(px as int, x as int, bs);
                        lemma_scaled_coord_bound(py as int, y as int, bs);
                        lemma_scaled_coord_bound(pz as int, z as int, bs);
                    }
                    let wx: i64 = (px + x as i64) * block_scale;
                    let wy: i64 = (py + y as i64) * block_scale;
                    let wz: i64 = (pz + z as i64) * block_scale;
                    let blk = Block { block_type, position: Vec3i { x: wx, y: wy, z: wz } };
                    proof {
                        assert(blk == populated_block(origin, hfg, bs, x as int, y as int, z as int));
                        assert(pos_in_range(blk.position));
                        assert((x as int * hi + y as int) * di == (x as int) * hi * di + (
                        y as int) * di) by (nonlinear_arith);
                        assert(blocks@.len() == grid_index(hi, di, x as int, y as int, z as int));
                    }
                    blocks.push(blk);
                    proof {
                        assert forall|a: int, b: int, c: int|
                            grid_in_bounds(wi, hi, di, a, b, c) && scanned_before(
                                a, b, c, x as int, y as int, z as int + 1) implies
                            #[trigger] blocks@[grid_index(hi, di, a, b, c)] == populated_block(
                                origin, hfg, bs, a, b, c) by {
                            if scanned_before(a, b, c, x as int, y as int, z as int) {
                                lemma_grid_index_lt(hi, di, a, b, c, x as int, y as int, z as int);
                            }
                        }
                    }
                    z = z + 1;
                }
                proof {
                    assert((x as int) * hi * di + (y as int) * di + di == (x as int) * hi * di + (
                    y as int + 1) * di) by (nonlinear_arith);
                }
                y = y + 1;
            }
            proof {
                assert((x as int) * hi * di + hi * di == (x as int + 1) * hi * di)
                    by (nonlinear_arith);
            }
            x = x + 1;
        }
        self.blocks = blocks;
        proof {
            assert(self.wf_grid());
        }
        self.generate_mesh();
    }
}

/// A chunk whose grid is entirely Air meshes to nothing: no faces, an empty
/// vertex list, and therefore (by `generate_mesh`'s contract) a mesh with 0
/// vertices and 0 indices.
pub proof fn lemma_empty_chunk_mesh(c: Chunk)
    requires
        c.wf_grid(),
        forall|x: int, y: int, z: int|
            c.in_bounds(x, y, z) ==> (#[trigger] c.block_at(x, y, z)).block_type
                == BlockType::Air,
    ensures
        c.total_faces() == 0,
        c.spec_mesh_verts() == Seq::<BlockVertex>::empty(),
{
    let g = c.blocks@;
    let w = c.width as int;
    let h = c.height as int;
    let d = c.depth as int;
    assert forall|a: int, b: int, e: int|
        0 <= a < w && 0 <= b < h && 0 <= e < d implies #[trigger] cell_faces(
        g, w, h, d, a, b, e) == 0 by {
        assert(c.block_at(a, b, e).block_type == BlockType::Air);
        assert(!solid_at(g, w, h, d, a, b, e));
    }
    lemma_grid_faces_zero(g, w, h, d, w);
    lemma_grid_verts_len(g, w, h, d, w);
    assert(c.spec_mesh_verts() =~= Seq::<BlockVertex>::empty());
}

/// A chunk holding exactly one non-Air voxel meshes to exactly six faces —
/// 24 vertices and, by `generate_mesh`'s contract, 36 indices all below 24.
pub proof fn lemma_isolated_voxel_faces(c: Chunk, x: int, y: int, z: int)
    requires
        c.wf_grid(),
        c.in_bounds(x, y, z),
        c.block_at(x, y, z).block_type != BlockType::Air,
        forall|a: int, b: int, e: int|
            c.in_bounds(a, b, e) && !(a == x && b == y && e == z) ==> (
            #[trigger] c.block_at(a, b, e)).block_type == BlockType::Air,
    ensures
        c.total_faces() == 6,
        c.spec_mesh_verts().len() == 24,
{
    let g = c.blocks@;
    let w = c.width as int;
    let h = c.height as int;
    let d = c.depth as int;
    assert forall|a: int, b: int, e: int|
        !(a == x && b == y && e == z) implies !solid_at(g, w, h, d, a, b, e) by {
        if grid_in_bounds(w, h, d, a, b, e) {
            assert(c.block_at(a, b, e).block_type == BlockType::Air);
        }
    }
    assert(face_rendered(g, w, h, d, x, y, z, Face::Left));
    assert(face_rendered(g, w, h, d, x, y, z, Face::Right));
    assert(face_rendered(g, w, h, d, x, y, z, Face::Bottom));
    assert(face_rendered(g, w, h, d, x, y, z, Face::Top));
    assert(face_rendered(g, w, h, d, x, y, z, Face::Front));
    assert(face_rendered(g, w, h, d, x, y, z, Face::Back));
    assert(cell_faces(g, w, h, d, x, y, z) == 6);
    assert forall|a: int, b: int, e: int|
        0 <= a < w && 0 <= b < h && 0 <= e < d && !(a == x && b == y && e == z)
        implies #[trigger] cell_faces(g, w, h, d, a, b, e) == 0 by {
        assert(!solid_at(g, w, h, d, a, b, e));
    }
    lemma_grid_faces_single(g, w, h, d, w, x, y, z);
    lemma_grid_verts_len(g, w, h, d, w);
}

/// Two solid voxels adjacent along one axis, everything else Air, mesh to
/// exactly ten faces — the two faces between them occlude each other — so 40
/// vertices and, by `generate_mesh`'s contract, 60 indices.
pub proof fn lemma_adjacent_pair_faces(c: Chunk, x: int, y: int, z: int, face: Face)
    requires
        c.wf_grid(),
        c.in_bounds(x, y, z),
        c.in_bounds(
            neighbor_of(x, y, z, face).0,
            neighbor_of(x, y, z, face).1,
            neighbor_of(x, y, z, face).2,
        ),
        c.block_at(x, y, z).block_type != BlockType::Air,
        c.block_at(
            neighbor_of(x, y, z, face).0,
            neighbor_of(x, y, z, face).1,
            neighbor_of(x, y, z, face).2,
        ).block_type != BlockType::Air,
        forall|a: int, b: int, e: int|
            c.in_bounds(a, b, e) && !(a == x && b == y && e == z) && !(a == neighbor_of(
                x, y, z, face).0 && b == neighbor_of(x, y, z, face).1 && e == neighbor_of(
                x, y, z, face).2) ==> (#[trigger] c.block_at(a, b, e)).block_type
                == BlockType::Air,
    ensures
        c.total_faces() == 10,
        c.spec_mesh_verts().len() == 40,
{
    let g = c.blocks@;
    let w = c.width as int;
    let h = c.height as int;
    let d = c.depth as int;
    let n = neighbor_of(x, y, z, face);
    let (nx, ny, nz) = n;
    assert forall|a: int, b: int, e: int|
        !(a == x && b == y && e == z) && !(a == nx && b == ny && e == nz) implies !solid_at(
        g, w, h, d, a, b, e) by {
        if grid_in_bounds(w, h, d, a, b, e) {
            assert(c.block_at(a, b, e).block_type == BlockType::Air);
        }
    }
    assert(solid_at(g, w, h, d, x, y, z));
    assert(solid_at(g, w, h, d, nx, ny, nz));
    assert(cell_faces(g, w, h, d, x, y, z) == 5);
    assert(cell_faces(g, w, h, d, nx, ny, nz) == 5);
    assert forall|a: int, b: int, e: int|
        0 <= a < w && 0 <= b < h && 0 <= e < d && !(a == x && b == y && e == z) && !(a == nx && b
            == ny && e == nz) implies #[trigger] cell_faces(g, w, h, d, a, b, e) == 0 by {
        assert(!solid_at(g, w, h, d, a, b, e));
    }
    if scanned_before(x, y, z, nx, ny, nz) {
        lemma_grid_faces_two(g, w, h, d, w, x, y, z, nx, ny, nz);
    } else {
        lemma_grid_faces_two(g, w, h, d, w, nx, ny, nz, x, y, z);
    }
    lemma_grid_verts_len(g, w, h, d, w);
}

/// What `generate_chunks` guarantees of the chunk it builds for grid cell
/// `(cx, cz)`: a well-formed chunk at origin `(cx*width, 0, cz*depth)`,
/// populated from the height field at global column coordinates, with its
/// mesh freshly generated from that grid.
pub open spec fn chunk_generated(
    c: Chunk, hf: HeightField, cx: int, cz: int,
    width: int, height: int, depth: int, block_scale: int,
) -> bool {
    &&& c.wf()
    &&& c.width == width
    &&& c.height == height
    &&& c.depth == depth
    &&& c.position == (Vec3i { x: (cx * width) as i64, y: 0, z: (cz * depth) as i64 })
    &&& forall|x: int, y: int, z: int|
        c.in_bounds(x, y, z) ==> #[trigger] c.block_at(x, y, z) == populated_block(
            c.position, hf, block_scale, x, y, z)
    &&& c.mesh.vertices@ == c.spec_mesh_verts()
    &&& c.mesh.indices@ == mesh_indices(c.total_faces())
    &&& c.mesh.vertices@.len() == 4 * c.total_faces()
    &&& c.mesh.indices@.len() == 6 * c.total_faces()
}

/// An earlier cell of a row-major scan sits at a smaller flat index.
proof fn lemma_flat_index_lt(n: int, a: int, b: int, x: int, z: int)
    requires
        0 <= a,
        0 <= b < n,
        0 <= z,
        a < x || (a == x && b < z),
    ensures
        a * n + b < x * n + z,
{
    if a < x {
        assert(a * n + b < x * n + z) by (nonlinear_arith)
            requires
                a < x,
                0 <= b < n,
                0 <= z,
        ;
    }
}

/// Builds and populates the whole `chunk_count x chunk_count` grid of
/// chunks over one shared height field: the chunk of grid cell `(cx, cz)`
/// sits at index `cx * chunk_count + cz`, its origin at
/// `(cx * width, 0, cz * depth)` in grid units, and each samples the height
/// field at global column coordinates, so that terrain stays continuous
/// across chunk boundaries.
pub fn generate_chunks(
    chunk_count: usize,
    width: usize,
    height: usize,
    depth: usize,
    block_scale: i64,
    height_field: &HeightField,
) -> (r: Vec<Chunk>)
    requires
        width <= MAX_CHUNK_DIM,
        height <= MAX_CHUNK_DIM,
        depth <= MAX_CHUNK_DIM,
        chunk_count * width <= MAX_CHUNK_ORIGIN,
        chunk_count * depth <= MAX_CHUNK_ORIGIN,
        height_field.wf(),
        chunk_count * width <= height_field.width,
        chunk_count * depth <= height_field.depth,
        0 <= block_scale <= 65536,
    ensures
        r@.len() == chunk_count * chunk_count,
        forall|cx: int, cz: int|
            0 <= cx < chunk_count && 0 <= cz < chunk_count ==> chunk_generated(
                #[trigger] r@[cx * chunk_count + cz],
                *height_field,
                cx,
                cz,
                width as int,
                height as int,
                depth as int,
                block_scale as int,
            ),
{
    let ghost n = chunk_count as int;
    let ghost hfg = *height_field;
    let mut chunks: Vec<Chunk> = Vec::new();
    let mut cx: usize = 0;
    while cx < chunk_count
        invariant
            n == chunk_count as int,
            hfg == *height_field,
            width <= MAX_CHUNK_DIM,
            height <= MAX_CHUNK_DIM,
            depth <= MAX_CHUNK_DIM,
            chunk_count * width <= MAX_CHUNK_ORIGIN,
            chunk_count * depth <= MAX_CHUNK_ORIGIN,
            height_field.wf(),
            chunk_count * width <= height_field.width,
            chunk_count * depth <= height_field.depth,
            0 <= block_scale <= 65536,
            cx <= chunk_count,
            chunks@.len() == cx as int * n,
            forall|a: int, b: int|
                0 <= a < chunk_count && 0 <= b < chunk_count && a < cx as int
                    ==> chunk_generated(
                    #[trigger] chunks@[a * n + b],
                    hfg,
                    a,
                    b,
                    width as int,
                    height as int,
                    depth as int,
                    block_scale as int,
                ),
        decreases chunk_count - cx,
    {
        let mut cz: usize = 0;
        while cz < chunk_count
            invariant
                n == chunk_count as int,
                hfg == *height_field,
                width <= MAX_CHUNK_DIM,
                height <= MAX_CHUNK_DIM,
                depth <= MAX_CHUNK_DIM,
                chunk_count * width <= MAX_CHUNK_ORIGIN,
                chunk_count * depth <= MAX_CHUNK_ORIGIN,
                height_field.wf(),
                chunk_count * width <= height_field.width,
                chunk_count * depth <= height_field.depth,
                0 <= block_scale <= 65536,
                cx < chunk_count,
                cz <= chunk_count,
                chunks@.len() == cx as int * n + cz as int,
                forall|a: int, b: int|
                    0 <= a < chunk_count && 0 <= b < chunk_count && (a < cx as int || (a == cx as int
                        && b < cz as int)) ==> chunk_generated(
                        #[trigger] chunks@[a * n + b],
                        hfg,
                        a,
                        b,
                        width as int,
                        height as int,
                        depth as int,
                        block_scale as int,
                    ),
            decreases chunk_count - cz,
        {
            proof {
                assert(cx * width <= chunk_count * width && (cx as int + 1) * width
                    <= chunk_count * width) by (nonlinear_arith)
                    requires
                        cx < chunk_count,
                        0 <= width,
                ;
                assert(cz * depth <= chunk_count * depth && (cz as int + 1) * depth
                    <= chunk_count * depth) by (nonlinear_arith)
                    requires
                        cz < chunk_count,
                        0 <= depth,
                ;
                assert((cx as int + 1) * width == cx as int * width + width) by (nonlinear_arith);
                assert((cz as int + 1) * depth == cz as int * depth + depth) by (nonlinear_arith);
            }
            let ox: usize = cx * width;
            let oz: usize = cz * depth;
            let position = Vec3i { x: ox as i64, y: 0, z: oz as i64 };
            let mut chunk = Chunk::new(position, width, height, depth);
            chunk.populate(height_field, block_scale);
            proof {
                assert(chunks@.len() == cx as int * n + cz as int);
            }
            chunks.push(chunk);
            proof {
                assert forall|a: int, b: int|
                    0 <= a < chunk_count && 0 <= b < chunk_count && (a < cx as int || (a
                        == cx as int && b < cz as int + 1)) implies chunk_generated(
                    #[trigger] chunks@[a * n + b],
                    hfg,
                    a,
                    b,
                    width as int,
                    height as int,
                    depth as int,
                    block_scale as int,
                ) by {
                    if a < cx as int || b < cz as int {
                        lemma_flat_index_lt(n, a, b, cx as int, cz as int);
                    } else {
                        assert(a == cx as int && b == cz as int);
                        assert(a * n + b == chunks@.len() - 1);
                    }
                }
            }
            cz = cz + 1;
        }
        proof {
            assert(cx as int * n + n == (cx as int + 1) * n) by (nonlinear_arith);
        }
        cx = cx + 1;
    }
    proof {
        assert(chunk_count as int * n == chunk_count * chunk_count);
    }
    chunks
}

/// A global grid coordinate scaled by the block scale stays well inside the
/// range `pos_in_range` asks for.
proof fn lemma_scaled_coord_bound(p: int, l: int, s: int)
    requires
        -(MAX_CHUNK_ORIGIN as int) <= p <= MAX_CHUNK_ORIGIN as int,
        0 <= l <= MAX_CHUNK_DIM as int,
        0 <= s <= 65536,
    ensures
        -0x4000_0000_0000 <= (p + l) * s <= 0x4000_0000_0000,
{
    assert(-0x4000_0000_0000 <= (p + l) * s <= 0x4000_0000_0000) by (nonlinear_arith)
        requires
            -0x1000_0000 <= p <= 0x1000_0000,
            0 <= l <= 512,
            0 <= s <= 65536,
    ;
}

} // verus!
