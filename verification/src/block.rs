//! Block types, faces, the texture-atlas lookup, and quad geometry.
//!
//! The atlas is a 256x256 grid of 16x16 tiles; texture coordinates are kept
//! as integer numerators over 256. Vertex positions are integers: a unit
//! cube spans two grid units, so a face corner is the block's position
//! offset by +/-1 on each axis.

use vstd::prelude::*;

verus! {

/// Atlas width and height, in texture units.
pub const ATLAS_SIZE: u32 = 256;
/// Tile width and height, in texture units.
pub const TILE_SIZE: u32 = 16;

/// The kind of material a voxel holds; `Air` is the empty sentinel.
#[derive(Copy, Clone, Debug, PartialEq, Eq, Structural)]
pub enum BlockType {
    Dirt,
    Grass,
    Stone,
    Air,
}

/// One of the six axis-aligned directions of a cube face.
#[derive(Copy, Clone, Debug, PartialEq, Eq, Structural)]
pub enum Face {
    Top,
    Bottom,
    Left,
    Right,
    Front,
    Back,
}

/// An integer point in world space.
#[derive(Copy, Clone, Debug, PartialEq, Eq, Structural)]
pub struct Vec3i {
    pub x: i64,
    pub y: i64,
    pub z: i64,
}

/// A texture coordinate: numerators over `ATLAS_SIZE`.
#[derive(Copy, Clone, Debug, PartialEq, Eq, Structural)]
pub struct TexCoord {
    pub u: u32,
    pub v: u32,
}

/// One mesh vertex: an integer world position and a texture coordinate.
#[derive(Copy, Clone, Debug, PartialEq, Eq, Structural)]
pub struct BlockVertex {
    pub x: i64,
    pub y: i64,
    pub z: i64,
    pub u: u32,
    pub v: u32,
}

/// Whether every coordinate of `p` is far enough from the `i64` limits that
/// offsetting a face corner by one unit cannot overflow.
pub open spec fn pos_in_range(p: Vec3i) -> bool {
    &&& -0x4000_0000_0000_0000 <= p.x <= 0x4000_0000_0000_0000
    &&& -0x4000_0000_0000_0000 <= p.y <= 0x4000_0000_0000_0000
    &&& -0x4000_0000_0000_0000 <= p.z <= 0x4000_0000_0000_0000
}

/// The atlas tile column for a block type seen from a face; every tile used
/// sits in row 0.
pub open spec fn spec_tile_col(block_type: BlockType, face: Face) -> int {
    match block_type {
        BlockType::Grass => match face {
            Face::Top => 0,
            Face::Bottom => 2,
            Face::Left | Face::Right | Face::Front | Face::Back => 3,
        },
        BlockType::Dirt => 2,
        BlockType::Stone => 1,
        BlockType::Air => 3,
    }
}

/// The four texture corners of a face's quad, in the face's vertex order.
///
/// The base order is (min,min),(max,min),(max,max),(min,max); for Front and
/// Back it is rotated right by two positions and for Left and Right by one,
/// so that the texture stays upright against each face's winding.
pub open spec fn spec_tex_coords(block_type: BlockType, face: Face) -> Seq<TexCoord> {
    let u_min = (spec_tile_col(block_type, face) * TILE_SIZE as int) as u32;
    let v_min = 0u32;
    let u_max = (u_min + TILE_SIZE) as u32;
    let v_max = TILE_SIZE as u32;
    let c00 = TexCoord { u: u_min, v: v_min };
    let c10 = TexCoord { u: u_max, v: v_min };
    let c11 = TexCoord { u: u_max, v: v_max };
    let c01 = TexCoord { u: u_min, v: v_max };
    match face {
        Face::Top | Face::Bottom => seq![c00, c10, c11, c01],
        Face::Front | Face::Back => seq![c11, c01, c00, c10],
        Face::Left | Face::Right => seq![c01, c00, c10, c11],
    }
}

impl BlockType {
    /// The four texture corners for this block type on the given face.
    pub fn tex_coords(&self, face: Face) -> (r: [TexCoord; 4])
        ensures
            r@ == spec_tex_coords(*self, face),
    {
        let col: u32 = match self {
            BlockType::Grass => match face {
                Face::Top => 0,
                Face::Bottom => 2,
                Face::Left | Face::Right | Face::Front | Face::Back => 3,
            },
            BlockType::Dirt => 2,
            BlockType::Stone => 1,
            BlockType::Air => 3,
        };
        let u_min: u32 = col * TILE_SIZE;
        let v_min: u32 = 0;
        let u_max: u32 = u_min + TILE_SIZE;
        let v_max: u32 = TILE_SIZE;
        let c00 = TexCoord { u: u_min, v: v_min };
        let c10 = TexCoord { u: u_max, v: v_min };
        let c11 = TexCoord { u: u_max, v: v_max };
        let c01 = TexCoord { u: u_min, v: v_max };
        let r: [TexCoord; 4] = match face {
            Face::Top | Face::Bottom => [c00, c10, c11, c01],
            Face::Front | Face::Back => [c11, c01, c00, c10],
            Face::Left | Face::Right => [c01, c00, c10, c11],
        };
        proof {
            assert(r@ =~= spec_tex_coords(*self, face));
        }
        r
    }
}

/// A vertex at integer point `(x, y, z)` carrying texture coordinate `t`.
pub open spec fn spec_vertex(x: int, y: int, z: int, t: TexCoord) -> BlockVertex {
    BlockVertex { x: x as i64, y: y as i64, z: z as i64, u: t.u, v: t.v }
}

/// The four vertices of the upward face of the block at `p`.
pub open spec fn spec_top(tex: Seq<TexCoord>, p: Vec3i) -> Seq<BlockVertex> {
    seq![
        spec_vertex(p.x - 1, p.y + 1, p.z - 1, tex[0]),
        spec_vertex(p.x + 1, p.y + 1, p.z - 1, tex[1]),
        spec_vertex(p.x + 1, p.y + 1, p.z + 1, tex[2]),
        spec_vertex(p.x - 1, p.y + 1, p.z + 1, tex[3]),
    ]
}

/// The four vertices of the downward face of the block at `p`.
pub open spec fn spec_bottom(tex: Seq<TexCoord>, p: Vec3i) -> Seq<BlockVertex> {
    seq![
        spec_vertex(p.x - 1, p.y - 1, p.z - 1, tex[0]),
        spec_vertex(p.x + 1, p.y - 1, p.z - 1, tex[1]),
        spec_vertex(p.x + 1, p.y - 1, p.z + 1, tex[2]),
        spec_vertex(p.x - 1, p.y - 1, p.z + 1, tex[3]),
    ]
}

/// The four vertices of the face of the block at `p` toward negative x.
pub open spec fn spec_left(tex: Seq<TexCoord>, p: Vec3i) -> Seq<BlockVertex> {
    seq![
        spec_vertex(p.x - 1, p.y - 1, p.z - 1, tex[0]),
        spec_vertex(p.x - 1, p.y + 1, p.z - 1, tex[1]),
        spec_vertex(p.x - 1, p.y + 1, p.z + 1, tex[2]),
        spec_vertex(p.x - 1, p.y - 1, p.z + 1, tex[3]),
    ]
}

/// The four vertices of the face of the block at `p` toward positive x.
pub open spec fn spec_right(tex: Seq<TexCoord>, p: Vec3i) -> Seq<BlockVertex> {
    seq![
        spec_vertex(p.x + 1, p.y - 1, p.z - 1, tex[0]),
        spec_vertex(p.x + 1, p.y + 1, p.z - 1, tex[1]),
        spec_vertex(p.x + 1, p.y + 1, p.z + 1, tex[2]),
        spec_vertex(p.x + 1, p.y - 1, p.z + 1, tex[3]),
    ]
}

/// The four vertices of the face of the block at `p` toward negative z.
pub open spec fn spec_front(tex: Seq<TexCoord>, p: Vec3i) -> Seq<BlockVertex> {
    seq![
        spec_vertex(p.x - 1, p.y - 1, p.z - 1, tex[0]),
        spec_vertex(p.x + 1, p.y - 1, p.z - 1, tex[1]),
        spec_vertex(p.x + 1, p.y + 1, p.z - 1, tex[2]),
        spec_vertex(p.x - 1, p.y + 1, p.z - 1, tex[3]),
    ]
}

/// The four vertices of the face of the block at `p` toward positive z.
pub open spec fn spec_back(tex: Seq<TexCoord>, p: Vec3i) -> Seq<BlockVertex> {
    seq![
        spec_vertex(p.x - 1, p.y - 1, p.z + 1, tex[0]),
        spec_vertex(p.x + 1, p.y - 1, p.z + 1, tex[1]),
        spec_vertex(p.x + 1, p.y + 1, p.z + 1, tex[2]),
        spec_vertex(p.x - 1, p.y + 1, p.z + 1, tex[3]),
    ]
}

/// The four vertices of the `face` quad of the block at `p`, textured by
/// `tex`, in the winding that makes the face's triangles counter-clockwise
/// from outside.
pub open spec fn spec_quad(face: Face, tex: Seq<TexCoord>, p: Vec3i) -> Seq<BlockVertex> {
    match face {
        Face::Top => spec_top(tex, p),
        Face::Bottom => spec_bottom(tex, p),
        Face::Left => spec_left(tex, p),
        Face::Right => spec_right(tex, p),
        Face::Front => spec_front(tex, p),
        Face::Back => spec_back(tex, p),
    }
}

/// A renderable quad: four vertices, two triangles.
#[derive(Copy, Clone, Debug)]
pub struct BlockQuad {
    pub vertices: [BlockVertex; 4],
}

impl BlockQuad {
    /// The quad's four vertices.
    pub fn vertices(&self) -> (r: &[BlockVertex; 4])
        ensures
            r@ == self.vertices@,
    {
        &self.vertices
    }

    /// The upward face of the block at `position`.
    pub fn top(tex: [TexCoord; 4], position: Vec3i) -> (r: BlockQuad)
        requires
            pos_in_range(position),
        ensures
            r.vertices@ == spec_top(tex@, position),
    {
        let r = BlockQuad {
            vertices: [
                BlockVertex { x: position.x - 1, y: position.y + 1, z: position.z - 1, u: tex[0].u, v: tex[0].v },
                BlockVertex { x: position.x + 1, y: position.y + 1, z: position.z - 1, u: tex[1].u, v: tex[1].v },
                BlockVertex { x: position.x + 1, y: position.y + 1, z: position.z + 1, u: tex[2].u, v: tex[2].v },
                BlockVertex { x: position.x - 1, y: position.y + 1, z: position.z + 1, u: tex[3].u, v: tex[3].v },
            ],
        };
        proof {
            assert(r.vertices@ =~= spec_top(tex@, position));
        }
        r
    }

    /// The downward face of the block at `position`.
    pub fn bottom(tex: [TexCoord; 4], position: Vec3i) -> (r: BlockQuad)
        requires
            pos_in_range(position),
        ensures
            r.vertices@ == spec_bottom(tex@, position),
    {
        let r = BlockQuad {
            vertices: [
                BlockVertex { x: position.x - 1, y: position.y - 1, z: position.z - 1, u: tex[0].u, v: tex[0].v },
                BlockVertex { x: position.x + 1, y: position.y - 1, z: position.z - 1, u: tex[1].u, v: tex[1].v },
                BlockVertex { x: position.x + 1, y: position.y - 1, z: position.z + 1, u: tex[2].u, v: tex[2].v },
                BlockVertex { x: position.x - 1, y: position.y - 1, z: position.z + 1, u: tex[3].u, v: tex[3].v },
            ],
        };
        proof {
            assert(r.vertices@ =~= spec_bottom(tex@, position));
        }
        r
    }

    /// The face of the block at `position` toward negative x.
    pub fn left(tex: [TexCoord; 4], position: Vec3i) -> (r: BlockQuad)
        requires
            pos_in_range(position),
        ensures
            r.vertices@ == spec_left(tex@, position),
    {
        let r = BlockQuad {
            vertices: [
                BlockVertex { x: position.x - 1, y: position.y - 1, z: position.z - 1, u: tex[0].u, v: tex[0].v },
                BlockVertex { x: position.x - 1, y: position.y + 1, z: position.z - 1, u: tex[1].u, v: tex[1].v },
                BlockVertex { x: position.x - 1, y: position.y + 1, z: position.z + 1, u: tex[2].u, v: tex[2].v },
                BlockVertex { x: position.x - 1, y: position.y - 1, z: position.z + 1, u: tex[3].u, v: tex[3].v },
            ],
        };
        proof {
            assert(r.vertices@ =~= spec_left(tex@, position));
        }
        r
    }

    /// The face of the block at `position` toward positive x.
    pub fn right(tex: [TexCoord; 4], position: Vec3i) -> (r: BlockQuad)
        requires
            pos_in_range(position),
        ensures
            r.vertices@ == spec_right(tex@, position),
    {
        let r = BlockQuad {
            vertices: [
                BlockVertex { x: position.x + 1, y: position.y - 1, z: position.z - 1, u: tex[0].u, v: tex[0].v },
                BlockVertex { x: position.x + 1, y: position.y + 1, z: position.z - 1, u: tex[1].u, v: tex[1].v },
                BlockVertex { x: position.x + 1, y: position.y + 1, z: position.z + 1, u: tex[2].u, v: tex[2].v },
                BlockVertex { x: position.x + 1, y: position.y - 1, z: position.z + 1, u: tex[3].u, v: tex[3].v },
            ],
        };
        proof {
            assert(r.vertices@ =~= spec_right(tex@, position));
        }
        r
    }

    /// The face of the block at `position` toward negative z.
    pub fn front(tex: [TexCoord; 4], position: Vec3i) -> (r: BlockQuad)
        requires
            pos_in_range(position),
        ensures
            r.vertices@ == spec_front(tex@, position),
    {
        let r = BlockQuad {
            vertices: [
                BlockVertex { x: position.x - 1, y: position.y - 1, z: position.z - 1, u: tex[0].u, v: tex[0].v },
                BlockVertex { x: position.x + 1, y: position.y - 1, z: position.z - 1, u: tex[1].u, v: tex[1].v },
                BlockVertex { x: position.x + 1, y: position.y + 1, z: position.z - 1, u: tex[2].u, v: tex[2].v },
                BlockVertex { x: position.x - 1, y: position.y + 1, z: position.z - 1, u: tex[3].u, v: tex[3].v },
            ],
        };
        proof {
            assert(r.vertices@ =~= spec_front(tex@, position));
        }
        r
    }

    /// The face of the block at `position` toward positive z.
    pub fn back(tex: [TexCoord; 4], position: Vec3i) -> (r: BlockQuad)
        requires
            pos_in_range(position),
        ensures
            r.vertices@ == spec_back(tex@, position),
    {
        let r = BlockQuad {
            vertices: [
                BlockVertex { x: position.x - 1, y: position.y - 1, z: position.z + 1, u: tex[0].u, v: tex[0].v },
                BlockVertex { x: position.x + 1, y: position.y - 1, z: position.z + 1, u: tex[1].u, v: tex[1].v },
                BlockVertex { x: position.x + 1, y: position.y + 1, z: position.z + 1, u: tex[2].u, v: tex[2].v },
                BlockVertex { x: position.x - 1, y: position.y + 1, z: position.z + 1, u: tex[3].u, v: tex[3].v },
            ],
        };
        proof {
            assert(r.vertices@ =~= spec_back(tex@, position));
        }
        r
    }
}

/// One voxel: a block type and its world position.
#[derive(Copy, Clone, Debug, PartialEq, Eq, Structural)]
pub struct Block {
    pub block_type: BlockType,
    pub position: Vec3i,
}

impl Block {
    /// A voxel of type `block_type` at `position`.
    pub fn new(block_type: BlockType, position: Vec3i) -> (r: Block)
        ensures
            r == (Block { block_type, position }),
    {
        Block { block_type, position }
    }

    /// Whether this voxel is empty space.
    pub fn is_air(&self) -> (r: bool)
        ensures
            r == (self.block_type == BlockType::Air),
    {
        self.block_type == BlockType::Air
    }

    /// The textured quad for `face` of this voxel.
    pub fn generate_face(&self, face: Face) -> (r: BlockQuad)
        requires
            pos_in_range(self.position),
        ensures
            r.vertices@ == spec_quad(face, spec_tex_coords(self.block_type, face), self.position),
    {
        let tex = self.block_type.tex_coords(face);
        match face {
            Face::Top => BlockQuad::top(tex, self.position),
            Face::Bottom => BlockQuad::bottom(tex, self.position),
            Face::Left => BlockQuad::left(tex, self.position),
            Face::Right => BlockQuad::right(tex, self.position),
            Face::Front => BlockQuad::front(tex, self.position),
            Face::Back => BlockQuad::back(tex, self.position),
        }
    }
}

} // verus!
