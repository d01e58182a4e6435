use voxel_terrain::block::{Block, BlockType, Face, TexCoord, Vec3i};
use voxel_terrain::chunk::Chunk;
use voxel_terrain::chunk_list::ChunkList;
use voxel_terrain::mesh::TerrainMesh;

fn solid_block(p: Vec3i) -> Block {
    Block::new(BlockType::Stone, p)
}

#[test]
fn empty_chunk_meshes_to_nothing() {
    let mut chunk = Chunk::new(Vec3i { x: 0, y: 0, z: 0 }, 8, 8, 8);
    chunk.generate_mesh();
    assert_eq!(chunk.mesh.vertices.len(), 0);
    assert_eq!(chunk.mesh.indices.len(), 0);
}

#[test]
fn isolated_voxel_meshes_to_six_faces() {
    let mut chunk = Chunk::new(Vec3i { x: 0, y: 0, z: 0 }, 3, 3, 3);
    let idx = (1 * 3 + 1) * 3 + 1;
    chunk.blocks[idx] = solid_block(Vec3i { x: 2, y: 2, z: 2 });
    chunk.generate_mesh();
    assert_eq!(chunk.mesh.vertices.len(), 24);
    assert_eq!(chunk.mesh.indices.len(), 36);
    for &i in chunk.mesh.indices.iter() {
        assert!(i < 24);
    }
}

#[test]
fn lone_voxel_in_unit_chunk_meshes_to_six_faces() {
    // Every neighbor is out of bounds: the boundary policy renders all six.
    let mut chunk = Chunk::new(Vec3i { x: 0, y: 0, z: 0 }, 1, 1, 1);
    chunk.blocks[0] = solid_block(Vec3i { x: 0, y: 0, z: 0 });
    chunk.generate_mesh();
    assert_eq!(chunk.mesh.vertices.len(), 24);
    assert_eq!(chunk.mesh.indices.len(), 36);
}

#[test]
fn adjacent_voxels_occlude_two_faces() {
    let mut chunk = Chunk::new(Vec3i { x: 0, y: 0, z: 0 }, 4, 4, 4);
    let idx = |x: usize, y: usize, z: usize| (x * 4 + y) * 4 + z;
    chunk.blocks[idx(1, 1, 1)] = solid_block(Vec3i { x: 2, y: 2, z: 2 });
    chunk.blocks[idx(2, 1, 1)] = solid_block(Vec3i { x: 4, y: 2, z: 2 });
    chunk.generate_mesh();
    // 6 + 6 faces minus the two facing each other.
    assert_eq!(chunk.mesh.vertices.len(), 40);
    assert_eq!(chunk.mesh.indices.len(), 60);
    for &i in chunk.mesh.indices.iter() {
        assert!(i < 40);
    }
}

#[test]
fn adjacent_voxels_along_y_and_z_also_occlude() {
    for axis in 0..2 {
        let mut chunk = Chunk::new(Vec3i { x: 0, y: 0, z: 0 }, 4, 4, 4);
        let idx = |x: usize, y: usize, z: usize| (x * 4 + y) * 4 + z;
        chunk.blocks[idx(1, 1, 1)] = solid_block(Vec3i { x: 2, y: 2, z: 2 });
        if axis == 0 {
            chunk.blocks[idx(1, 2, 1)] = solid_block(Vec3i { x: 2, y: 4, z: 2 });
        } else {
            chunk.blocks[idx(1, 1, 2)] = solid_block(Vec3i { x: 2, y: 2, z: 4 });
        }
        chunk.generate_mesh();
        assert_eq!(chunk.mesh.vertices.len(), 40);
        assert_eq!(chunk.mesh.indices.len(), 60);
    }
}

#[test]
fn boundary_faces_always_render() {
    // A fully solid 2x2x2 grid: every voxel keeps its three boundary faces
    // and loses its three interior ones.
    let mut chunk = Chunk::new(Vec3i { x: 0, y: 0, z: 0 }, 2, 2, 2);
    for i in 0..8 {
        chunk.blocks[i] = solid_block(Vec3i { x: 0, y: 0, z: 0 });
    }
    chunk.generate_mesh();
    assert_eq!(chunk.mesh.vertices.len(), 8 * 3 * 4);
    assert_eq!(chunk.mesh.indices.len(), 8 * 3 * 6);
}

#[test]
fn add_face_rebases_each_quad() {
    let mut mesh = TerrainMesh::new();
    let block = solid_block(Vec3i { x: 0, y: 0, z: 0 });
    mesh.add_face(block.generate_face(Face::Top));
    mesh.add_face(block.generate_face(Face::Bottom));
    assert_eq!(mesh.vertices.len(), 8);
    assert_eq!(
        mesh.indices,
        vec![0, 1, 2, 0, 2, 3, 4, 5, 6, 4, 6, 7],
    );
}

#[test]
fn mesh_accessors_and_setters() {
    let mut mesh = TerrainMesh::new();
    let block = solid_block(Vec3i { x: 0, y: 0, z: 0 });
    mesh.add_face(block.generate_face(Face::Left));
    assert_eq!(mesh.vertices().len(), 4);
    assert_eq!(mesh.indices().len(), 6);
    mesh.vertices_mut().pop();
    assert_eq!(mesh.vertices.len(), 3);
    mesh.indices_mut().pop();
    assert_eq!(mesh.indices.len(), 5);
    mesh.set_vertices(Vec::new());
    mesh.set_indices(Vec::new());
    assert_eq!(mesh.vertices.len(), 0);
    assert_eq!(mesh.indices.len(), 0);
}

#[test]
fn top_quad_positions_and_winding() {
    let tex = BlockType::Stone.tex_coords(Face::Top);
    let quad = voxel_terrain::block::BlockQuad::top(tex, Vec3i { x: 10, y: 20, z: 30 });
    let vs = quad.vertices();
    assert_eq!((vs[0].x, vs[0].y, vs[0].z), (9, 21, 29));
    assert_eq!((vs[1].x, vs[1].y, vs[1].z), (11, 21, 29));
    assert_eq!((vs[2].x, vs[2].y, vs[2].z), (11, 21, 31));
    assert_eq!((vs[3].x, vs[3].y, vs[3].z), (9, 21, 31));
}

#[test]
fn generate_face_carries_block_texture() {
    let block = Block::new(BlockType::Grass, Vec3i { x: 0, y: 0, z: 0 });
    let quad = block.generate_face(Face::Top);
    let vs = quad.vertices();
    // Grass top tile sits at atlas column 0, row 0.
    assert_eq!((vs[0].u, vs[0].v), (0, 0));
    assert_eq!((vs[1].u, vs[1].v), (16, 0));
    assert_eq!((vs[2].u, vs[2].v), (16, 16));
    assert_eq!((vs[3].u, vs[3].v), (0, 16));
}

#[test]
fn is_air_only_for_air() {
    let p = Vec3i { x: 0, y: 0, z: 0 };
    assert!(Block::new(BlockType::Air, p).is_air());
    assert!(!Block::new(BlockType::Stone, p).is_air());
    assert!(!Block::new(BlockType::Dirt, p).is_air());
    assert!(!Block::new(BlockType::Grass, p).is_air());
}

fn min_corner(tex: &[TexCoord; 4]) -> (u32, u32) {
    let mut u = tex[0].u;
    let mut v = tex[0].v;
    for t in tex.iter() {
        if t.u < u {
            u = t.u;
        }
        if t.v < v {
            v = t.v;
        }
    }
    (u, v)
}

#[test]
fn atlas_grass_top_min_corner() {
    // 0/256 of the atlas on both axes.
    let tex = BlockType::Grass.tex_coords(Face::Top);
    assert_eq!(min_corner(&tex), (0, 0));
}

#[test]
fn atlas_stone_min_corner_every_face() {
    // 16/256 on u, 0/256 on v, whatever the face.
    for face in [
        Face::Top,
        Face::Bottom,
        Face::Left,
        Face::Right,
        Face::Front,
        Face::Back,
    ] {
        let tex = BlockType::Stone.tex_coords(face);
        assert_eq!(min_corner(&tex), (16, 0));
    }
}

#[test]
fn atlas_grass_sides_and_bottom() {
    assert_eq!(min_corner(&BlockType::Grass.tex_coords(Face::Bottom)), (32, 0));
    assert_eq!(min_corner(&BlockType::Grass.tex_coords(Face::Left)), (48, 0));
    assert_eq!(min_corner(&BlockType::Dirt.tex_coords(Face::Top)), (32, 0));
}

#[test]
fn atlas_side_faces_rotate_corners() {
    // The base corner order is (min,min),(max,min),(max,max),(min,max);
    // Front and Back rotate it right by two, Left and Right by one.
    let top = BlockType::Stone.tex_coords(Face::Top);
    assert_eq!((top[0].u, top[0].v), (16, 0));
    assert_eq!((top[1].u, top[1].v), (32, 0));
    assert_eq!((top[2].u, top[2].v), (32, 16));
    assert_eq!((top[3].u, top[3].v), (16, 16));
    let front = BlockType::Stone.tex_coords(Face::Front);
    assert_eq!((front[0].u, front[0].v), (32, 16));
    assert_eq!((front[1].u, front[1].v), (16, 16));
    assert_eq!((front[2].u, front[2].v), (16, 0));
    assert_eq!((front[3].u, front[3].v), (32, 0));
    let left = BlockType::Stone.tex_coords(Face::Left);
    assert_eq!((left[0].u, left[0].v), (16, 16));
    assert_eq!((left[1].u, left[1].v), (16, 0));
    assert_eq!((left[2].u, left[2].v), (32, 0));
    assert_eq!((left[3].u, left[3].v), (32, 16));
}

#[test]
fn merge_rebases_second_chunk_indices() {
    // Chunk A: one voxel, 24 vertices / 36 indices. Chunk B: two adjacent
    // voxels, 40 vertices / 60 indices.
    let mut a = Chunk::new(Vec3i { x: 0, y: 0, z: 0 }, 3, 3, 3);
    a.blocks[(1 * 3 + 1) * 3 + 1] = solid_block(Vec3i { x: 2, y: 2, z: 2 });
    a.generate_mesh();
    let mut b = Chunk::new(Vec3i { x: 3, y: 0, z: 0 }, 4, 4, 4);
    let idx = |x: usize, y: usize, z: usize| (x * 4 + y) * 4 + z;
    b.blocks[idx(1, 1, 1)] = solid_block(Vec3i { x: 8, y: 2, z: 2 });
    b.blocks[idx(1, 2, 1)] = solid_block(Vec3i { x: 8, y: 4, z: 2 });
    b.generate_mesh();

    let n_a = a.mesh.vertices.len() as u32;
    let a_indices = a.mesh.indices.clone();
    let b_indices = b.mesh.indices.clone();
    let total = a.mesh.vertices.len() + b.mesh.vertices.len();

    let mut list = ChunkList::new(vec![a, b]);
    let merged = list.merge_meshes();
    assert_eq!(merged.vertices.len(), total);
    assert_eq!(merged.indices.len(), a_indices.len() + b_indices.len());
    for (k, &i) in a_indices.iter().enumerate() {
        assert_eq!(merged.indices[k], i);
    }
    for (k, &i) in b_indices.iter().enumerate() {
        assert_eq!(merged.indices[a_indices.len() + k], i + n_a);
    }
    for &i in merged.indices.iter() {
        assert!((i as usize) < total);
    }
}

#[test]
fn merge_of_empty_list_is_empty() {
    let mut list = ChunkList::new(Vec::new());
    let merged = list.merge_meshes();
    assert_eq!(merged.vertices.len(), 0);
    assert_eq!(merged.indices.len(), 0);
}
