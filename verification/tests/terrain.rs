use noise::{NoiseFn, Perlin};
use voxel_terrain::block::{BlockType, Vec3i};
use voxel_terrain::chunk::{generate_chunks, Chunk};
use voxel_terrain::chunk_list::ChunkList;
use voxel_terrain::height::{HeightField, SAMPLE_ONE};

/// One fixed-point noise sample per column, row-major, from seeded Perlin
/// noise, exactly as a driver would feed the library.
fn perlin_samples(width: usize, depth: usize, scale: f64, seed: u32) -> Vec<i64> {
    let perlin = Perlin::new(seed);
    let mut samples = Vec::new();
    for x in 0..width {
        for z in 0..depth {
            let v = perlin.get([x as f64 / scale, z as f64 / scale]);
            samples.push((v * SAMPLE_ONE as f64) as i64);
        }
    }
    samples
}

#[test]
fn generate_is_deterministic() {
    let samples = perlin_samples(8, 8, 50.0, 1234);
    let a = HeightField::generate(8, 8, &samples, 0, 15);
    let b = HeightField::generate(8, 8, &samples, 0, 15);
    assert_eq!(a.levels, b.levels);
    assert_eq!(a.width, b.width);
    assert_eq!(a.depth, b.depth);
}

#[test]
fn perlin_sampling_is_deterministic() {
    let a = perlin_samples(8, 8, 50.0, 77);
    let b = perlin_samples(8, 8, 50.0, 77);
    assert_eq!(a, b);
}

#[test]
fn levels_stay_within_bounds() {
    let samples: Vec<i64> = vec![
        -3_000_000,
        -SAMPLE_ONE,
        -999_999,
        -1,
        0,
        1,
        123_456,
        999_999,
        SAMPLE_ONE,
        3_000_000,
    ];
    let hf = HeightField::generate(10, 1, &samples, 3, 15);
    for x in 0..10 {
        let level = hf.level_at(x, 0);
        assert!(3 <= level && level <= 15);
    }
}

#[test]
fn level_formula_exact_values() {
    // level = min + floor((clamp(s) + 1_000_000) * (max - min) / 2_000_000)
    let samples: Vec<i64> = vec![0, SAMPLE_ONE, -SAMPLE_ONE, 2_000_000, -2_000_000, 500_000];
    let hf = HeightField::generate(6, 1, &samples, 0, 15);
    assert_eq!(hf.level_at(0, 0), 7); // floor(7.5)
    assert_eq!(hf.level_at(1, 0), 15);
    assert_eq!(hf.level_at(2, 0), 0);
    assert_eq!(hf.level_at(3, 0), 15); // clamped from above
    assert_eq!(hf.level_at(4, 0), 0); // clamped from below
    assert_eq!(hf.level_at(5, 0), 11); // floor(11.25)
}

#[test]
fn level_at_reads_row_major() {
    // Column (x, z) sits at x * depth + z.
    let samples: Vec<i64> = vec![-SAMPLE_ONE, 0, SAMPLE_ONE, -SAMPLE_ONE, 0, SAMPLE_ONE];
    let hf = HeightField::generate(2, 3, &samples, 0, 10);
    assert_eq!(hf.level_at(0, 0), 0);
    assert_eq!(hf.level_at(0, 1), 5);
    assert_eq!(hf.level_at(0, 2), 10);
    assert_eq!(hf.level_at(1, 0), 0);
    assert_eq!(hf.level_at(1, 2), 10);
}

#[test]
fn populate_classifies_columns() {
    // All columns at level 2: floor Stone, level 2 Grass, between Dirt,
    // above Air.
    let samples: Vec<i64> = vec![0; 4]; // level = floor(0.5 * 4) = 2
    let hf = HeightField::generate(2, 2, &samples, 0, 4);
    assert_eq!(hf.level_at(0, 0), 2);
    let mut chunk = Chunk::new(Vec3i { x: 0, y: 0, z: 0 }, 2, 5, 2);
    chunk.populate(&hf, 2);
    let idx = |x: usize, y: usize, z: usize| (x * 5 + y) * 2 + z;
    for x in 0..2 {
        for z in 0..2 {
            assert_eq!(chunk.blocks[idx(x, 0, z)].block_type, BlockType::Stone);
            assert_eq!(chunk.blocks[idx(x, 1, z)].block_type, BlockType::Dirt);
            assert_eq!(chunk.blocks[idx(x, 2, z)].block_type, BlockType::Grass);
            assert_eq!(chunk.blocks[idx(x, 3, z)].block_type, BlockType::Air);
            assert_eq!(chunk.blocks[idx(x, 4, z)].block_type, BlockType::Air);
        }
    }
}

#[test]
fn populate_grass_wins_tie_at_floor() {
    // A column whose surface level is 0 gets Grass at its floor cell, not
    // Stone.
    let samples: Vec<i64> = vec![-SAMPLE_ONE];
    let hf = HeightField::generate(1, 1, &samples, 0, 15);
    assert_eq!(hf.level_at(0, 0), 0);
    let mut chunk = Chunk::new(Vec3i { x: 0, y: 0, z: 0 }, 1, 3, 1);
    chunk.populate(&hf, 2);
    assert_eq!(chunk.blocks[0].block_type, BlockType::Grass);
    assert_eq!(chunk.blocks[1].block_type, BlockType::Air);
}

#[test]
fn populate_scales_world_positions() {
    let samples: Vec<i64> = vec![0; 12];
    let hf = HeightField::generate(4, 3, &samples, 0, 4);
    let mut chunk = Chunk::new(Vec3i { x: 2, y: 0, z: 1 }, 2, 2, 2);
    chunk.populate(&hf, 2);
    let idx = |x: usize, y: usize, z: usize| (x * 2 + y) * 2 + z;
    let b = chunk.blocks[idx(1, 1, 0)];
    // (origin + local) * block_scale
    assert_eq!(b.position, Vec3i { x: 6, y: 2, z: 2 });
    let c = chunk.blocks[idx(0, 0, 1)];
    assert_eq!(c.position, Vec3i { x: 4, y: 0, z: 4 });
}

#[test]
fn populate_samples_global_columns() {
    // Two chunks side by side sample disjoint stripes of the same field.
    let mut samples: Vec<i64> = Vec::new();
    for x in 0..4 {
        for _z in 0..2 {
            samples.push(if x < 2 { -SAMPLE_ONE } else { SAMPLE_ONE });
        }
    }
    let hf = HeightField::generate(4, 2, &samples, 0, 3);
    let mut left = Chunk::new(Vec3i { x: 0, y: 0, z: 0 }, 2, 4, 2);
    let mut right = Chunk::new(Vec3i { x: 2, y: 0, z: 0 }, 2, 4, 2);
    left.populate(&hf, 2);
    right.populate(&hf, 2);
    let idx = |x: usize, y: usize, z: usize| (x * 4 + y) * 2 + z;
    // Left columns sit at level 0, right columns at level 3.
    assert_eq!(left.blocks[idx(0, 0, 0)].block_type, BlockType::Grass);
    assert_eq!(left.blocks[idx(0, 1, 0)].block_type, BlockType::Air);
    assert_eq!(right.blocks[idx(0, 0, 0)].block_type, BlockType::Stone);
    assert_eq!(right.blocks[idx(0, 3, 0)].block_type, BlockType::Grass);
}

#[test]
fn end_to_end_single_chunk_grid() {
    let samples = perlin_samples(32, 32, 50.0, 1234);
    let hf = HeightField::generate(32, 32, &samples, 0, 15);
    let chunks = generate_chunks(1, 32, 32, 32, 2, &hf);
    assert_eq!(chunks.len(), 1);
    let chunk_vertices = chunks[0].mesh.vertices.clone();
    let chunk_indices = chunks[0].mesh.indices.clone();
    assert!(!chunk_vertices.is_empty());
    assert_eq!(chunk_vertices.len() % 4, 0);
    assert_eq!(chunk_indices.len() % 6, 0);
    let mut list = ChunkList::new(chunks);
    let merged = list.mesh();
    assert_eq!(merged.vertices, chunk_vertices);
    assert_eq!(merged.indices, chunk_indices);
}

#[test]
fn generate_chunks_is_deterministic() {
    let samples = perlin_samples(8, 8, 50.0, 42);
    let hf = HeightField::generate(8, 8, &samples, 0, 7);
    let a = generate_chunks(2, 4, 8, 4, 2, &hf);
    let b = generate_chunks(2, 4, 8, 4, 2, &hf);
    assert_eq!(a.len(), 4);
    for (ca, cb) in a.iter().zip(b.iter()) {
        assert_eq!(ca.position, cb.position);
        assert_eq!(ca.blocks, cb.blocks);
        assert_eq!(ca.mesh.vertices, cb.mesh.vertices);
        assert_eq!(ca.mesh.indices, cb.mesh.indices);
    }
}

#[test]
fn generate_chunks_lays_out_origins() {
    let samples: Vec<i64> = vec![0; 64];
    let hf = HeightField::generate(8, 8, &samples, 0, 3);
    let chunks = generate_chunks(2, 4, 4, 4, 2, &hf);
    assert_eq!(chunks.len(), 4);
    assert_eq!(chunks[0].position, Vec3i { x: 0, y: 0, z: 0 });
    assert_eq!(chunks[1].position, Vec3i { x: 0, y: 0, z: 4 });
    assert_eq!(chunks[2].position, Vec3i { x: 4, y: 0, z: 0 });
    assert_eq!(chunks[3].position, Vec3i { x: 4, y: 0, z: 4 });
}

#[test]
fn chunk_lookup_by_position() {
    let samples: Vec<i64> = vec![0; 64];
    let hf = HeightField::generate(8, 8, &samples, 0, 3);
    let chunks = generate_chunks(2, 4, 4, 4, 2, &hf);
    let mut list = ChunkList::new(chunks);
    let found = list.get_chunk(Vec3i { x: 4, y: 0, z: 0 });
    assert!(found.is_some());
    assert_eq!(found.unwrap().position, Vec3i { x: 4, y: 0, z: 0 });
    assert!(list.get_chunk(Vec3i { x: 1, y: 0, z: 0 }).is_none());

    // Mutable lookup hands back the same chunk and can change it in place.
    let target = Vec3i { x: 0, y: 0, z: 4 };
    let chunk = list.get_chunk_mut(target).unwrap();
    assert_eq!(chunk.position, target);
    chunk.blocks[0] = voxel_terrain::block::Block::new(
        BlockType::Stone,
        Vec3i { x: 0, y: 0, z: 8 },
    );
    assert_eq!(list.chunks[1].blocks[0].block_type, BlockType::Stone);
    assert!(list.get_chunk_mut(Vec3i { x: 9, y: 9, z: 9 }).is_none());
}

#[test]
fn merged_mesh_is_memoized_until_cleared() {
    let samples: Vec<i64> = vec![0; 16];
    let hf = HeightField::generate(4, 4, &samples, 0, 3);
    let chunks = generate_chunks(1, 4, 4, 4, 2, &hf);
    let mut list = ChunkList::new(chunks);
    let first_len = list.mesh().vertices.len();
    assert!(first_len > 0);

    // Adding a chunk does not invalidate the memoized mesh.
    let mut extra = Chunk::new(Vec3i { x: 100, y: 0, z: 0 }, 1, 1, 1);
    extra.blocks[0] = voxel_terrain::block::Block::new(
        BlockType::Stone,
        Vec3i { x: 200, y: 0, z: 0 },
    );
    extra.generate_mesh();
    list.add_chunk(extra);
    assert_eq!(list.mesh().vertices.len(), first_len);

    // Clearing the cache forces a fresh merge that sees the new chunk.
    list.clear_mesh_cache();
    assert_eq!(list.mesh().vertices.len(), first_len + 24);
}
