use voxel_forge::block::Block;
use voxel_forge::chunk::{Chunk, ChunkPos};
use voxel_forge::mesh::{generate_test_cube, ChunkMesh, Face, MeshGenerator};

/// Checks that every triangle winds outward: the cross product of its first
/// two edges points along the normal stored on its first vertex.
fn assert_winding_outward(mesh: &ChunkMesh, label: &str) {
    for i in (0..mesh.indices.len()).step_by(3) {
        let i0 = mesh.indices[i] as usize;
        let i1 = mesh.indices[i + 1] as usize;
        let i2 = mesh.indices[i + 2] as usize;

        let v0 = mesh.vertices[i0].position.map(i64::from);
        let v1 = mesh.vertices[i1].position.map(i64::from);
        let v2 = mesh.vertices[i2].position.map(i64::from);

        // Edge vectors
        let e1 = [v1[0] - v0[0], v1[1] - v0[1], v1[2] - v0[2]];
        let e2 = [v2[0] - v0[0], v2[1] - v0[1], v2[2] - v0[2]];

        // Cross product (gives face normal direction)
        let cross = [
            e1[1] * e2[2] - e1[2] * e2[1],
            e1[2] * e2[0] - e1[0] * e2[2],
            e1[0] * e2[1] - e1[1] * e2[0],
        ];

        // Should point same direction as stored normal (dot > 0)
        let stored_normal = mesh.vertices[i0].normal.map(i64::from);
        let dot =
            cross[0] * stored_normal[0] + cross[1] * stored_normal[1] + cross[2] * stored_normal[2];

        assert!(
            dot > 0,
            "{label} triangle {}: winding produces normal opposite to stored normal. \
             Cross: {:?}, Stored: {:?}, Dot: {}",
            i / 3,
            cross,
            stored_normal,
            dot
        );
    }
}

#[test]
fn test_cube_has_correct_geometry() {
    let mesh = generate_test_cube(Block::Stone);

    // 6 faces * 4 vertices = 24 vertices
    assert_eq!(mesh.vertices.len(), 24);

    // 6 faces * 2 triangles * 3 indices = 36 indices
    assert_eq!(mesh.indices.len(), 36);

    // 12 triangles total
    assert_eq!(mesh.triangle_count(), 12);
}

#[test]
fn empty_chunk_produces_empty_mesh() {
    let chunk = Chunk::new(ChunkPos::new(0, 0));
    let generator = MeshGenerator::new(chunk);
    let mesh = generator.generate();

    assert!(mesh.is_empty());
}

#[test]
fn single_block_produces_faces() {
    let mut chunk = Chunk::new(ChunkPos::new(0, 0));
    chunk.set_block(8, 100, 8, Block::Stone);

    let generator = MeshGenerator::new(chunk);
    let mesh = generator.generate();

    // Single exposed block should have 6 faces * 4 vertices = 24 vertices
    assert_eq!(mesh.vertices.len(), 24);
    assert_eq!(mesh.indices.len(), 36);
}

#[test]
fn greedy_meshing_reduces_triangles() {
    let mut chunk = Chunk::new(ChunkPos::new(0, 0));

    // Create a 4x4 flat surface of stone at y=64
    for x in 0..4 {
        for z in 0..4 {
            chunk.set_block(x, 64, z, Block::Stone);
        }
    }

    let generator = MeshGenerator::new(chunk);
    let mesh = generator.generate();

    // Without greedy meshing: 16 blocks * 6 faces * 2 triangles = 192
    // triangles; with it, far fewer, since the top and bottom faces merge
    // into one quad each and the sides into strips.
    let naive_triangles = 16 * 6 * 2; // 192
    assert!(
        mesh.triangle_count() < naive_triangles / 2,
        "Greedy should produce <50% of naive triangles. Got {} vs naive {}",
        mesh.triangle_count(),
        naive_triangles
    );
}

#[test]
fn adjacent_same_blocks_merge() {
    let mut chunk = Chunk::new(ChunkPos::new(0, 0));

    // Create a line of 8 blocks
    for x in 0..8 {
        chunk.set_block(x, 64, 4, Block::Stone);
    }

    let generator = MeshGenerator::new(chunk);
    let mesh = generator.generate();

    // With greedy meshing, this should produce far fewer triangles
    // than 8 separate cubes
    let naive_triangles = 8 * 6 * 2; // 96 triangles for 8 cubes
    assert!(
        mesh.triangle_count() < naive_triangles / 2,
        "Line of blocks should merge. Got {} triangles",
        mesh.triangle_count()
    );
}

#[test]
fn different_blocks_dont_merge() {
    let mut chunk = Chunk::new(ChunkPos::new(0, 0));

    // Alternating block types
    chunk.set_block(0, 64, 0, Block::Stone);
    chunk.set_block(1, 64, 0, Block::Dirt);
    chunk.set_block(2, 64, 0, Block::Stone);
    chunk.set_block(3, 64, 0, Block::Dirt);

    let generator = MeshGenerator::new(chunk);
    let mesh = generator.generate();

    // Different blocks shouldn't merge, so should have more faces
    assert!(!mesh.is_empty());
}

#[test]
fn alternating_types_emit_separate_top_quads() {
    // An alternating-type row of four blocks must not merge: each block
    // keeps its own top quad, so four upward quads (eight upward
    // triangles) are emitted instead of one.
    let mut chunk = Chunk::new(ChunkPos::new(0, 0));
    chunk.set_block(0, 64, 0, Block::Stone);
    chunk.set_block(1, 64, 0, Block::Dirt);
    chunk.set_block(2, 64, 0, Block::Stone);
    chunk.set_block(3, 64, 0, Block::Dirt);

    let mesh = MeshGenerator::new(chunk).generate();
    let mut up_triangles = 0;
    for i in (0..mesh.indices.len()).step_by(3) {
        let v = &mesh.vertices[mesh.indices[i] as usize];
        if v.normal == [0, 1, 0] {
            up_triangles += 1;
        }
    }
    assert_eq!(up_triangles, 8);
}

#[test]
fn flat_layer_top_merges_to_one_quad() {
    // A flat NxN layer of one type collapses its whole top face into one
    // quad, and the local tiling coordinates of that quad span the layer.
    let n = 5;
    let mut chunk = Chunk::new(ChunkPos::new(0, 0));
    for x in 0..n {
        for z in 0..n {
            chunk.set_block(x, 64, z, Block::Grass);
        }
    }
    let mesh = MeshGenerator::new(chunk).generate();

    let mut up_triangles = 0;
    let mut max_uv = [0u32; 2];
    for i in (0..mesh.indices.len()).step_by(3) {
        let v = &mesh.vertices[mesh.indices[i] as usize];
        if v.normal == [0, 1, 0] {
            up_triangles += 1;
        }
    }
    for v in &mesh.vertices {
        if v.normal == [0, 1, 0] {
            max_uv[0] = max_uv[0].max(v.local_uv[0]);
            max_uv[1] = max_uv[1].max(v.local_uv[1]);
        }
    }
    assert_eq!(up_triangles, 2);
    assert_eq!(max_uv, [n as u32, n as u32]);
}

#[test]
fn meshing_twice_gives_identical_meshes() {
    // Meshing the same unmodified chunk twice produces meshes with
    // identical vertex and triangle counts and identical geometry.
    let mut chunk = Chunk::new(ChunkPos::new(2, -3));
    chunk.fill_test_pattern();
    chunk.set_block(3, 70, 9, Block::Log);

    let mesh1 = MeshGenerator::new(chunk.clone()).generate();
    let mesh2 = MeshGenerator::new(chunk).generate();

    assert_eq!(mesh1.vertices.len(), mesh2.vertices.len());
    assert_eq!(mesh1.triangle_count(), mesh2.triangle_count());
    assert_eq!(mesh1.vertices, mesh2.vertices);
    assert_eq!(mesh1.indices, mesh2.indices);
}

#[test]
fn face_normals_are_unit_vectors() {
    for face in Face::all() {
        let normal = face.normal();
        let length_sq: i64 = normal.iter().map(|c| i64::from(*c) * i64::from(*c)).sum();
        assert_eq!(length_sq, 1);
    }
}

#[test]
fn triangle_winding_is_ccw_for_front_faces() {
    // Generate a simple cube and verify winding order
    let mesh = generate_test_cube(Block::Stone);
    assert_winding_outward(&mesh, "cube");
}

#[test]
fn greedy_mesh_winding_is_ccw() {
    // Test greedy meshing also produces correct winding
    let mut chunk = Chunk::new(ChunkPos::new(0, 0));
    chunk.set_block(8, 64, 8, Block::Stone);

    let generator = MeshGenerator::new(chunk);
    let mesh = generator.generate();
    assert_winding_outward(&mesh, "greedy");
}

#[test]
fn full_terrain_winding_is_outward() {
    let mut chunk = Chunk::new(ChunkPos::new(-1, 1));
    chunk.fill_test_pattern();
    let mesh = MeshGenerator::new(chunk).generate();
    assert!(!mesh.is_empty());
    assert_winding_outward(&mesh, "terrain");
}

#[test]
fn hidden_faces_are_not_emitted() {
    // Two solid stone blocks side by side share a hidden face: the pair
    // emits 10 quads, not 12.
    let mut chunk = Chunk::new(ChunkPos::new(0, 0));
    chunk.set_block(4, 64, 4, Block::Stone);
    chunk.set_block(5, 64, 4, Block::Stone);
    let mesh = MeshGenerator::new(chunk).generate();
    // The two top faces merge, the two bottom faces merge, the two long
    // sides merge: 1 top + 1 bottom + 2 long sides + 2 end caps = 6 quads.
    assert_eq!(mesh.triangle_count(), 12);
    assert_eq!(mesh.vertices.len(), 24);
}

#[test]
fn mesh_world_offset_applies() {
    // Geometry is offset into world space by the chunk's block origin.
    let mut chunk = Chunk::new(ChunkPos::new(2, -1));
    chunk.set_block(0, 10, 0, Block::Stone);
    let mesh = MeshGenerator::new(chunk).generate();
    assert!(mesh.vertices.iter().all(|v| 32 <= v.position[0] && v.position[0] <= 33));
    assert!(mesh.vertices.iter().all(|v| -16 <= v.position[2] && v.position[2] <= -15));
}

#[test]
fn transparent_neighbor_shows_face() {
    // A face against glass is emitted; a face against stone is not.
    let mut chunk = Chunk::new(ChunkPos::new(0, 0));
    chunk.set_block(4, 64, 4, Block::Stone);
    chunk.set_block(5, 64, 4, Block::Glass);
    let mesh = MeshGenerator::new(chunk).generate();
    // The stone block keeps all six faces (its +X neighbor is transparent
    // glass); the glass block keeps five (its -X neighbor is opaque stone).
    assert_eq!(mesh.vertices.len(), (6 + 5) * 4);
}

#[test]
fn atlas_uv_carries_block_tile() {
    let mesh = generate_test_cube(Block::Water);
    // Water has identifier 9: tile column 1, row 1 of the 8-column atlas.
    for v in &mesh.vertices {
        assert_eq!(v.atlas_uv, [1, 1]);
    }
}

#[test]
fn corner_block_keeps_all_faces() {
    // Chunk-boundary faces are always drawn: a block in the extreme corner
    // still emits all six faces.
    let mut chunk = Chunk::new(ChunkPos::new(0, 0));
    chunk.set_block(15, 255, 15, Block::Stone);
    let mesh = MeshGenerator::new(chunk).generate();
    assert_eq!(mesh.vertices.len(), 24);
    assert_eq!(mesh.indices.len(), 36);
    assert_winding_outward(&mesh, "corner");
}

#[test]
fn transparent_slab_keeps_one_quad_per_layer() {
    // Merging is per depth slice only. In a two-layer glass slab every
    // upward face is visible (glass neighbors are transparent), and the two
    // layers' upward faces lie in different slices, so each layer keeps its
    // own merged quad instead of one quad spanning the thickness.
    let mut chunk = Chunk::new(ChunkPos::new(0, 0));
    for x in 0..4 {
        for z in 0..4 {
            chunk.set_block(x, 64, z, Block::Glass);
            chunk.set_block(x, 65, z, Block::Glass);
        }
    }
    let mesh = MeshGenerator::new(chunk).generate();
    let mut up_triangles = 0;
    for i in (0..mesh.indices.len()).step_by(3) {
        let v = &mesh.vertices[mesh.indices[i] as usize];
        if v.normal == [0, 1, 0] {
            up_triangles += 1;
        }
    }
    assert_eq!(up_triangles, 4);
}
