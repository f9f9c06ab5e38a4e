use voxel_forge::block::Block;
use voxel_forge::chunk::{Chunk, ChunkPos, ChunkSection, SECTION_SIZE, SECTION_VOLUME};
use voxel_forge::{CHUNK_HEIGHT, CHUNK_SIZE};

#[test]
fn chunk_constants_are_valid() {
    assert!(CHUNK_SIZE > 0);
    assert!(CHUNK_HEIGHT > 0);
}

#[test]
fn section_index_calculation() {
    // Test corner cases
    assert_eq!(ChunkSection::index(0, 0, 0), 0);
    assert_eq!(ChunkSection::index(15, 0, 0), 15);
    assert_eq!(ChunkSection::index(0, 0, 15), 15 * 16);
    assert_eq!(ChunkSection::index(0, 15, 0), 15 * 16 * 16);
    assert_eq!(ChunkSection::index(15, 15, 15), SECTION_VOLUME - 1);
}

#[test]
fn section_get_set() {
    let mut section = ChunkSection::new();

    assert_eq!(section.get(5, 5, 5), Block::Air);
    assert!(section.is_empty());

    section.set(5, 5, 5, Block::Stone);
    assert_eq!(section.get(5, 5, 5), Block::Stone);
    assert!(!section.is_empty());
    assert_eq!(section.solid_count(), 1);

    section.set(5, 5, 5, Block::Air);
    assert_eq!(section.get(5, 5, 5), Block::Air);
    assert!(section.is_empty());
}

#[test]
fn section_filled() {
    let section = ChunkSection::filled(Block::Stone);
    assert_eq!(section.solid_count(), SECTION_VOLUME as u32);
    assert_eq!(section.get(0, 0, 0), Block::Stone);
    assert_eq!(section.get(15, 15, 15), Block::Stone);
}

#[test]
fn chunk_pos_from_block() {
    assert_eq!(ChunkPos::from_block(0, 0), ChunkPos::new(0, 0));
    assert_eq!(ChunkPos::from_block(15, 15), ChunkPos::new(0, 0));
    assert_eq!(ChunkPos::from_block(16, 0), ChunkPos::new(1, 0));
    assert_eq!(ChunkPos::from_block(-1, 0), ChunkPos::new(-1, 0));
    assert_eq!(ChunkPos::from_block(-16, 0), ChunkPos::new(-1, 0));
    assert_eq!(ChunkPos::from_block(-17, 0), ChunkPos::new(-2, 0));
}

#[test]
fn chunk_get_set_block() {
    let mut chunk = Chunk::new(ChunkPos::new(0, 0));

    assert_eq!(chunk.get_block(5, 100, 5), Block::Air);

    chunk.set_block(5, 100, 5, Block::Stone);
    assert_eq!(chunk.get_block(5, 100, 5), Block::Stone);
    assert!(chunk.is_dirty());

    chunk.mark_clean();
    assert!(!chunk.is_dirty());

    chunk.set_block(5, 100, 5, Block::Air);
    assert!(chunk.is_dirty());
}

#[test]
fn chunk_lazy_section_creation() {
    let mut chunk = Chunk::new(ChunkPos::new(0, 0));

    // Setting air shouldn't create a section
    chunk.set_block(5, 100, 5, Block::Air);
    assert!(chunk.get_section(100 / SECTION_SIZE).is_none());

    // Setting stone should create a section
    chunk.set_block(5, 100, 5, Block::Stone);
    assert!(chunk.get_section(100 / SECTION_SIZE).is_some());

    // Removing the block should remove the section
    chunk.set_block(5, 100, 5, Block::Air);
    assert!(chunk.get_section(100 / SECTION_SIZE).is_none());
}

#[test]
fn chunk_block_origin() {
    let pos = ChunkPos::new(3, -2);
    let (bx, bz) = pos.block_origin();
    assert_eq!(bx, 48);
    assert_eq!(bz, -32);
}

#[test]
fn chunk_pos_neighbors() {
    let pos = ChunkPos::new(5, 10);
    let neighbors = pos.neighbors();

    assert!(neighbors.contains(&ChunkPos::new(6, 10))); // +X
    assert!(neighbors.contains(&ChunkPos::new(4, 10))); // -X
    assert!(neighbors.contains(&ChunkPos::new(5, 11))); // +Z
    assert!(neighbors.contains(&ChunkPos::new(5, 9))); // -Z
    assert_eq!(neighbors.len(), 4);
}

#[test]
fn section_iterator() {
    let mut section = ChunkSection::new();
    section.set(1, 2, 3, Block::Stone);
    section.set(5, 5, 5, Block::Dirt);

    let blocks: Vec<_> = section.iter().into_iter().filter(|(_, _, _, b)| !b.is_air()).collect();
    assert_eq!(blocks.len(), 2);

    // Check specific positions
    assert!(
        blocks
            .iter()
            .any(|(x, y, z, b)| *x == 1 && *y == 2 && *z == 3 && *b == Block::Stone)
    );
    assert!(
        blocks
            .iter()
            .any(|(x, y, z, b)| *x == 5 && *y == 5 && *z == 5 && *b == Block::Dirt)
    );
}

#[test]
fn section_blocks_reference() {
    let section = ChunkSection::filled(Block::Grass);
    let blocks = section.blocks();
    assert_eq!(blocks.len(), SECTION_VOLUME);
    assert_eq!(blocks[0], Block::Grass);
}

#[test]
fn chunk_multiple_sections() {
    let mut chunk = Chunk::new(ChunkPos::new(0, 0));

    // Set blocks in different sections
    chunk.set_block(0, 0, 0, Block::Bedrock); // Section 0
    chunk.set_block(0, 16, 0, Block::Stone); // Section 1
    chunk.set_block(0, 64, 0, Block::Grass); // Section 4
    chunk.set_block(0, 255, 0, Block::Glass); // Section 15

    assert_eq!(chunk.get_block(0, 0, 0), Block::Bedrock);
    assert_eq!(chunk.get_block(0, 16, 0), Block::Stone);
    assert_eq!(chunk.get_block(0, 64, 0), Block::Grass);
    assert_eq!(chunk.get_block(0, 255, 0), Block::Glass);

    // Intermediate sections should still be empty
    assert!(chunk.get_section(2).is_none());
    assert!(chunk.get_section(3).is_none());
}

#[test]
fn chunk_test_pattern_creates_terrain() {
    let mut chunk = Chunk::new(ChunkPos::new(0, 0));
    chunk.fill_test_pattern();

    // Should have bedrock at bottom
    assert_eq!(chunk.get_block(0, 0, 0), Block::Bedrock);
    assert_eq!(chunk.get_block(8, 0, 8), Block::Bedrock);

    // Should have stone below surface
    assert_eq!(chunk.get_block(0, 30, 0), Block::Stone);

    // Should have grass at surface
    assert_eq!(chunk.get_block(0, 64, 0), Block::Grass);

    // Should have air above surface
    assert_eq!(chunk.get_block(0, 65, 0), Block::Air);
}

#[test]
fn chunk_dirty_flag() {
    let mut chunk = Chunk::new(ChunkPos::new(0, 0));

    // New chunks start dirty
    assert!(chunk.is_dirty());

    chunk.mark_clean();
    assert!(!chunk.is_dirty());

    chunk.mark_dirty();
    assert!(chunk.is_dirty());
}

#[test]
fn section_solid_count_accuracy() {
    let mut section = ChunkSection::new();

    // Add 10 blocks
    for i in 0..10 {
        section.set(i, 0, 0, Block::Stone);
    }
    assert_eq!(section.solid_count(), 10);

    // Replace one with different block (should stay same count)
    section.set(0, 0, 0, Block::Dirt);
    assert_eq!(section.solid_count(), 10);

    // Remove 5 blocks
    for i in 0..5 {
        section.set(i, 0, 0, Block::Air);
    }
    assert_eq!(section.solid_count(), 5);
}

#[test]
fn chunk_position_equality() {
    let pos1 = ChunkPos::new(5, -3);
    let pos2 = ChunkPos::new(5, -3);
    let pos3 = ChunkPos::new(5, -4);

    assert_eq!(pos1, pos2);
    assert_ne!(pos1, pos3);
}

#[test]
fn section_default_is_empty() {
    let section = ChunkSection::default();
    assert!(section.is_empty());
    assert_eq!(section.solid_count(), 0);
}

#[test]
fn solid_count_matches_full_scan() {
    // The cached solid count always equals what a full scan over the raw
    // block data finds, after any sequence of writes.
    let mut section = ChunkSection::new();
    let writes = [
        (0, 0, 0, Block::Stone),
        (1, 2, 3, Block::Dirt),
        (1, 2, 3, Block::Air),
        (15, 15, 15, Block::Glass),
        (0, 0, 0, Block::Air),
        (7, 7, 7, Block::Water),
        (7, 7, 7, Block::Water),
        (3, 1, 4, Block::Leaves),
    ];
    for (x, y, z, b) in writes {
        section.set(x, y, z, b);
        let scanned = section.blocks().iter().filter(|b| **b != Block::Air).count();
        assert_eq!(section.solid_count() as usize, scanned);
    }
}

#[test]
fn dirty_not_raised_by_no_op_write() {
    // Writing the value a cell already holds changes nothing, so it does
    // not raise the dirty flag.
    let mut chunk = Chunk::new(ChunkPos::new(0, 0));
    chunk.set_block(4, 40, 4, Block::Stone);
    chunk.mark_clean();
    chunk.set_block(4, 40, 4, Block::Stone);
    assert!(!chunk.is_dirty());
    chunk.set_block(4, 40, 4, Block::Dirt);
    assert!(chunk.is_dirty());
}
