use voxel_forge::block::Block;
use voxel_forge::texture_atlas::{TextureAtlas, ATLAS_COLUMNS, ATLAS_ROWS, ATLAS_SIZE, TEXTURE_SIZE};

#[test]
fn atlas_positions_are_unique() {
    let mut positions = std::collections::HashSet::new();
    for id in 0..=17u16 {
        if let Some(block) = Block::from_id(id) {
            let pos = TextureAtlas::block_atlas_position(block);
            assert!(positions.insert(pos), "Duplicate position for block {id}");
        }
    }
}

#[test]
fn atlas_positions_follow_identifier() {
    // column = id % 8, row = id / 8
    assert_eq!(TextureAtlas::block_atlas_position(Block::Air), (0, 0));
    assert_eq!(TextureAtlas::block_atlas_position(Block::Stone), (1, 0));
    assert_eq!(TextureAtlas::block_atlas_position(Block::Water), (1, 1));
    assert_eq!(TextureAtlas::block_atlas_position(Block::Bedrock), (1, 2));
}

#[test]
fn atlas_dimensions_hold_all_tiles() {
    assert_eq!(ATLAS_SIZE, TEXTURE_SIZE * ATLAS_COLUMNS);
    assert!(ATLAS_COLUMNS * ATLAS_ROWS >= 18);
}
