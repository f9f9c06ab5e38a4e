//! Texture atlas layout.
//!
//! The atlas is a fixed grid of square tiles, one tile per block type,
//! addressed by the block identifier. Only the layout lives here; painting
//! the pixels is a rendering concern and stays outside the core.

use vstd::prelude::*;
use crate::block::Block;

verus! {

/// Size of each texture tile in pixels.
pub const TEXTURE_SIZE: u32 = 16;

/// Number of textures per row in the atlas.
pub const ATLAS_COLUMNS: u32 = 8;

/// Number of texture rows in the atlas.
pub const ATLAS_ROWS: u32 = 4;

/// Total atlas width in pixels.
pub const ATLAS_SIZE: u32 = TEXTURE_SIZE * ATLAS_COLUMNS;

/// A texture atlas image containing all block textures.
pub struct TextureAtlas {
    /// RGBA pixel data.
    pub data: Vec<u8>,
    /// Width in pixels.
    pub width: u32,
    /// Height in pixels.
    pub height: u32,
}

impl TextureAtlas {
    /// The (column, row) tile each block type occupies, by identifier.
    pub open spec fn spec_block_atlas_position(block: Block) -> (u32, u32) {
        ((block.spec_id() % 8) as u32, (block.spec_id() / 8) as u32)
    }

    /// Returns the (column, row) position in the atlas for a block type.
    pub fn block_atlas_position(block: Block) -> (r: (u32, u32))
        ensures
            r == Self::spec_block_atlas_position(block),
    {
        let id = block.id() as u32;
        (id % ATLAS_COLUMNS, id / ATLAS_COLUMNS)
    }
}

} // verus!
