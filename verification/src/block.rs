//! Block types and their derived properties.
//!
//! Every block type is a closed enumeration with a stable small integer
//! identifier; its physical properties (solidity, transparency, liquidity,
//! breakability, light emission) and display color are pure functions of
//! the type.

use vstd::prelude::*;

verus! {

/// Unique identifier for a block type.
pub type BlockId = u16;

/// Block type enumeration.
///
/// Each variant represents a different block type in the game.
#[derive(Debug, Clone, Copy, PartialEq, Eq, Hash, Structural)]
pub enum Block {
    /// Empty space (air).
    Air,
    /// Basic stone block.
    Stone,
    /// Dirt block.
    Dirt,
    /// Grass block (dirt with grass on top).
    Grass,
    /// Sand block.
    Sand,
    /// Gravel block.
    Gravel,
    /// Wood log block.
    Log,
    /// Leaves block (transparent).
    Leaves,
    /// Glass block (transparent).
    Glass,
    /// Water block (transparent, liquid).
    Water,
    /// Cobblestone block.
    Cobblestone,
    /// Wooden planks.
    Planks,
    /// Brick block.
    Bricks,
    /// Coal ore.
    CoalOre,
    /// Iron ore.
    IronOre,
    /// Gold ore.
    GoldOre,
    /// Diamond ore.
    DiamondOre,
    /// Bedrock (unbreakable).
    Bedrock,
}

impl Default for Block {
    /// The default block is air.
    fn default() -> (r: Self)
        ensures
            r == Block::Air,
    {
        Block::Air
    }
}

impl Block {
    /// The identifier of each block type.
    pub open spec fn spec_id(self) -> BlockId {
        match self {
            Block::Air => 0,
            Block::Stone => 1,
            Block::Dirt => 2,
            Block::Grass => 3,
            Block::Sand => 4,
            Block::Gravel => 5,
            Block::Log => 6,
            Block::Leaves => 7,
            Block::Glass => 8,
            Block::Water => 9,
            Block::Cobblestone => 10,
            Block::Planks => 11,
            Block::Bricks => 12,
            Block::CoalOre => 13,
            Block::IronOre => 14,
            Block::GoldOre => 15,
            Block::DiamondOre => 16,
            Block::Bedrock => 17,
        }
    }

    /// The block type a given identifier denotes, if any.
    pub open spec fn spec_from_id(id: BlockId) -> Option<Block> {
        if id == 0 {
            Some(Block::Air)
        } else if id == 1 {
            Some(Block::Stone)
        } else if id == 2 {
            Some(Block::Dirt)
        } else if id == 3 {
            Some(Block::Grass)
        } else if id == 4 {
            Some(Block::Sand)
        } else if id == 5 {
            Some(Block::Gravel)
        } else if id == 6 {
            Some(Block::Log)
        } else if id == 7 {
            Some(Block::Leaves)
        } else if id == 8 {
            Some(Block::Glass)
        } else if id == 9 {
            Some(Block::Water)
        } else if id == 10 {
            Some(Block::Cobblestone)
        } else if id == 11 {
            Some(Block::Planks)
        } else if id == 12 {
            Some(Block::Bricks)
        } else if id == 13 {
            Some(Block::CoalOre)
        } else if id == 14 {
            Some(Block::IronOre)
        } else if id == 15 {
            Some(Block::GoldOre)
        } else if id == 16 {
            Some(Block::DiamondOre)
        } else if id == 17 {
            Some(Block::Bedrock)
        } else {
            None
        }
    }

    /// Returns the block ID as a u16.
    pub fn id(self) -> (r: BlockId)
        ensures
            r == self.spec_id(),
    {
        match self {
            Block::Air => 0,
            Block::Stone => 1,
            Block::Dirt => 2,
            Block::Grass => 3,
            Block::Sand => 4,
            Block::Gravel => 5,
            Block::Log => 6,
            Block::Leaves => 7,
            Block::Glass => 8,
            Block::Water => 9,
            Block::Cobblestone => 10,
            Block::Planks => 11,
            Block::Bricks => 12,
            Block::CoalOre => 13,
            Block::IronOre => 14,
            Block::GoldOre => 15,
            Block::DiamondOre => 16,
            Block::Bedrock => 17,
        }
    }

    /// Creates a block from its ID; identifiers past the last block type
    /// denote no block.
    pub fn from_id(id: BlockId) -> (r: Option<Block>)
        ensures
            r == Block::spec_from_id(id),
    {
        match id {
            0 => Some(Block::Air),
            1 => Some(Block::Stone),
            2 => Some(Block::Dirt),
            3 => Some(Block::Grass),
            4 => Some(Block::Sand),
            5 => Some(Block::Gravel),
            6 => Some(Block::Log),
            7 => Some(Block::Leaves),
            8 => Some(Block::Glass),
            9 => Some(Block::Water),
            10 => Some(Block::Cobblestone),
            11 => Some(Block::Planks),
            12 => Some(Block::Bricks),
            13 => Some(Block::CoalOre),
            14 => Some(Block::IronOre),
            15 => Some(Block::GoldOre),
            16 => Some(Block::DiamondOre),
            17 => Some(Block::Bedrock),
            _ => None,
        }
    }

    /// The properties of each block type.
    pub open spec fn spec_properties(self) -> BlockProperties {
        match self {
            Block::Air => BlockProperties::spec_air(),
            Block::Stone => BlockProperties::spec_solid(),
            Block::Dirt => BlockProperties::spec_solid(),
            Block::Grass => BlockProperties::spec_solid(),
            Block::Sand => BlockProperties::spec_solid(),
            Block::Gravel => BlockProperties::spec_solid(),
            Block::Log => BlockProperties::spec_solid(),
            Block::Leaves => BlockProperties::spec_transparent(),
            Block::Glass => BlockProperties::spec_transparent(),
            Block::Water => BlockProperties::spec_liquid(),
            Block::Cobblestone => BlockProperties::spec_solid(),
            Block::Planks => BlockProperties::spec_solid(),
            Block::Bricks => BlockProperties::spec_solid(),
            Block::CoalOre => BlockProperties::spec_solid(),
            Block::IronOre => BlockProperties::spec_solid(),
            Block::GoldOre => BlockProperties::spec_solid(),
            Block::DiamondOre => BlockProperties::spec_solid(),
            Block::Bedrock => BlockProperties::spec_unbreakable(),
        }
    }

    /// Returns the properties for this block type.
    pub fn properties(self) -> (r: BlockProperties)
        ensures
            r == self.spec_properties(),
    {
        match self {
            Block::Air => BlockProperties::air(),
            Block::Stone => BlockProperties::solid(),
            Block::Dirt => BlockProperties::solid(),
            Block::Grass => BlockProperties::solid(),
            Block::Sand => BlockProperties::solid(),
            Block::Gravel => BlockProperties::solid(),
            Block::Log => BlockProperties::solid(),
            Block::Leaves => BlockProperties::transparent(),
            Block::Glass => BlockProperties::transparent(),
            Block::Water => BlockProperties::liquid(),
            Block::Cobblestone => BlockProperties::solid(),
            Block::Planks => BlockProperties::solid(),
            Block::Bricks => BlockProperties::solid(),
            Block::CoalOre => BlockProperties::solid(),
            Block::IronOre => BlockProperties::solid(),
            Block::GoldOre => BlockProperties::solid(),
            Block::DiamondOre => BlockProperties::solid(),
            Block::Bedrock => BlockProperties::unbreakable(),
        }
    }

    /// Returns true if this block is solid (blocks movement and light).
    pub fn is_solid(self) -> (r: bool)
        ensures
            r == self.spec_properties().is_solid,
    {
        self.properties().is_solid
    }

    /// Returns true if this block is transparent (light passes through).
    pub fn is_transparent(self) -> (r: bool)
        ensures
            r == self.spec_properties().is_transparent,
    {
        self.properties().is_transparent
    }

    /// Returns true if this block is air (empty space).
    pub fn is_air(self) -> (r: bool)
        ensures
            r == (self == Block::Air),
    {
        matches!(self, Block::Air)
    }

    /// The display color of each block type, as red, green and blue in
    /// hundredths of full intensity.
    pub open spec fn spec_color(self) -> [u8; 3] {
        match self {
            Block::Air => [0, 0, 0],
            Block::Stone => [50, 50, 50],
            Block::Dirt => [55, 35, 20],
            Block::Grass => [30, 60, 20],
            Block::Sand => [90, 85, 60],
            Block::Gravel => [55, 55, 55],
            Block::Log => [40, 25, 10],
            Block::Leaves => [20, 50, 15],
            Block::Glass => [80, 90, 100],
            Block::Water => [20, 40, 80],
            Block::Cobblestone => [45, 45, 45],
            Block::Planks => [70, 50, 30],
            Block::Bricks => [60, 30, 25],
            Block::CoalOre => [30, 30, 30],
            Block::IronOre => [60, 55, 50],
            Block::GoldOre => [90, 80, 30],
            Block::DiamondOre => [40, 80, 90],
            Block::Bedrock => [20, 20, 20],
        }
    }

    /// Returns the display color for this block, as red, green and blue in
    /// hundredths of full intensity (100 = 1.0).
    pub fn color(self) -> (r: [u8; 3])
        ensures
            r == self.spec_color(),
    {
        match self {
            Block::Air => [0, 0, 0],
            Block::Stone => [50, 50, 50],
            Block::Dirt => [55, 35, 20],
            Block::Grass => [30, 60, 20],
            Block::Sand => [90, 85, 60],
            Block::Gravel => [55, 55, 55],
            Block::Log => [40, 25, 10],
            Block::Leaves => [20, 50, 15],
            Block::Glass => [80, 90, 100],
            Block::Water => [20, 40, 80],
            Block::Cobblestone => [45, 45, 45],
            Block::Planks => [70, 50, 30],
            Block::Bricks => [60, 30, 25],
            Block::CoalOre => [30, 30, 30],
            Block::IronOre => [60, 55, 50],
            Block::GoldOre => [90, 80, 30],
            Block::DiamondOre => [40, 80, 90],
            Block::Bedrock => [20, 20, 20],
        }
    }
}

/// Every defined identifier round-trips: reading a block type back from its
/// own identifier yields that same block type, and identifiers past the last
/// block type yield none.
pub proof fn lemma_block_id_roundtrip(b: Block)
    ensures
        Block::spec_from_id(b.spec_id()) == Some(b),
        forall|id: BlockId| id > 17 ==> Block::spec_from_id(id) is None,
{
}

/// Properties that define block behavior.
#[derive(Debug, Clone, Copy, PartialEq, Eq, Structural)]
pub struct BlockProperties {
    /// Whether the block is solid (blocks movement).
    pub is_solid: bool,
    /// Whether the block is transparent (light passes through).
    pub is_transparent: bool,
    /// How strongly the block emits light (0-15).
    pub light_emission: u8,
    /// Whether the block can be broken.
    pub is_breakable: bool,
    /// Whether the block is a liquid.
    pub is_liquid: bool,
}

impl BlockProperties {
    /// Air properties - not solid, fully transparent.
    pub open spec fn spec_air() -> BlockProperties {
        BlockProperties {
            is_solid: false,
            is_transparent: true,
            light_emission: 0,
            is_breakable: false,
            is_liquid: false,
        }
    }

    /// Air properties - not solid, fully transparent.
    pub fn air() -> (r: Self)
        ensures
            r == Self::spec_air(),
    {
        BlockProperties {
            is_solid: false,
            is_transparent: true,
            light_emission: 0,
            is_breakable: false,
            is_liquid: false,
        }
    }

    /// Solid opaque block properties.
    pub open spec fn spec_solid() -> BlockProperties {
        BlockProperties {
            is_solid: true,
            is_transparent: false,
            light_emission: 0,
            is_breakable: true,
            is_liquid: false,
        }
    }

    /// Solid opaque block properties.
    pub fn solid() -> (r: Self)
        ensures
            r == Self::spec_solid(),
    {
        BlockProperties {
            is_solid: true,
            is_transparent: false,
            light_emission: 0,
            is_breakable: true,
            is_liquid: false,
        }
    }

    /// Transparent solid block properties (glass, leaves).
    pub open spec fn spec_transparent() -> BlockProperties {
        BlockProperties {
            is_solid: true,
            is_transparent: true,
            light_emission: 0,
            is_breakable: true,
            is_liquid: false,
        }
    }

    /// Transparent solid block properties (glass, leaves).
    pub fn transparent() -> (r: Self)
        ensures
            r == Self::spec_transparent(),
    {
        BlockProperties {
            is_solid: true,
            is_transparent: true,
            light_emission: 0,
            is_breakable: true,
            is_liquid: false,
        }
    }

    /// Liquid block properties.
    pub open spec fn spec_liquid() -> BlockProperties {
        BlockProperties {
            is_solid: false,
            is_transparent: true,
            light_emission: 0,
            is_breakable: false,
            is_liquid: true,
        }
    }

    /// Liquid block properties.
    pub fn liquid() -> (r: Self)
        ensures
            r == Self::spec_liquid(),
    {
        BlockProperties {
            is_solid: false,
            is_transparent: true,
            light_emission: 0,
            is_breakable: false,
            is_liquid: true,
        }
    }

    /// Unbreakable block properties (bedrock).
    pub open spec fn spec_unbreakable() -> BlockProperties {
        BlockProperties {
            is_solid: true,
            is_transparent: false,
            light_emission: 0,
            is_breakable: false,
            is_liquid: false,
        }
    }

    /// Unbreakable block properties (bedrock).
    pub fn unbreakable() -> (r: Self)
        ensures
            r == Self::spec_unbreakable(),
    {
        BlockProperties {
            is_solid: true,
            is_transparent: false,
            light_emission: 0,
            is_breakable: false,
            is_liquid: false,
        }
    }

    /// Returns these properties with the given light emission level.
    pub fn with_light(self, level: u8) -> (r: Self)
        ensures
            r == (BlockProperties { light_emission: level, ..self }),
    {
        BlockProperties { light_emission: level, ..self }
    }
}

} // verus!
