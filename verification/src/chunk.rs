//! Chunk data structures.
//!
//! A chunk is a 16x16 column of the world, divided into 16x16x16 sections.
//! Section slots are lazily allocated: an absent slot is exactly equivalent
//! to a section of all air, and a slot whose last non-air block is removed
//! is deallocated again.

use vstd::prelude::*;
use vstd::pervasive::VecAdditionalExecFns;
use crate::block::Block;

verus! {

/// Size of a chunk section in each dimension.
pub const SECTION_SIZE: usize = 16;

/// Number of blocks in a section.
pub const SECTION_VOLUME: usize = SECTION_SIZE * SECTION_SIZE * SECTION_SIZE;

/// Number of sections in a chunk (height = 256 blocks = 16 sections).
pub const SECTIONS_PER_CHUNK: usize = 16;

/// Total height of a chunk in blocks.
pub const CHUNK_HEIGHT: usize = SECTION_SIZE * SECTIONS_PER_CHUNK;

/// The flat-array position of local coordinates within a section.
pub open spec fn sec_index(x: int, y: int, z: int) -> int {
    x + z * 16 + y * 256
}

/// How many entries of a block sequence are not air.
pub open spec fn count_non_air(s: Seq<Block>) -> nat
    decreases s.len(),
{
    if s.len() == 0 {
        0
    } else {
        count_non_air(s.drop_last()) + (if s.last() == Block::Air {
            0nat
        } else {
            1nat
        })
    }
}

/// No sequence holds more non-air entries than entries.
pub proof fn lemma_count_non_air_le_len(s: Seq<Block>)
    ensures
        count_non_air(s) <= s.len(),
    decreases s.len(),
{
    if s.len() > 0 {
        lemma_count_non_air_le_len(s.drop_last());
    }
}

/// A sequence of one repeated block holds no non-air entry when that block
/// is air, and nothing but non-air entries otherwise.
pub proof fn lemma_count_non_air_const(s: Seq<Block>, b: Block)
    requires
        forall|i: int| 0 <= i < s.len() ==> s[i] == b,
    ensures
        count_non_air(s) == if b == Block::Air {
            0nat
        } else {
            s.len()
        },
    decreases s.len(),
{
    if s.len() > 0 {
        lemma_count_non_air_const(s.drop_last(), b);
    }
}

/// Replacing one entry changes the non-air count by the airness difference
/// of the old and new entry.
pub proof fn lemma_count_non_air_update(s: Seq<Block>, i: int, b: Block)
    requires
        0 <= i < s.len(),
    ensures
        count_non_air(s.update(i, b)) == count_non_air(s) - (if s[i] == Block::Air {
            0int
        } else {
            1int
        }) + (if b == Block::Air {
            0int
        } else {
            1int
        }),
    decreases s.len(),
{
    let t = s.update(i, b);
    if i == s.len() - 1 {
        assert(t.drop_last() =~= s.drop_last());
    } else {
        lemma_count_non_air_update(s.drop_last(), i, b);
        assert(t.drop_last() =~= s.drop_last().update(i, b));
    }
}

/// A sequence holds no non-air entry exactly when every entry is air.
pub proof fn lemma_count_non_air_zero(s: Seq<Block>)
    ensures
        (count_non_air(s) == 0) <==> (forall|i: int| 0 <= i < s.len() ==> s[i] == Block::Air),
    decreases s.len(),
{
    if s.len() > 0 {
        lemma_count_non_air_zero(s.drop_last());
        if count_non_air(s) == 0 {
            assert forall|i: int| 0 <= i < s.len() implies s[i] == Block::Air by {
                if i < s.len() - 1 {
                    assert(s[i] == s.drop_last()[i]);
                }
            }
        }
    }
}

/// A 16x16x16 section of blocks within a chunk.
#[derive(Clone)]
pub struct ChunkSection {
    /// Block data stored as a flat array.
    /// Index = x + z * 16 + y * 256
    blocks: Vec<Block>,
    /// Number of non-air blocks in this section.
    solid_count: u32,
}

impl ChunkSection {
    /// The stored block data, one entry per cell.
    pub closed spec fn spec_blocks(self) -> Seq<Block> {
        self.blocks@
    }

    /// The cached number of non-air blocks.
    pub closed spec fn spec_solid_count(self) -> u32 {
        self.solid_count
    }

    /// A section is well formed when it holds exactly one block per cell and
    /// its cached count equals the number of non-air cells.
    pub open spec fn wf(self) -> bool {
        &&& self.spec_blocks().len() == SECTION_VOLUME
        &&& self.spec_solid_count() == count_non_air(self.spec_blocks())
    }

    /// Creates a new empty (all air) section.
    pub fn new() -> (r: Self)
        ensures
            r.wf(),
            r.spec_blocks() =~= Seq::new(SECTION_VOLUME as nat, |i: int| Block::Air),
            r.spec_solid_count() == 0,
    {
        Self::filled(Block::Air)
    }

    /// Creates a section filled with the specified block.
    pub fn filled(block: Block) -> (r: Self)
        ensures
            r.wf(),
            r.spec_blocks() =~= Seq::new(SECTION_VOLUME as nat, |i: int| block),
            r.spec_solid_count() == if block == Block::Air {
                0int
            } else {
                SECTION_VOLUME as int
            },
    {
        let mut blocks: Vec<Block> = Vec::new();
        let mut i: usize = 0;
        while i < SECTION_VOLUME
            invariant
                i <= SECTION_VOLUME,
                blocks@.len() == i,
                forall|j: int| 0 <= j < i ==> blocks@[j] == block,
            decreases SECTION_VOLUME - i,
        {
            blocks.push(block);
            i += 1;
        }
        proof {
            lemma_count_non_air_const(blocks@, block);
        }
        let solid_count: u32 = if block.is_air() {
            0
        } else {
            4096
        };
        Self { blocks, solid_count }
    }

    /// Converts local coordinates to the flat-array index.
    pub fn index(x: usize, y: usize, z: usize) -> (r: usize)
        requires
            x < SECTION_SIZE,
            y < SECTION_SIZE,
            z < SECTION_SIZE,
        ensures
            r == sec_index(x as int, y as int, z as int),
    {
        x + z * SECTION_SIZE + y * SECTION_SIZE * SECTION_SIZE
    }

    /// Gets the block at the given local coordinates.
    pub fn get(&self, x: usize, y: usize, z: usize) -> (r: Block)
        requires
            self.wf(),
            x < SECTION_SIZE,
            y < SECTION_SIZE,
            z < SECTION_SIZE,
        ensures
            r == self.spec_blocks()[sec_index(x as int, y as int, z as int)],
    {
        self.blocks[x + z * SECTION_SIZE + y * SECTION_SIZE * SECTION_SIZE]
    }

    /// Sets the block at the given local coordinates, keeping the solid
    /// count in step with the stored data.
    pub fn set(&mut self, x: usize, y: usize, z: usize, block: Block)
        requires
            old(self).wf(),
            x < SECTION_SIZE,
            y < SECTION_SIZE,
            z < SECTION_SIZE,
        ensures
            final(self).wf(),
            final(self).spec_blocks() == old(self).spec_blocks().update(
                sec_index(x as int, y as int, z as int),
                block,
            ),
    {
        let idx = x + z * SECTION_SIZE + y * SECTION_SIZE * SECTION_SIZE;
        let old_block = self.blocks[idx];
        proof {
            lemma_count_non_air_le_len(self.blocks@);
            lemma_count_non_air_update(self.blocks@, idx as int, block);
        }
        if old_block.is_air() && !block.is_air() {
            self.solid_count = self.solid_count + 1;
        } else if !old_block.is_air() && block.is_air() {
            self.solid_count = self.solid_count - 1;
        }
        self.blocks.set(idx, block);
    }

    /// Returns true if this section is empty (all air).
    pub fn is_empty(&self) -> (r: bool)
        ensures
            r == (self.spec_solid_count() == 0),
    {
        self.solid_count == 0
    }

    /// Returns the number of non-air blocks.
    pub fn solid_count(&self) -> (r: u32)
        ensures
            r == self.spec_solid_count(),
    {
        self.solid_count
    }

    /// Returns a reference to the raw block data.
    pub fn blocks(&self) -> (r: &Vec<Block>)
        ensures
            r@ == self.spec_blocks(),
    {
        &self.blocks
    }

    /// Returns every cell of the section with its local coordinates, in
    /// storage order.
    pub fn iter(&self) -> (r: Vec<(usize, usize, usize, Block)>)
        requires
            self.wf(),
        ensures
            r@.len() == SECTION_VOLUME,
            forall|i: int|
                0 <= i < SECTION_VOLUME ==> #[trigger] r@[i] == (
                    (i % 16) as usize,
                    (i / 256) as usize,
                    ((i / 16) % 16) as usize,
                    self.spec_blocks()[i],
                ),
    {
        let mut r: Vec<(usize, usize, usize, Block)> = Vec::new();
        let mut i: usize = 0;
        while i < SECTION_VOLUME
            invariant
                self.wf(),
                i <= SECTION_VOLUME,
                r@.len() == i,
                forall|j: int|
                    0 <= j < i ==> #[trigger] r@[j] == (
                        (j % 16) as usize,
                        (j / 256) as usize,
                        ((j / 16) % 16) as usize,
                        self.spec_blocks()[j],
                    ),
            decreases SECTION_VOLUME - i,
        {
            let x = i % SECTION_SIZE;
            let z = (i / SECTION_SIZE) % SECTION_SIZE;
            let y = i / (SECTION_SIZE * SECTION_SIZE);
            r.push((x, y, z, self.blocks[i]));
            i += 1;
        }
        r
    }
}

impl Default for ChunkSection {
    /// The default section is empty.
    fn default() -> (r: Self)
        ensures
            r.wf(),
            r.spec_solid_count() == 0,
    {
        Self::new()
    }
}

/// Chunk position in the world (chunk coordinates, not block coordinates).
#[derive(Debug, Clone, Copy, PartialEq, Eq, Hash, Structural)]
pub struct ChunkPos {
    /// X coordinate (chunk units).
    pub x: i32,
    /// Z coordinate (chunk units).
    pub z: i32,
}

impl ChunkPos {
    /// Creates a new chunk position.
    pub fn new(x: i32, z: i32) -> (r: Self)
        ensures
            r.x == x,
            r.z == z,
    {
        Self { x, z }
    }

    /// Converts world block coordinates to the position of the chunk that
    /// contains them, dividing by the chunk width and rounding toward
    /// negative infinity.
    pub fn from_block(block_x: i32, block_z: i32) -> (r: Self)
        ensures
            16 * r.x <= block_x < 16 * r.x + 16,
            16 * r.z <= block_z < 16 * r.z + 16,
    {
        Self { x: floor_div_16(block_x), z: floor_div_16(block_z) }
    }

    /// Returns the world block coordinates of the chunk's origin (min corner).
    pub fn block_origin(&self) -> (r: (i32, i32))
        requires
            -134217728 <= self.x <= 134217727,
            -134217728 <= self.z <= 134217727,
        ensures
            r.0 == 16 * self.x,
            r.1 == 16 * self.z,
    {
        (self.x * 16, self.z * 16)
    }

    /// Returns the four horizontally neighboring chunk positions.
    pub fn neighbors(&self) -> (r: [ChunkPos; 4])
        requires
            i32::MIN < self.x < i32::MAX,
            i32::MIN < self.z < i32::MAX,
        ensures
            r@ =~= seq![
                ChunkPos { x: (self.x + 1) as i32, z: self.z },
                ChunkPos { x: (self.x - 1) as i32, z: self.z },
                ChunkPos { x: self.x, z: (self.z + 1) as i32 },
                ChunkPos { x: self.x, z: (self.z - 1) as i32 },
            ],
    {
        [
            ChunkPos { x: self.x + 1, z: self.z },
            ChunkPos { x: self.x - 1, z: self.z },
            ChunkPos { x: self.x, z: self.z + 1 },
            ChunkPos { x: self.x, z: self.z - 1 },
        ]
    }
}

/// Divides a block coordinate by the chunk width, rounding toward negative
/// infinity.
fn floor_div_16(a: i32) -> (r: i32)
    ensures
        16 * r <= a < 16 * r + 16,
{
    if a >= 0 {
        a / 16
    } else {
        let n = -(a as i64);
        let q = (n + 15) / 16;
        (-q) as i32
    }
}

/// A full chunk column containing multiple sections.
#[derive(Clone)]
pub struct Chunk {
    /// The position of this chunk in the world.
    position: ChunkPos,
    /// The sections in this chunk (bottom to top).
    sections: Vec<Option<ChunkSection>>,
    /// Whether the chunk mesh needs to be rebuilt.
    dirty: bool,
}

impl Chunk {
    /// The section slots, bottom to top.
    pub closed spec fn spec_sections(self) -> Seq<Option<ChunkSection>> {
        self.sections@
    }

    /// The position of this chunk.
    pub closed spec fn spec_position(self) -> ChunkPos {
        self.position
    }

    /// Whether the chunk has changed since its mesh was last built.
    pub closed spec fn spec_dirty(self) -> bool {
        self.dirty
    }

    /// A chunk is well formed when it holds one slot per section and every
    /// present section is well formed.
    pub open spec fn wf(self) -> bool {
        &&& self.spec_sections().len() == SECTIONS_PER_CHUNK
        &&& forall|i: int|
            0 <= i < SECTIONS_PER_CHUNK ==> ((#[trigger] self.spec_sections()[i]) matches Some(s)
                ==> s.wf())
    }

    /// The block stored at chunk-relative coordinates; an absent section
    /// slot reads as air.
    pub open spec fn spec_block_at(self, x: int, y: int, z: int) -> Block {
        match self.spec_sections()[y / 16] {
            None => Block::Air,
            Some(s) => s.spec_blocks()[sec_index(x, y % 16, z)],
        }
    }

    /// Creates a new empty chunk at the given position; new chunks start
    /// dirty so that they receive an initial mesh build.
    pub fn new(position: ChunkPos) -> (r: Self)
        ensures
            r.wf(),
            r.spec_position() == position,
            r.spec_dirty(),
            forall|i: int| 0 <= i < SECTIONS_PER_CHUNK ==> (#[trigger] r.spec_sections()[i]) is None,
    {
        let mut sections: Vec<Option<ChunkSection>> = Vec::new();
        let mut i: usize = 0;
        while i < SECTIONS_PER_CHUNK
            invariant
                i <= SECTIONS_PER_CHUNK,
                sections@.len() == i,
                forall|j: int| 0 <= j < i ==> (#[trigger] sections@[j]) is None,
            decreases SECTIONS_PER_CHUNK - i,
        {
            sections.push(None);
            i += 1;
        }
        Self { position, sections, dirty: true }
    }

    /// Returns the chunk position.
    pub fn position(&self) -> (r: ChunkPos)
        ensures
            r == self.spec_position(),
    {
        self.position
    }

    /// Gets the block at chunk-relative coordinates (0-15 for x/z, 0-255
    /// for y); an absent section slot reads as air.
    pub fn get_block(&self, x: usize, y: usize, z: usize) -> (r: Block)
        requires
            self.wf(),
            x < SECTION_SIZE,
            y < CHUNK_HEIGHT,
            z < SECTION_SIZE,
        ensures
            r == self.spec_block_at(x as int, y as int, z as int),
    {
        let section_y = y / SECTION_SIZE;
        let local_y = y % SECTION_SIZE;
        match &self.sections[section_y] {
            None => Block::Air,
            Some(section) => section.get(x, local_y, z),
        }
    }

    /// Sets the block at chunk-relative coordinates.
    ///
    /// Writing air into an absent section slot is a no-op; writing a
    /// non-air block into an absent slot materializes the section first; a
    /// write that leaves a section all air deallocates it. The dirty flag
    /// is raised exactly when the stored contents changed.
    pub fn set_block(&mut self, x: usize, y: usize, z: usize, block: Block)
        requires
            old(self).wf(),
            x < SECTION_SIZE,
            y < CHUNK_HEIGHT,
            z < SECTION_SIZE,
        ensures
            final(self).wf(),
            final(self).spec_position() == old(self).spec_position(),
            forall|xi: int, yi: int, zi: int|
                0 <= xi < 16 && 0 <= yi < 256 && 0 <= zi < 16 ==> #[trigger] final(self).spec_block_at(xi, yi, zi) == if xi == x && yi == y && zi == z {
                    block
                } else {
                    old(self).spec_block_at(xi, yi, zi)
                },
            final(self).spec_dirty() == (old(self).spec_dirty() || old(self).spec_block_at(
                x as int,
                y as int,
                z as int,
            ) != block),
            forall|si: int|
                0 <= si < SECTIONS_PER_CHUNK && si != y / 16 ==> #[trigger] final(self).spec_sections()[si] == old(self).spec_sections()[si],
            (final(self).spec_sections()[y as int / 16] is None) <==> (forall|i: int|
                0 <= i < SECTION_VOLUME ==> #[trigger] section_content_after(
                    old(self).spec_sections()[y as int / 16],
                    sec_index(x as int, (y as int) % 16, z as int),
                    block,
                )[i] == Block::Air),
            (final(self).spec_sections()[y as int / 16]) matches Some(s) ==> s.spec_blocks()
                == section_content_after(
                old(self).spec_sections()[y as int / 16],
                sec_index(x as int, (y as int) % 16, z as int),
                block,
            ),
    {
        let section_y = y / SECTION_SIZE;
        let local_y = y % SECTION_SIZE;
        if self.sections[section_y].is_none() && block.is_air() {
            proof {
                let content = section_content_after(
                    old(self).spec_sections()[y as int / 16],
                    sec_index(x as int, (y as int) % 16, z as int),
                    block,
                );
                assert(forall|i: int| 0 <= i < SECTION_VOLUME ==> content[i] == Block::Air);
            }
            return ;
        }
        let slot = self.sections.remove(section_y);
        let mut section = match slot {
            None => ChunkSection::new(),
            Some(s) => s,
        };
        let old_block = section.get(x, local_y, z);
        section.set(x, local_y, z, block);
        let ghost new_content = section.spec_blocks();
        proof {
            lemma_count_non_air_zero(new_content);
        }
        let changed = old_block != block;
        let new_slot = if section.is_empty() {
            None
        } else {
            Some(section)
        };
        self.sections.insert(section_y, new_slot);
        self.dirty = self.dirty || changed;
        proof {
            let sy = y as int / 16;
            let idx = sec_index(x as int, (y as int) % 16, z as int);
            assert(new_content =~= section_content_after(
                old(self).spec_sections()[sy],
                idx,
                block,
            ));
            assert(self.sections@ =~= old(self).sections@.update(sy, new_slot));
            assert forall|xi: int, yi: int, zi: int|
                0 <= xi < 16 && 0 <= yi < 256 && 0 <= zi < 16 implies #[trigger] self.spec_block_at(
                xi,
                yi,
                zi,
            ) == if xi == x && yi == y && zi == z {
                block
            } else {
                old(self).spec_block_at(xi, yi, zi)
            } by {
                let syi = yi / 16;
                assert(0 <= syi < 16);
                if syi == sy {
                    assert(self.spec_sections()[syi] == new_slot);
                    let idx2 = sec_index(xi, yi % 16, zi);
                    assert(0 <= idx2 < SECTION_VOLUME);
                    if xi == x && yi == y && zi == z {
                        assert(idx2 == idx);
                        assert(new_content[idx] == block);
                        if new_slot is None {
                            assert(count_non_air(new_content) == 0);
                            assert(new_content[idx] == Block::Air);
                        } else {
                            assert(self.spec_block_at(xi, yi, zi) == new_content[idx]);
                        }
                    } else {
                        assert(yi == 16 * syi + yi % 16);
                        assert(y == 16 * sy + (y as int) % 16);
                        assert(idx2 != idx);
                        if old(self).spec_sections()[sy] is None {
                            assert(old(self).spec_block_at(xi, yi, zi) == Block::Air);
                            assert(new_content[idx2] == Block::Air);
                        } else {
                            let s0 = old(self).spec_sections()[sy]->0;
                            assert(new_content[idx2] == s0.spec_blocks()[idx2]);
                            assert(old(self).spec_block_at(xi, yi, zi) == s0.spec_blocks()[idx2]);
                        }
                        if new_slot is None {
                            assert(new_content[idx2] == Block::Air);
                        } else {
                            assert(new_slot->0.spec_blocks() == new_content);
                            assert(self.spec_block_at(xi, yi, zi) == new_content[idx2]);
                        }
                    }
                } else {
                    assert(self.spec_sections()[syi] == old(self).spec_sections()[syi]);
                }
            }
        }
    }

    /// Returns true if the chunk mesh needs to be rebuilt.
    pub fn is_dirty(&self) -> (r: bool)
        ensures
            r == self.spec_dirty(),
    {
        self.dirty
    }

    /// Marks the chunk as clean (mesh is up to date).
    pub fn mark_clean(&mut self)
        ensures
            !final(self).spec_dirty(),
            final(self).spec_sections() == old(self).spec_sections(),
            final(self).spec_position() == old(self).spec_position(),
    {
        self.dirty = false;
    }

    /// Marks the chunk as dirty (mesh needs rebuild).
    pub fn mark_dirty(&mut self)
        ensures
            final(self).spec_dirty(),
            final(self).spec_sections() == old(self).spec_sections(),
            final(self).spec_position() == old(self).spec_position(),
    {
        self.dirty = true;
    }

    /// Returns the section at the given Y index (0-15), or nothing when the
    /// slot is absent or the index is out of range.
    pub fn get_section(&self, section_y: usize) -> (r: Option<&ChunkSection>)
        ensures
            r matches Some(s) ==> section_y < self.spec_sections().len()
                && self.spec_sections()[section_y as int] == Some(*s),
            section_y < self.spec_sections().len() && self.spec_sections()[section_y as int]
                is Some ==> r is Some,
            section_y >= self.spec_sections().len() ==> r is None,
    {
        if section_y >= self.sections.len() {
            None
        } else {
            self.sections[section_y].as_ref()
        }
    }

    /// Returns a mutable reference to the section at the given Y index, or
    /// nothing when the slot is absent or the index is out of range.
    pub fn get_section_mut(&mut self, section_y: usize) -> (r: Option<&mut ChunkSection>)
        ensures
            (r is Some) == (section_y < old(self).spec_sections().len()
                && old(self).spec_sections()[section_y as int] is Some),
            r matches Some(s) ==> *s == old(self).spec_sections()[section_y as int]->0
                && final(self).spec_sections() == old(self).spec_sections().update(
                section_y as int,
                Some(*final(s)),
            ) && final(self).spec_position() == old(self).spec_position()
                && final(self).spec_dirty() == old(self).spec_dirty(),
            r is None ==> *final(self) == *old(self),
    {
        if section_y >= self.sections.len() {
            return None;
        }
        if self.sections[section_y].is_none() {
            return None;
        }
        self.sections[section_y].as_mut()
    }

    /// Fills the chunk with a simple test pattern: bedrock at the bottom,
    /// stone below the surface, a few dirt layers, and grass on top, over
    /// every column of the chunk.
    pub fn fill_test_pattern(&mut self)
        requires
            old(self).wf(),
        ensures
            final(self).wf(),
            final(self).spec_position() == old(self).spec_position(),
            forall|xi: int, yi: int, zi: int|
                0 <= xi < 16 && 0 <= yi < 256 && 0 <= zi < 16 ==> #[trigger] final(self).spec_block_at(xi, yi, zi) == if yi <= 64 {
                    test_pattern_block(yi)
                } else {
                    old(self).spec_block_at(xi, yi, zi)
                },
            old(self).spec_dirty() ==> final(self).spec_dirty(),
    {
        let mut x: usize = 0;
        while x < SECTION_SIZE
            invariant
                x <= SECTION_SIZE,
                self.wf(),
                self.spec_position() == old(self).spec_position(),
                old(self).spec_dirty() ==> self.spec_dirty(),
                forall|xi: int, yi: int, zi: int|
                    0 <= xi < 16 && 0 <= yi < 256 && 0 <= zi < 16 ==> #[trigger] self.spec_block_at(
                        xi,
                        yi,
                        zi,
                    ) == if xi < x && 0 <= yi <= 64 {
                        test_pattern_block(yi)
                    } else {
                        old(self).spec_block_at(xi, yi, zi)
                    },
            decreases SECTION_SIZE - x,
        {
            let mut z: usize = 0;
            while z < SECTION_SIZE
                invariant
                    x < SECTION_SIZE,
                    z <= SECTION_SIZE,
                    self.wf(),
                    self.spec_position() == old(self).spec_position(),
                    old(self).spec_dirty() ==> self.spec_dirty(),
                    forall|xi: int, yi: int, zi: int|
                        0 <= xi < 16 && 0 <= yi < 256 && 0 <= zi < 16
                            ==> #[trigger] self.spec_block_at(xi, yi, zi) == if (xi < x || (xi == x
                            && zi < z)) && 0 <= yi <= 64 {
                            test_pattern_block(yi)
                        } else {
                            old(self).spec_block_at(xi, yi, zi)
                        },
                decreases SECTION_SIZE - z,
            {
                self.set_block(x, 0, z, Block::Bedrock);
                let mut y: usize = 1;
                while y < 60
                    invariant
                        x < SECTION_SIZE,
                        z < SECTION_SIZE,
                        1 <= y <= 60,
                        self.wf(),
                        self.spec_position() == old(self).spec_position(),
                        old(self).spec_dirty() ==> self.spec_dirty(),
                        forall|xi: int, yi: int, zi: int|
                            0 <= xi < 16 && 0 <= yi < 256 && 0 <= zi < 16
                                ==> #[trigger] self.spec_block_at(xi, yi, zi) == if ((xi < x || (xi
                                == x && zi < z)) && 0 <= yi <= 64) || (xi == x && zi == z && yi < y)
                                 {
                                test_pattern_block(yi)
                            } else {
                                old(self).spec_block_at(xi, yi, zi)
                            },
                    decreases 60 - y,
                {
                    self.set_block(x, y, z, Block::Stone);
                    y += 1;
                }
                let mut y2: usize = 60;
                while y2 < 64
                    invariant
                        x < SECTION_SIZE,
                        z < SECTION_SIZE,
                        60 <= y2 <= 64,
                        self.wf(),
                        self.spec_position() == old(self).spec_position(),
                        old(self).spec_dirty() ==> self.spec_dirty(),
                        forall|xi: int, yi: int, zi: int|
                            0 <= xi < 16 && 0 <= yi < 256 && 0 <= zi < 16
                                ==> #[trigger] self.spec_block_at(xi, yi, zi) == if ((xi < x || (xi
                                == x && zi < z)) && 0 <= yi <= 64) || (xi == x && zi == z && yi
                                < y2) {
                                test_pattern_block(yi)
                            } else {
                                old(self).spec_block_at(xi, yi, zi)
                            },
                    decreases 64 - y2,
                {
                    self.set_block(x, y2, z, Block::Dirt);
                    y2 += 1;
                }
                self.set_block(x, 64, z, Block::Grass);
                z += 1;
            }
            x += 1;
        }
    }
}

/// The block the test pattern stores at a given height.
pub open spec fn test_pattern_block(y: int) -> Block {
    if y == 0 {
        Block::Bedrock
    } else if 1 <= y < 60 {
        Block::Stone
    } else if 60 <= y < 64 {
        Block::Dirt
    } else if y == 64 {
        Block::Grass
    } else {
        Block::Air
    }
}

/// The contents a section slot holds after one write: the old contents, or
/// all air for an absent slot, with the written cell replaced.
pub open spec fn section_content_after(
    slot: Option<ChunkSection>,
    idx: int,
    block: Block,
) -> Seq<Block> {
    (match slot {
        None => Seq::new(SECTION_VOLUME as nat, |i: int| Block::Air),
        Some(s) => s.spec_blocks(),
    }).update(idx, block)
}

} // verus!
