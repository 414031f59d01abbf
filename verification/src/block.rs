use vstd::prelude::*;

verus! {

/// A unique ID for a block.
#[derive(Debug, Clone, Copy, PartialEq, Eq, Structural, Hash, PartialOrd, Ord)]
pub enum BlockId {
    /// The most basic block type possible.
    ///
    /// Blocks with this ID are considered empty.
    Air,
    Stone,
}

/// The total number of [`BlockId`] instances.
pub const BLOCK_ID_COUNT: usize = 2;

/// The numeric value of a block ID: its position in the declaration of [`BlockId`].
pub open spec fn block_id_value(id: BlockId) -> int {
    match id {
        BlockId::Air => 0,
        BlockId::Stone => 1,
    }
}

/// The block ID whose numeric value is `v`, if any.
pub open spec fn block_id_of_value(v: int) -> Option<BlockId> {
    if v == 0 {
        Some(BlockId::Air)
    } else if v == 1 {
        Some(BlockId::Stone)
    } else {
        None
    }
}

impl BlockId {
    /// Returns the numeric value of this block ID.
    pub fn to_integer(self) -> (r: u8)
        ensures
            r == block_id_value(self),
            (r as usize) < BLOCK_ID_COUNT,
    {
        match self {
            BlockId::Air => 0,
            BlockId::Stone => 1,
        }
    }

    /// Returns the block ID whose numeric value is `v`, or `None` when no block has it.
    pub fn from_integer(v: u8) -> (r: Option<BlockId>)
        ensures
            r == block_id_of_value(v as int),
    {
        if v == 0 {
            Some(BlockId::Air)
        } else if v == 1 {
            Some(BlockId::Stone)
        } else {
            None
        }
    }

    /// Returns the information that the global registry holds about this block.
    pub fn info(self) -> (r: BlockInfo)
        ensures
            r == block_info(self),
    {
        let registry = BlockRegistry::load();
        *registry.index(self)
    }
}

/// The ID of a texture.
#[derive(Debug, Clone, Copy, PartialEq, Eq, Structural)]
pub enum TextureId {
    Stone,
}

/// The transparency of a block.
#[derive(Debug, Clone, Copy, PartialEq, Eq, Structural, Hash)]
pub enum BlockTransparency {
    /// The block is not actually visible.
    Invisible,
    /// The block is completely opaque.
    ///
    /// Blocks with this [`BlockTransparency`] can be rendered in any order.
    Opaque,
    /// The block contains both completely opaque and completely transparent parts.
    ///
    /// Blocks with this [`BlockTransparency`] can be rendered in any order without any issues,
    /// but they cannot benefit from Mip Maps.
    SemiOpaque,
    /// Blocks with this [`BlockTransparency`] must be rendered in order, from back to front.
    Transparent,
}

/// The appearance of a block.
#[derive(Debug, Clone, Copy, PartialEq, Eq, Structural)]
pub enum BlockAppearance {
    /// The block is not actually visible.
    Invisible,
    /// The block has a regular appearance with separate textures for each face.
    Regular {
        /// The texture to apply to the top face of the block (toward the positive Y axis).
        top: TextureId,
        /// The texture to apply to the bottom face of the block (toward the negative Y axis).
        bottom: TextureId,
        /// The texture to apply to the side faces of the block (along the X and Z axis).
        side: TextureId,
    },
}

/// Stores information about a block identified by a [`BlockId`].
#[derive(Debug, Clone, Copy, PartialEq, Eq, Structural)]
pub struct BlockInfo {
    /// The transparency value of the block.
    pub transparency: BlockTransparency,
    /// The appearance of the block.
    pub appearance: BlockAppearance,
}

/// The information registered about each block.
pub open spec fn block_info(id: BlockId) -> BlockInfo {
    match id {
        BlockId::Air => BlockInfo {
            transparency: BlockTransparency::Invisible,
            appearance: BlockAppearance::Invisible,
        },
        BlockId::Stone => BlockInfo {
            transparency: BlockTransparency::Opaque,
            appearance: BlockAppearance::Regular {
                top: TextureId::Stone,
                bottom: TextureId::Stone,
                side: TextureId::Stone,
            },
        },
    }
}

/// Contains data about all existing blocks identified by their [`BlockId`].
pub struct BlockRegistry {
    /// The information about each block.
    infos: [BlockInfo; BLOCK_ID_COUNT],
}

impl BlockRegistry {
    /// The information held for the block whose numeric value is `i`.
    pub closed spec fn info_at(&self, i: int) -> BlockInfo {
        self.infos@[i]
    }

    /// Whether the registry holds, for every block, the information of [`block_info`].
    pub open spec fn is_standard(&self) -> bool {
        forall|id: BlockId| #[trigger] self.info_at(block_id_value(id)) == block_info(id)
    }

    /// Constructs the registry of every block.
    pub fn load() -> (r: BlockRegistry)
        ensures
            r.is_standard(),
    {
        let r = BlockRegistry {
            infos: [
                // BlockId::Air
                BlockInfo {
                    transparency: BlockTransparency::Invisible,
                    appearance: BlockAppearance::Invisible,
                },
                // BlockId::Stone
                BlockInfo {
                    transparency: BlockTransparency::Opaque,
                    appearance: BlockAppearance::Regular {
                        top: TextureId::Stone,
                        bottom: TextureId::Stone,
                        side: TextureId::Stone,
                    },
                },
            ],
        };
        assert(r.info_at(0) == block_info(BlockId::Air));
        assert(r.info_at(1) == block_info(BlockId::Stone));
        assert forall|id: BlockId| #[trigger] r.info_at(block_id_value(id)) == block_info(id) by {
            match id {
                BlockId::Air => {},
                BlockId::Stone => {},
            }
        }
        r
    }

    /// Returns the information registered for the provided block.
    pub fn index(&self, id: BlockId) -> (r: &BlockInfo)
        ensures
            *r == self.info_at(block_id_value(id)),
    {
        let i = id.to_integer() as usize;
        &self.infos[i]
    }
}

/// Returns the global block registry.
pub fn block_registry() -> (r: BlockRegistry)
    ensures
        r.is_standard(),
{
    BlockRegistry::load()
}

} // verus!
