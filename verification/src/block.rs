//! Block materials.

use vstd::prelude::*;

verus! {

/// The material that fills one cell of a chunk.
#[derive(Debug, PartialEq, Eq, Structural, Clone, Copy, Hash)]
pub enum BlockType {
    Air,
    Dirt,
    Grass,
    Stone,
}

impl BlockType {
    /// The numeric id a renderer uses to look the material up.
    pub open spec fn spec_id(self) -> u8 {
        match self {
            BlockType::Air => 0,
            BlockType::Dirt => 1,
            BlockType::Grass => 2,
            BlockType::Stone => 3,
        }
    }

    /// The numeric id a renderer uses to look the material up.
    #[verifier::when_used_as_spec(spec_id)]
    pub fn id(self) -> (r: u8)
        ensures
            r == self.spec_id(),
    {
        match self {
            BlockType::Air => 0,
            BlockType::Dirt => 1,
            BlockType::Grass => 2,
            BlockType::Stone => 3,
        }
    }

    /// The material with the given id, if there is one.
    pub fn from_id(id: u8) -> (r: Option<BlockType>)
        ensures
            id > 3 ==> r is None,
            id <= 3 ==> r is Some && r->0.spec_id() == id,
    {
        if id == 0 {
            Some(BlockType::Air)
        } else if id == 1 {
            Some(BlockType::Dirt)
        } else if id == 2 {
            Some(BlockType::Grass)
        } else if id == 3 {
            Some(BlockType::Stone)
        } else {
            None
        }
    }
}

impl Default for BlockType {
    /// What nothing has been put into is air.
    fn default() -> (r: BlockType)
        ensures
            r == BlockType::Air,
    {
        BlockType::Air
    }
}

/// Different materials have different ids.
pub proof fn lemma_id_tells_materials_apart(a: BlockType, b: BlockType)
    ensures
        a.spec_id() == b.spec_id() <==> a == b,
{
}

/// Rendering properties of a material.
#[derive(Debug, PartialEq, Eq, Structural, Clone, Copy, Hash)]
pub struct BlockData {
    pub transparent: bool,
}

/// How a voxel takes part in meshing.
#[derive(Debug, PartialEq, Eq, Structural, Clone, Copy)]
pub enum VoxelVisibility {
    /// Produces no geometry.
    Empty,
    /// Produces geometry and lets light through.
    Translucent,
    /// Produces geometry and blocks light.
    Opaque,
}

/// One voxel: a material tag.
#[derive(Debug, PartialEq, Eq, Structural, Clone, Copy, Hash)]
pub struct Block(pub BlockType);

impl Block {
    /// Whether the cell holds anything but air.
    pub open spec fn occupied(self) -> bool {
        self.0 != BlockType::Air
    }

    /// Whether the cell holds anything but air.
    pub fn is_occupied(&self) -> (r: bool)
        ensures
            r == self.occupied(),
    {
        match self.0 {
            BlockType::Air => false,
            _ => true,
        }
    }

    /// Air is empty; every other material is opaque.
    pub fn get_visibility(&self) -> (r: VoxelVisibility)
        ensures
            r == if self.occupied() {
                VoxelVisibility::Opaque
            } else {
                VoxelVisibility::Empty
            },
    {
        if self.is_occupied() {
            VoxelVisibility::Opaque
        } else {
            VoxelVisibility::Empty
        }
    }

    /// The value by which faces are merged, as contracts speak of it: the
    /// id of the material.
    pub open spec fn spec_merge_value(&self) -> u8 {
        self.0.spec_id()
    }

    /// Faces of two blocks may share a quad only when this value agrees:
    /// it is the id of the material, so it agrees exactly for blocks of one
    /// material.
    #[verifier::when_used_as_spec(spec_merge_value)]
    pub fn merge_value(&self) -> (r: u8)
        ensures
            r == self.spec_merge_value(),
    {
        self.0.id()
    }

    /// Rendering properties: only air is transparent.
    pub fn data(&self) -> (r: BlockData)
        ensures
            r.transparent == !self.occupied(),
    {
        BlockData { transparent: !self.is_occupied() }
    }
}

impl Default for Block {
    /// A cell that nothing has been put into holds air.
    fn default() -> (r: Block)
        ensures
            r == Block(BlockType::Air),
    {
        Block(BlockType::Air)
    }
}

/// Two blocks have the same merge value exactly when they are of the same
/// material. Stone and grass, both solid, do not merge.
pub proof fn lemma_merge_value_is_per_material(a: Block, b: Block)
    ensures
        a.spec_merge_value() == b.spec_merge_value() <==> a.0 == b.0,
        a.spec_merge_value() == b.spec_merge_value() <==> a == b,
{
}

} // verus!
