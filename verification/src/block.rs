use vstd::prelude::*;

verus! {

/// The material of one block of the world grid.
#[derive(Clone, Copy, Debug, PartialEq, Eq, Structural)]
pub enum BlockKind {
    Dirt,
    Grass,
    Stone,
    Bedrock,
    Sand,
    Sandstone,
    CoalOre,
    CopperOre,
    IronOre,
    GoldOre,
    DiamondOre,
    OakLog,
    LeafedOakLog,
    Leaves,
    Cactus,
}

/// The kinds that an ore vein may replace stone with.
pub open spec fn is_ore_kind(k: BlockKind) -> bool {
    k == BlockKind::CoalOre || k == BlockKind::CopperOre || k == BlockKind::IronOre
        || k == BlockKind::GoldOre || k == BlockKind::DiamondOre
}

/// The kinds that a placed structure is built from.
pub open spec fn is_structure_kind(k: BlockKind) -> bool {
    k == BlockKind::OakLog || k == BlockKind::LeafedOakLog || k == BlockKind::Leaves
        || k == BlockKind::Cactus
}

/// One materialized block: a grid position, a material, and whether the
/// physics collaborator should give it a collider.
#[derive(Clone, Copy, Debug, PartialEq, Eq, Structural)]
pub struct Block {
    pub kind: BlockKind,
    pub x: i64,
    pub y: i64,
    pub collidable: bool,
}

impl Block {
    /// An ordinary, collidable block.
    pub fn new(kind: BlockKind, x: i64, y: i64) -> (r: Block)
        ensures
            r == (Block { kind, x, y, collidable: true }),
    {
        Block { kind, x, y, collidable: true }
    }

    /// A block that players pass through, as trees are placed.
    pub fn non_collidable(kind: BlockKind, x: i64, y: i64) -> (r: Block)
        ensures
            r == (Block { kind, x, y, collidable: false }),
    {
        Block { kind, x, y, collidable: false }
    }
}

} // verus!
