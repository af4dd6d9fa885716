//! Block identities and their compact ordinal encoding.
use vstd::prelude::*;

verus! {

/// The material of one voxel. `Air` is the empty block and the only one
/// that produces no geometry; the order of the other kinds is used by the
/// terrain generator to pick layers.
#[derive(Clone, Copy, Debug, PartialEq, Eq, Structural)]
pub enum BlockKind {
    Air,
    Stone,
    Granite,
    Diorite,
    Andesite,
    Grass,
    Dirt,
}

/// Number of concrete block kinds, `Air` included.
pub const BLOCK_KIND_COUNT: usize = 7;

/// The kind with the given ordinal; every ordinal outside `0..7` is `Air`.
pub open spec fn kind_of_ordinal(n: int) -> BlockKind {
    if n == 1 {
        BlockKind::Stone
    } else if n == 2 {
        BlockKind::Granite
    } else if n == 3 {
        BlockKind::Diorite
    } else if n == 4 {
        BlockKind::Andesite
    } else if n == 5 {
        BlockKind::Grass
    } else if n == 6 {
        BlockKind::Dirt
    } else {
        BlockKind::Air
    }
}

impl BlockKind {
    /// The position of this kind in the declaration order.
    pub open spec fn ordinal(self) -> int {
        match self {
            BlockKind::Air => 0,
            BlockKind::Stone => 1,
            BlockKind::Granite => 2,
            BlockKind::Diorite => 3,
            BlockKind::Andesite => 4,
            BlockKind::Grass => 5,
            BlockKind::Dirt => 6,
        }
    }

    /// Whether this block hides the faces of its neighbours and gets geometry.
    pub open spec fn is_solid(self) -> bool {
        self != BlockKind::Air
    }

    /// The material slot of a solid block: its ordinal less one (`Air` has none).
    pub open spec fn material(self) -> int {
        self.ordinal() - 1
    }

    /// Count of concrete variants.
    pub fn len() -> (r: usize)
        ensures
            r == BLOCK_KIND_COUNT,
    {
        BLOCK_KIND_COUNT
    }

    /// Decodes an ordinal; any value out of range gives `Air`, never an error.
    pub fn from_ordinal(n: u16) -> (r: BlockKind)
        ensures
            r == kind_of_ordinal(n as int),
    {
        match n {
            1 => BlockKind::Stone,
            2 => BlockKind::Granite,
            3 => BlockKind::Diorite,
            4 => BlockKind::Andesite,
            5 => BlockKind::Grass,
            6 => BlockKind::Dirt,
            _ => BlockKind::Air,
        }
    }

    /// The ordinal of this kind.
    pub fn to_ordinal(&self) -> (r: u16)
        ensures
            r as int == self.ordinal(),
            (r as int) < BLOCK_KIND_COUNT,
    {
        match self {
            BlockKind::Air => 0,
            BlockKind::Stone => 1,
            BlockKind::Granite => 2,
            BlockKind::Diorite => 3,
            BlockKind::Andesite => 4,
            BlockKind::Grass => 5,
            BlockKind::Dirt => 6,
        }
    }

    /// Whether the block is anything but `Air`.
    pub fn is_solid_block(&self) -> (r: bool)
        ensures
            r == self.is_solid(),
    {
        !matches!(self, BlockKind::Air)
    }
}

impl Default for BlockKind {
    fn default() -> (r: BlockKind)
        ensures
            r == BlockKind::Air,
    {
        BlockKind::Air
    }
}

/// Decoding the ordinal of a kind gives the kind back.
pub proof fn lemma_ordinal_round_trip(b: BlockKind)
    ensures
        kind_of_ordinal(b.ordinal()) == b,
        0 <= b.ordinal() < BLOCK_KIND_COUNT,
{
}

/// A single block of the world.
#[derive(Clone, Copy, Debug, PartialEq, Eq, Structural)]
pub struct Block {
    kind: BlockKind,
}

impl Block {
    /// The kind of the block.
    pub closed spec fn kind_spec(&self) -> BlockKind {
        self.kind
    }

    pub fn new(kind: BlockKind) -> (r: Block)
        ensures
            r.kind_spec() == kind,
    {
        Block { kind }
    }

    pub fn kind(&self) -> (r: BlockKind)
        ensures
            r == self.kind_spec(),
    {
        self.kind
    }
}

} // verus!
