//! The dense 16x16x16 block grid of one chunk.

use vstd::prelude::*;
use crate::block::{Block, BlockType};
use crate::geometry::{
    chunk_coord_in_range, in_chunk, linear_index, linearize, point_of_index, world_point,
    BoundsError, IVec3, Point, CHUNK_VOLUME,
};

verus! {

/// The blocks of one chunk, one per cell, with the chunk's place in the world
/// counted in chunks.
#[derive(Debug, PartialEq, Eq)]
pub struct ChunkGrid {
    position: IVec3,
    blocks: Vec<Block>,
}

/// The grid of one chunk, by its short name.
pub type Chunk = ChunkGrid;

impl View for ChunkGrid {
    type V = Seq<Block>;

    /// The blocks in storage order: cell `(x, y, z)` is at `x + 16*y + 256*z`.
    closed spec fn view(&self) -> Seq<Block> {
        self.blocks@
    }
}

impl Clone for ChunkGrid {
    fn clone(&self) -> (copy: ChunkGrid)
        ensures
            copy.wf(),
            copy@ == self@,
            copy.chunk_coord() == self.chunk_coord(),
    {
        proof {
            use_type_invariant(self);
        }
        let mut blocks: Vec<Block> = Vec::with_capacity(CHUNK_VOLUME);
        let mut i: usize = 0;
        while i < CHUNK_VOLUME
            invariant
                i <= CHUNK_VOLUME,
                self.blocks@.len() == CHUNK_VOLUME,
                blocks@.len() == i,
                forall|j: int| 0 <= j < i ==> blocks@[j] == self.blocks@[j],
            decreases CHUNK_VOLUME - i,
        {
            blocks.push(self.blocks[i]);
            i += 1;
        }
        ChunkGrid { position: self.position, blocks }
    }
}

impl Default for ChunkGrid {
    /// The grid of air at the origin.
    fn default() -> (grid: ChunkGrid)
        ensures
            grid.wf(),
            grid.chunk_coord() == (0int, 0int, 0int),
            grid@ == uniform_cells(Block(BlockType::Air)),
    {
        ChunkGrid::new(IVec3 { x: 0, y: 0, z: 0 })
    }
}

/// The grid in which every cell holds `block`.
pub open spec fn uniform_cells(block: Block) -> Seq<Block> {
    Seq::new(CHUNK_VOLUME as nat, |i: int| block)
}

/// Whether some coordinate of `p` is 0 or 15.
pub open spec fn on_chunk_hull(p: Point) -> bool {
    p.0 == 0 || p.0 == 15 || p.1 == 0 || p.1 == 15 || p.2 == 0 || p.2 == 15
}

/// Number of occupied cells among the first `n` of `cells`.
pub open spec fn occupied_among(cells: Seq<Block>, n: int) -> int
    decreases n,
{
    if n <= 0 {
        0
    } else {
        occupied_among(cells, n - 1) + if cells[n - 1].occupied() {
            1int
        } else {
            0int
        }
    }
}

impl ChunkGrid {
    /// The chunk coordinate of this grid.
    pub closed spec fn chunk_coord(&self) -> Point {
        self.position@
    }

    /// Every grid holds exactly 4096 blocks and sits at a chunk coordinate
    /// whose world positions fit in `i32`.
    #[verifier::type_invariant]
    pub open spec fn wf(&self) -> bool {
        &&& self@.len() == CHUNK_VOLUME
        &&& chunk_coord_in_range(self.chunk_coord())
    }

    /// The block in the cell at local position `p`.
    pub open spec fn block_at(&self, p: Point) -> Block {
        self@[linear_index(p)]
    }

    /// A grid of air at the given chunk coordinate.
    pub fn new(position: IVec3) -> (grid: ChunkGrid)
        requires
            chunk_coord_in_range(position@),
        ensures
            grid.wf(),
            grid.chunk_coord() == position@,
            grid@ == uniform_cells(Block(BlockType::Air)),
    {
        Self::filled(position, Block(BlockType::Air))
    }

    /// A grid in which every cell holds `block`.
    pub fn filled(position: IVec3, block: Block) -> (grid: ChunkGrid)
        requires
            chunk_coord_in_range(position@),
        ensures
            grid.wf(),
            grid.chunk_coord() == position@,
            grid@ == uniform_cells(block),
    {
        let mut blocks: Vec<Block> = Vec::with_capacity(CHUNK_VOLUME);
        let mut i: usize = 0;
        while i < CHUNK_VOLUME
            invariant
                i <= CHUNK_VOLUME,
                blocks@.len() == i,
                forall|j: int| 0 <= j < i ==> blocks@[j] == block,
            decreases CHUNK_VOLUME - i,
        {
            blocks.push(block);
            i += 1;
        }
        ChunkGrid { position, blocks }
    }

    /// The chunk coordinate of this grid.
    pub fn position(&self) -> (r: IVec3)
        ensures
            r@ == self.chunk_coord(),
    {
        self.position
    }

    /// Reads the block at a local position. Fails exactly when a coordinate
    /// of `p` is outside `0..16`.
    pub fn get(&self, p: IVec3) -> (r: Result<Block, BoundsError>)
        ensures
            in_chunk(p@) ==> r == Ok::<Block, BoundsError>(self.block_at(p@)),
            !in_chunk(p@) ==> r == Err::<Block, BoundsError>(BoundsError { position: p }),
    {
        proof {
            use_type_invariant(self);
        }
        match linearize(p) {
            Ok(i) => Ok(self.blocks[i]),
            Err(e) => Err(e),
        }
    }

    /// Writes the block at a local position. Fails, and changes nothing,
    /// exactly when a coordinate of `p` is outside `0..16`.
    pub fn set(&mut self, p: IVec3, block: Block) -> (r: Result<(), BoundsError>)
        ensures
            final(self).wf(),
            final(self).chunk_coord() == old(self).chunk_coord(),
            in_chunk(p@) ==> r is Ok && final(self)@ == old(self)@.update(
                linear_index(p@),
                block,
            ),
            !in_chunk(p@) ==> r == Err::<(), BoundsError>(BoundsError { position: p })
                && final(self)@ == old(self)@,
    {
        proof {
            use_type_invariant(&*self);
        }
        match linearize(p) {
            Ok(i) => {
                self.blocks[i] = block;
                Ok(())
            },
            Err(e) => Err(e),
        }
    }

    /// Puts `block` in every cell.
    pub fn fill(&mut self, block: Block)
        ensures
            final(self).wf(),
            final(self).chunk_coord() == old(self).chunk_coord(),
            final(self)@ == uniform_cells(block),
    {
        proof {
            use_type_invariant(&*self);
        }
        let mut i: usize = 0;
        while i < CHUNK_VOLUME
            invariant
                i <= CHUNK_VOLUME,
                self.blocks@.len() == CHUNK_VOLUME,
                self.position == old(self).position,
                chunk_coord_in_range(self.position@),
                forall|j: int| 0 <= j < i ==> self.blocks@[j] == block,
            decreases CHUNK_VOLUME - i,
        {
            self.blocks[i] = block;
            i += 1;
        }
    }

    /// A grid holding the given blocks, taken in storage order. `None`
    /// exactly when `blocks` does not hold 4096 blocks.
    pub fn from_blocks(position: IVec3, blocks: Vec<Block>) -> (r: Option<ChunkGrid>)
        requires
            chunk_coord_in_range(position@),
        ensures
            blocks@.len() == CHUNK_VOLUME ==> r is Some && r->0.wf() && r->0@ == blocks@
                && r->0.chunk_coord() == position@,
            blocks@.len() != CHUNK_VOLUME ==> r is None,
    {
        if blocks.len() == CHUNK_VOLUME {
            Some(ChunkGrid { position, blocks })
        } else {
            None
        }
    }

    /// Whether a position lies on the hull of the chunk: some coordinate is
    /// 0 or 15.
    pub fn is_edge_position(&self, pos: IVec3) -> (r: bool)
        ensures
            r == on_chunk_hull(pos@),
    {
        pos.x == 0 || pos.x == 15 || pos.y == 0 || pos.y == 15 || pos.z == 0 || pos.z == 15
    }

    /// World position of a local cell. Fails exactly when a coordinate of
    /// `local` is outside `0..16`.
    pub fn world_position(&self, local: IVec3) -> (r: Result<IVec3, BoundsError>)
        ensures
            in_chunk(local@) ==> r is Ok && r->Ok_0@ == world_point(self.chunk_coord(), local@),
            !in_chunk(local@) ==> r == Err::<IVec3, BoundsError>(
                BoundsError { position: local },
            ),
    {
        proof {
            use_type_invariant(self);
        }
        if local.is_local() {
            Ok(
                IVec3 {
                    x: 16 * self.position.x + local.x,
                    y: 16 * self.position.y + local.y,
                    z: 16 * self.position.z + local.z,
                },
            )
        } else {
            Err(BoundsError { position: local })
        }
    }

    /// Number of cells that hold anything but air.
    pub fn occupied_count(&self) -> (n: usize)
        ensures
            n == occupied_among(self@, CHUNK_VOLUME as int),
    {
        proof {
            use_type_invariant(self);
        }
        let mut n: usize = 0;
        let mut i: usize = 0;
        while i < CHUNK_VOLUME
            invariant
                i <= CHUNK_VOLUME,
                self.blocks@.len() == CHUNK_VOLUME,
                n == occupied_among(self@, i as int),
                n <= i,
            decreases CHUNK_VOLUME - i,
        {
            if self.blocks[i].is_occupied() {
                n += 1;
            }
            i += 1;
        }
        n
    }

    /// World position of the cell at place `i` of the storage order.
    pub(crate) fn world_position_of_index(&self, i: usize) -> (r: IVec3)
        requires
            i < CHUNK_VOLUME,
        ensures
            r@ == world_point(self.chunk_coord(), point_of_index(i as int)),
    {
        proof {
            use_type_invariant(self);
        }
        IVec3 {
            x: 16 * self.position.x + (i % 16) as i32,
            y: 16 * self.position.y + ((i / 16) % 16) as i32,
            z: 16 * self.position.z + (i / 256) as i32,
        }
    }

    /// The block at place `i` of the storage order.
    pub(crate) fn cell(&self, i: usize) -> (r: Block)
        requires
            i < CHUNK_VOLUME,
        ensures
            r == self@[i as int],
    {
        proof {
            use_type_invariant(self);
        }
        self.blocks[i]
    }
}

} // verus!
