//! Which blocks of a chunk have an exposed face.
//!
//! A block is visible when it is not air and at least one of its six axis
//! neighbours, looked up by world position, holds no block. Positions that
//! belong to chunks nobody has entered into the occupancy set count as empty,
//! so faces on the hull of a lone chunk are visible.

use vstd::prelude::*;
use crate::block::{Block, BlockType};
use crate::chunk::{on_chunk_hull, ChunkGrid};
use crate::geometry::{
    cell_of_index, in_chunk, lemma_linear_index_roundtrip, lemma_point_of_index_roundtrip,
    linear_index, linearize, neighbor, point_of_index, position_at, world_point, BoundsError, Face,
    IVec3, Point, CHUNK_VOLUME,
};
use crate::occupancy::{
    chunk_occupancy, lemma_listed_step, listed, listed_upto, neighbor_count, OccupancySet,
};

verus! {

/// Whether the block in local cell `p` is rendered: it is not air, and fewer
/// than six of its world neighbours are occupied.
pub open spec fn visible_in(
    cells: Seq<Block>,
    chunk: Point,
    occupied: Set<Point>,
    p: Point,
) -> bool {
    cells[linear_index(p)].occupied() && neighbor_count(occupied, world_point(chunk, p)) < 6
}

/// The visibility of every cell of a chunk, in storage order.
pub open spec fn visibility_of(cells: Seq<Block>, chunk: Point, occupied: Set<Point>) -> Seq<
    bool,
> {
    Seq::new(
        CHUNK_VOLUME as nat,
        |i: int| visible_in(cells, chunk, occupied, point_of_index(i)),
    )
}

/// Number of set flags among the first `n` of `flags`.
pub open spec fn visible_among(flags: Seq<bool>, n: int) -> int
    decreases n,
{
    if n <= 0 {
        0
    } else {
        visible_among(flags, n - 1) + if flags[n - 1] {
            1int
        } else {
            0int
        }
    }
}

/// The visible blocks among the first `n` cells, in storage order, each with
/// its local position and its material.
pub open spec fn visible_blocks_upto(cells: Seq<Block>, flags: Seq<bool>, n: int) -> Seq<
    (IVec3, BlockType),
>
    decreases n,
{
    if n <= 0 {
        Seq::empty()
    } else if flags[n - 1] {
        visible_blocks_upto(cells, flags, n - 1).push(
            (position_at(point_of_index(n - 1)), cells[n - 1].0),
        )
    } else {
        visible_blocks_upto(cells, flags, n - 1)
    }
}

/// For every cell of a chunk, whether its block is rendered.
#[derive(Debug, PartialEq, Eq)]
pub struct VisibilityMap {
    flags: Vec<bool>,
}

impl View for VisibilityMap {
    type V = Seq<bool>;

    /// The flags in storage order: cell `(x, y, z)` is at `x + 16*y + 256*z`.
    closed spec fn view(&self) -> Seq<bool> {
        self.flags@
    }
}

impl VisibilityMap {
    /// Every map holds exactly 4096 flags.
    #[verifier::type_invariant]
    pub open spec fn wf(&self) -> bool {
        self@.len() == CHUNK_VOLUME
    }

    /// Whether the block in the cell at local position `p` is rendered.
    pub open spec fn visible_at(&self, p: Point) -> bool {
        self@[linear_index(p)]
    }

    /// A map holding the given flags, taken in storage order. `None` exactly
    /// when `flags` does not hold 4096 flags.
    pub fn from_flags(flags: Vec<bool>) -> (r: Option<VisibilityMap>)
        ensures
            flags@.len() == CHUNK_VOLUME ==> r is Some && r->0.wf() && r->0@ == flags@,
            flags@.len() != CHUNK_VOLUME ==> r is None,
    {
        if flags.len() == CHUNK_VOLUME {
            Some(VisibilityMap { flags })
        } else {
            None
        }
    }

    /// Reads the flag at a local position. Fails exactly when a coordinate of
    /// `p` is outside `0..16`.
    pub fn get(&self, p: IVec3) -> (r: Result<bool, BoundsError>)
        ensures
            in_chunk(p@) ==> r == Ok::<bool, BoundsError>(self.visible_at(p@)),
            !in_chunk(p@) ==> r == Err::<bool, BoundsError>(BoundsError { position: p }),
    {
        proof {
            use_type_invariant(self);
        }
        match linearize(p) {
            Ok(i) => Ok(self.flags[i]),
            Err(e) => Err(e),
        }
    }

    /// Number of visible blocks.
    pub fn visible_count(&self) -> (n: usize)
        ensures
            n == visible_among(self@, CHUNK_VOLUME as int),
    {
        proof {
            use_type_invariant(self);
        }
        let mut n: usize = 0;
        let mut i: usize = 0;
        while i < CHUNK_VOLUME
            invariant
                i <= CHUNK_VOLUME,
                self.flags@.len() == CHUNK_VOLUME,
                n == visible_among(self@, i as int),
                n <= i,
            decreases CHUNK_VOLUME - i,
        {
            if self.flags[i] {
                n += 1;
            }
            i += 1;
        }
        n
    }

    /// The visible blocks of `grid` in storage order, each with its local
    /// position and its material: what a renderer that draws block by block
    /// needs.
    pub fn visible_blocks(&self, grid: &ChunkGrid) -> (list: Vec<(IVec3, BlockType)>)
        ensures
            list@ == visible_blocks_upto(grid@, self@, CHUNK_VOLUME as int),
    {
        proof {
            use_type_invariant(self);
            use_type_invariant(grid);
        }
        let mut list: Vec<(IVec3, BlockType)> = Vec::new();
        let mut i: usize = 0;
        while i < CHUNK_VOLUME
            invariant
                i <= CHUNK_VOLUME,
                self.flags@.len() == CHUNK_VOLUME,
                grid.wf(),
                list@ == visible_blocks_upto(grid@, self@, i as int),
            decreases CHUNK_VOLUME - i,
        {
            if self.flags[i] {
                list.push((cell_of_index(i), grid.cell(i).0));
            }
            i += 1;
        }
        list
    }

    /// The flag at place `i` of the storage order.
    pub(crate) fn flag(&self, i: usize) -> (r: bool)
        requires
            i < CHUNK_VOLUME,
        ensures
            r == self@[i as int],
    {
        proof {
            use_type_invariant(self);
        }
        self.flags[i]
    }
}

/// Computes the visibility of the blocks of a chunk.
pub struct VisibilitySolver;

impl VisibilitySolver {
    /// Visibility of every block of `grid`, given the world positions that
    /// hold a block in any loaded chunk.
    pub fn compute(grid: &ChunkGrid, occupied: &OccupancySet) -> (map: VisibilityMap)
        ensures
            map.wf(),
            map@ == visibility_of(grid@, grid.chunk_coord(), occupied@),
    {
        proof {
            use_type_invariant(grid);
        }
        let mut flags: Vec<bool> = Vec::with_capacity(CHUNK_VOLUME);
        let mut i: usize = 0;
        while i < CHUNK_VOLUME
            invariant
                i <= CHUNK_VOLUME,
                grid.wf(),
                flags@.len() == i,
                forall|j: int|
                    0 <= j < i ==> flags@[j] == visible_in(
                        grid@,
                        grid.chunk_coord(),
                        occupied@,
                        point_of_index(j),
                    ),
            decreases CHUNK_VOLUME - i,
        {
            let visible = grid.cell(i).is_occupied() && occupied.neighbor_count(
                grid.world_position_of_index(i),
            ) < 6;
            flags.push(visible);
            i += 1;
        }
        VisibilityMap { flags }
    }

    /// Visibility of every block of a chunk that stands alone: only its own
    /// blocks are occupied, so every face on its hull is exposed.
    pub fn compute_single(grid: &ChunkGrid) -> (map: VisibilityMap)
        ensures
            map.wf(),
            map@ == visibility_of(
                grid@,
                grid.chunk_coord(),
                chunk_occupancy(grid@, grid.chunk_coord()),
            ),
    {
        proof {
            use_type_invariant(grid);
        }
        let ghost chunk = grid.chunk_coord();
        let ghost own = chunk_occupancy(grid@, chunk);
        let mut flags: Vec<bool> = Vec::with_capacity(CHUNK_VOLUME);
        let mut i: usize = 0;
        while i < CHUNK_VOLUME
            invariant
                i <= CHUNK_VOLUME,
                grid.wf(),
                chunk == grid.chunk_coord(),
                own == chunk_occupancy(grid@, chunk),
                flags@.len() == i,
                forall|j: int|
                    0 <= j < i ==> flags@[j] == visible_in(grid@, chunk, own, point_of_index(j)),
            decreases CHUNK_VOLUME - i,
        {
            let visible = grid.cell(i).is_occupied() && Self::occupied_around(
                grid,
                cell_of_index(i),
            ) < 6;
            flags.push(visible);
            i += 1;
        }
        VisibilityMap { flags }
    }

    /// How many of the six neighbours of local cell `p` are cells of the
    /// same chunk that hold a block.
    fn occupied_around(grid: &ChunkGrid, p: IVec3) -> (count: u8)
        requires
            in_chunk(p@),
        ensures
            count == neighbor_count(
                chunk_occupancy(grid@, grid.chunk_coord()),
                world_point(grid.chunk_coord(), p@),
            ),
    {
        let mut count: u8 = 0;
        if Self::occupied_within(grid, p, Face::PosX) {
            count += 1;
        }
        if Self::occupied_within(grid, p, Face::NegX) {
            count += 1;
        }
        if Self::occupied_within(grid, p, Face::PosY) {
            count += 1;
        }
        if Self::occupied_within(grid, p, Face::NegY) {
            count += 1;
        }
        if Self::occupied_within(grid, p, Face::PosZ) {
            count += 1;
        }
        if Self::occupied_within(grid, p, Face::NegZ) {
            count += 1;
        }
        proof {
            lemma_own_neighbors(grid@, grid.chunk_coord(), p@);
        }
        count
    }

    /// Whether the cell one step from local cell `p` towards `face` is a cell
    /// of the same chunk and holds a block.
    fn occupied_within(grid: &ChunkGrid, p: IVec3, face: Face) -> (r: bool)
        requires
            in_chunk(p@),
        ensures
            r == (in_chunk(neighbor(p@, face)) && grid.block_at(neighbor(p@, face)).occupied()),
    {
        match p.step(face) {
            Some(q) => match grid.get(q) {
                Ok(block) => block.is_occupied(),
                Err(_) => false,
            },
            None => false,
        }
    }
}

/// Within a lone chunk, a neighbour is occupied exactly when it is a cell of
/// the chunk that holds a block.
pub proof fn lemma_own_neighbors(cells: Seq<Block>, chunk: Point, p: Point)
    requires
        in_chunk(p),
    ensures
        forall|face: Face|
            #![trigger neighbor(p, face)]
            chunk_occupancy(cells, chunk).contains(neighbor(world_point(chunk, p), face)) == (
            in_chunk(neighbor(p, face)) && cells[linear_index(neighbor(p, face))].occupied()),
{
}

/// Whether no earlier entry of `points` equals entry `i`.
pub open spec fn first_occurrence(points: Seq<IVec3>, i: int) -> bool {
    forall|j: int| 0 <= j < i ==> points[j] != points[i]
}

/// For each distinct point among the first `n` of `points`, in order of
/// first appearance: the point, and whether all six of its axis neighbours
/// are among all of `points`.
pub open spec fn adjacency_entries(points: Seq<IVec3>, n: int) -> Seq<(IVec3, bool)>
    decreases n,
{
    if n <= 0 {
        Seq::empty()
    } else if first_occurrence(points, n - 1) {
        adjacency_entries(points, n - 1).push(
            (points[n - 1], neighbor_count(listed(points), points[n - 1]@) == 6),
        )
    } else {
        adjacency_entries(points, n - 1)
    }
}

/// For each distinct point of `vectors`, in order of first appearance,
/// whether all six of its axis neighbours are listed too.
pub fn check_adjacent(vectors: &[IVec3]) -> (result: Vec<(IVec3, bool)>)
    ensures
        result@ == adjacency_entries(vectors@, vectors@.len() as int),
{
    let mut set = OccupancySet::new();
    let mut fresh: Vec<bool> = Vec::with_capacity(vectors.len());
    let mut i: usize = 0;
    while i < vectors.len()
        invariant
            i <= vectors.len(),
            fresh@.len() == i,
            set@ == listed_upto(vectors@, i as int),
            forall|j: int| 0 <= j < i ==> fresh@[j] == first_occurrence(vectors@, j),
        decreases vectors.len() - i,
    {
        let is_new = set.insert(vectors[i]);
        proof {
            lemma_listed_step(vectors@, i as int);
        }
        fresh.push(is_new);
        i += 1;
    }
    let mut result: Vec<(IVec3, bool)> = Vec::new();
    let mut k: usize = 0;
    while k < vectors.len()
        invariant
            k <= vectors.len(),
            fresh@.len() == vectors.len(),
            set@ == listed(vectors@),
            forall|j: int| 0 <= j < vectors.len() ==> fresh@[j] == first_occurrence(vectors@, j),
            result@ == adjacency_entries(vectors@, k as int),
        decreases vectors.len() - k,
    {
        if fresh[k] {
            let enclosed = set.neighbor_count(vectors[k]) == 6;
            result.push((vectors[k], enclosed));
        }
        k += 1;
    }
    result
}

/// Every entry that `check_adjacent` returns is one of the listed points,
/// with the flag that says whether all six of its neighbours are listed.
pub proof fn lemma_adjacency_entries_are_listed(points: Seq<IVec3>, n: int, k: int)
    requires
        0 <= n <= points.len(),
        0 <= k < adjacency_entries(points, n).len(),
    ensures
        adjacency_entries(points, n)[k].1 == (neighbor_count(
            listed(points),
            adjacency_entries(points, n)[k].0@,
        ) == 6),
        exists|i: int| 0 <= i < n && #[trigger] points[i] == adjacency_entries(points, n)[k].0,
    decreases n,
{
    let before = adjacency_entries(points, n - 1);
    if first_occurrence(points, n - 1) && k == before.len() {
        assert(points[n - 1] == adjacency_entries(points, n)[k].0);
    } else {
        lemma_adjacency_entries_are_listed(points, n - 1, k);
        let i = choose|i: int| 0 <= i < n - 1 && #[trigger] points[i] == before[k].0;
        assert(points[i] == adjacency_entries(points, n)[k].0);
    }
}

/// No point has two entries in what `check_adjacent` returns.
pub proof fn lemma_adjacency_entries_are_distinct(points: Seq<IVec3>, n: int, a: int, b: int)
    requires
        0 <= n <= points.len(),
        0 <= a < b < adjacency_entries(points, n).len(),
    ensures
        adjacency_entries(points, n)[a].0 != adjacency_entries(points, n)[b].0,
    decreases n,
{
    let before = adjacency_entries(points, n - 1);
    if first_occurrence(points, n - 1) && b == before.len() {
        lemma_adjacency_entries_are_listed(points, n - 1, a);
        let i = choose|i: int| 0 <= i < n - 1 && #[trigger] points[i] == before[a].0;
        assert(points[i] != points[n - 1]);
    } else {
        lemma_adjacency_entries_are_distinct(points, n - 1, a, b);
    }
}

/// Every listed point has an entry in what `check_adjacent` returns.
pub proof fn lemma_adjacency_entries_are_complete(points: Seq<IVec3>, n: int, i: int)
    requires
        0 <= i < n <= points.len(),
    ensures
        exists|k: int|
            0 <= k < adjacency_entries(points, n).len() && (#[trigger] adjacency_entries(
                points,
                n,
            )[k]).0 == points[i],
    decreases n,
{
    let before = adjacency_entries(points, n - 1);
    let entries = adjacency_entries(points, n);
    if i == n - 1 && first_occurrence(points, n - 1) {
        assert(entries[before.len() as int].0 == points[i]);
    } else {
        // An earlier entry of the list holds the same point.
        let j = if i == n - 1 {
            choose|j: int| 0 <= j < n - 1 && #[trigger] points[j] == points[n - 1]
        } else {
            i
        };
        lemma_adjacency_entries_are_complete(points, n - 1, j);
        let k = choose|k: int| 0 <= k < before.len() && (#[trigger] before[k]).0 == points[j];
        assert(entries[k].0 == points[i]);
    }
}

/// The flag that a visibility map holds for a cell is the visibility of that
/// cell.
pub proof fn lemma_visibility_at(cells: Seq<Block>, chunk: Point, occupied: Set<Point>, p: Point)
    requires
        in_chunk(p),
    ensures
        0 <= linear_index(p) < CHUNK_VOLUME,
        visibility_of(cells, chunk, occupied)[linear_index(p)] == visible_in(
            cells,
            chunk,
            occupied,
            p,
        ),
{
    lemma_linear_index_roundtrip(p);
}

/// A chunk of which every cell holds a block, and whose own blocks are all
/// in the occupancy set, shows a block exactly where the position next to it
/// in some direction is missing from the set. Such a block lies on the hull
/// of the chunk, and the missing position lies outside the chunk; no block
/// strictly inside is visible.
pub proof fn lemma_full_chunk_visibility(
    cells: Seq<Block>,
    chunk: Point,
    occupied: Set<Point>,
    p: Point,
)
    requires
        cells.len() == CHUNK_VOLUME,
        forall|i: int| 0 <= i < CHUNK_VOLUME ==> (#[trigger] cells[i]).occupied(),
        chunk_occupancy(cells, chunk).subset_of(occupied),
        in_chunk(p),
    ensures
        !on_chunk_hull(p) ==> !visible_in(cells, chunk, occupied, p),
        forall|face: Face|
            !occupied.contains(#[trigger] neighbor(world_point(chunk, p), face)) ==> {
                &&& visible_in(cells, chunk, occupied, p)
                &&& on_chunk_hull(p)
                &&& !in_chunk(neighbor(p, face))
            },
        visible_in(cells, chunk, occupied, p) ==> exists|face: Face|
            !occupied.contains(#[trigger] neighbor(world_point(chunk, p), face)),
{
    // Every neighbour inside the chunk is one of the chunk's own blocks.
    assert forall|face: Face| in_chunk(neighbor(p, face)) implies occupied.contains(
        #[trigger] neighbor(world_point(chunk, p), face),
    ) by {}
}

/// A lone chunk with exactly one block shows that block, which has none of
/// its six neighbours, and nothing else.
pub proof fn lemma_single_block_visible(cells: Seq<Block>, chunk: Point, p: Point)
    requires
        cells.len() == CHUNK_VOLUME,
        in_chunk(p),
        cells[linear_index(p)].occupied(),
        forall|i: int|
            0 <= i < CHUNK_VOLUME && i != linear_index(p) ==> !(#[trigger] cells[i]).occupied(),
    ensures
        neighbor_count(chunk_occupancy(cells, chunk), world_point(chunk, p)) == 0,
        visible_in(cells, chunk, chunk_occupancy(cells, chunk), p),
        visibility_of(cells, chunk, chunk_occupancy(cells, chunk)) == Seq::new(
            CHUNK_VOLUME as nat,
            |i: int| i == linear_index(p),
        ),
{
    let own = chunk_occupancy(cells, chunk);
    lemma_own_neighbors(cells, chunk, p);
    assert forall|i: int| 0 <= i < CHUNK_VOLUME implies visible_in(
        cells,
        chunk,
        own,
        point_of_index(i),
    ) == (i == linear_index(p)) by {
        lemma_point_of_index_roundtrip(i);
    }
}

/// A block is hidden exactly when it is air or all six of its neighbours are
/// occupied: the count of present neighbours is never more than six, so
/// "fewer than six" and "not all six" are the same test.
pub proof fn lemma_enclosed_block_hidden(
    cells: Seq<Block>,
    chunk: Point,
    occupied: Set<Point>,
    p: Point,
)
    ensures
        0 <= neighbor_count(occupied, world_point(chunk, p)) <= 6,
        (neighbor_count(occupied, world_point(chunk, p)) == 6) <==> (forall|face: Face|
            occupied.contains(#[trigger] neighbor(world_point(chunk, p), face))),
        visible_in(cells, chunk, occupied, p) <==> cells[linear_index(p)].occupied() && !(
        neighbor_count(occupied, world_point(chunk, p)) == 6),
        (forall|face: Face| occupied.contains(#[trigger] neighbor(world_point(chunk, p), face)))
            ==> !visible_in(cells, chunk, occupied, p),
{
    let w = world_point(chunk, p);
    if neighbor_count(occupied, w) == 6 {
        // The six directions are all there are.
        assert forall|face: Face| occupied.contains(#[trigger] neighbor(w, face)) by {
            match face {
                Face::PosX => {},
                Face::NegX => {},
                Face::PosY => {},
                Face::NegY => {},
                Face::PosZ => {},
                Face::NegZ => {},
            }
        }
    }
}

} // verus!
