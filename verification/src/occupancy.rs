//! The set of world positions that hold a block.

use std::collections::HashSet;
use vstd::prelude::*;
use vstd::std_specs::hash::*;
use crate::block::Block;
use crate::chunk::ChunkGrid;
use crate::geometry::{
    in_chunk, in_i32_range, linear_index, neighbor, point_of_index, world_point, Face, IVec3,
    Point, CHUNK_VOLUME,
};

verus! {

/// The key under which a world position is stored: its three coordinates,
/// each shifted to be non-negative, side by side in one 128-bit number.
pub open spec fn position_key(p: Point) -> int {
    (p.0 + 0x8000_0000) + (p.1 + 0x8000_0000) * 0x1_0000_0000 + (p.2 + 0x8000_0000)
        * 0x1_0000_0000_0000_0000
}

/// Different positions have different keys.
pub proof fn lemma_position_key_injective(p: Point, q: Point)
    requires
        in_i32_range(p),
        in_i32_range(q),
        position_key(p) == position_key(q),
    ensures
        p == q,
{
}

/// The world positions of the occupied cells of a chunk.
pub open spec fn chunk_occupancy(cells: Seq<Block>, chunk: Point) -> Set<Point> {
    Set::new(
        |w: Point|
            {
                let p = (w.0 - 16 * chunk.0, w.1 - 16 * chunk.1, w.2 - 16 * chunk.2);
                in_chunk(p) && cells[linear_index(p)].occupied()
            },
    )
}

/// The world positions of the occupied cells among the first `n` cells of a
/// chunk.
pub open spec fn chunk_occupancy_upto(cells: Seq<Block>, chunk: Point, n: int) -> Set<Point> {
    Set::new(
        |w: Point|
            {
                let p = (w.0 - 16 * chunk.0, w.1 - 16 * chunk.1, w.2 - 16 * chunk.2);
                in_chunk(p) && linear_index(p) < n && cells[linear_index(p)].occupied()
            },
    )
}

/// The positions listed among the first `n` entries of `points`.
pub open spec fn listed_upto(points: Seq<IVec3>, n: int) -> Set<Point> {
    Set::new(|w: Point| exists|i: int| 0 <= i < n && i < points.len() && #[trigger] points[i]@ == w)
}

/// The positions listed in `points`.
pub open spec fn listed(points: Seq<IVec3>) -> Set<Point> {
    listed_upto(points, points.len() as int)
}

/// How many of the six axis neighbours of `w` are in `occupied`.
pub open spec fn neighbor_count(occupied: Set<Point>, w: Point) -> int {
    let present = |face: Face|
        if occupied.contains(neighbor(w, face)) {
            1int
        } else {
            0int
        };
    present(Face::PosX) + present(Face::NegX) + present(Face::PosY) + present(Face::NegY)
        + present(Face::PosZ) + present(Face::NegZ)
}

/// A set of world positions, each of which holds a block that is not air.
#[derive(Debug, PartialEq, Eq)]
pub struct OccupancySet {
    keys: HashSet<u128>,
}

impl View for OccupancySet {
    type V = Set<Point>;

    closed spec fn view(&self) -> Set<Point> {
        Set::new(|p: Point| in_i32_range(p) && self.keys@.contains(position_key(p) as u128))
    }
}

fn key_of(p: IVec3) -> (k: u128)
    ensures
        k == position_key(p@),
{
    let x: u128 = (p.x as i64 + 0x8000_0000) as u128;
    let y: u128 = (p.y as i64 + 0x8000_0000) as u128;
    let z: u128 = (p.z as i64 + 0x8000_0000) as u128;
    x + y * 0x1_0000_0000 + z * 0x1_0000_0000_0000_0000
}

impl OccupancySet {
    /// The empty set.
    pub fn new() -> (s: OccupancySet)
        ensures
            s@ == Set::<Point>::empty(),
    {
        OccupancySet { keys: HashSet::new() }
    }

    /// Every member is a position with `i32` coordinates.
    pub proof fn lemma_members_in_range(&self, p: Point)
        requires
            self@.contains(p),
        ensures
            in_i32_range(p),
    {
    }

    /// Adds a position. Returns whether it was absent before.
    pub fn insert(&mut self, p: IVec3) -> (fresh: bool)
        ensures
            final(self)@ == old(self)@.insert(p@),
            fresh == !old(self)@.contains(p@),
    {
        broadcast use group_hash_axioms;

        let k = key_of(p);
        let fresh = self.keys.insert(k);
        proof {
            assert forall|q: Point| #[trigger] final(self)@.contains(q) == old(self)@.insert(
                p@,
            ).contains(q) by {
                if in_i32_range(q) && position_key(q) == position_key(p@) {
                    lemma_position_key_injective(p@, q);
                }
            }
        }
        fresh
    }

    /// Takes a position out. Returns whether it was present before.
    pub fn remove(&mut self, p: IVec3) -> (present: bool)
        ensures
            final(self)@ == old(self)@.remove(p@),
            present == old(self)@.contains(p@),
    {
        broadcast use group_hash_axioms;

        let k = key_of(p);
        let present = self.keys.remove(&k);
        proof {
            assert forall|q: Point| #[trigger] final(self)@.contains(q) == old(self)@.remove(
                p@,
            ).contains(q) by {
                if in_i32_range(q) && position_key(q) == position_key(p@) {
                    lemma_position_key_injective(p@, q);
                }
            }
        }
        present
    }

    /// Whether the position is in the set.
    pub fn contains(&self, p: IVec3) -> (r: bool)
        ensures
            r == self@.contains(p@),
    {
        broadcast use group_hash_axioms;

        let k = key_of(p);
        self.keys.contains(&k)
    }

    /// Whether the position one step from `p` towards `face` is in the set.
    /// A step that leaves the range of `i32` reaches nothing.
    pub fn contains_neighbor(&self, p: IVec3, face: Face) -> (r: bool)
        ensures
            r == self@.contains(neighbor(p@, face)),
    {
        match p.step(face) {
            Some(q) => self.contains(q),
            None => false,
        }
    }

    /// How many of the six axis neighbours of `p` are in the set.
    pub fn neighbor_count(&self, p: IVec3) -> (n: u8)
        ensures
            n == neighbor_count(self@, p@),
    {
        let mut n: u8 = 0;
        if self.contains_neighbor(p, Face::PosX) {
            n += 1;
        }
        if self.contains_neighbor(p, Face::NegX) {
            n += 1;
        }
        if self.contains_neighbor(p, Face::PosY) {
            n += 1;
        }
        if self.contains_neighbor(p, Face::NegY) {
            n += 1;
        }
        if self.contains_neighbor(p, Face::PosZ) {
            n += 1;
        }
        if self.contains_neighbor(p, Face::NegZ) {
            n += 1;
        }
        n
    }

    /// Adds the world positions of all occupied cells of a chunk.
    pub fn insert_chunk(&mut self, grid: &ChunkGrid)
        ensures
            final(self)@ == old(self)@.union(chunk_occupancy(grid@, grid.chunk_coord())),
    {
        proof {
            use_type_invariant(grid);
        }
        let ghost chunk = grid.chunk_coord();
        let mut i: usize = 0;
        while i < CHUNK_VOLUME
            invariant
                i <= CHUNK_VOLUME,
                grid.wf(),
                chunk == grid.chunk_coord(),
                self@ == old(self)@.union(chunk_occupancy_upto(grid@, chunk, i as int)),
            decreases CHUNK_VOLUME - i,
        {
            if grid.cell(i).is_occupied() {
                self.insert(grid.world_position_of_index(i));
            }
            proof {
                // Cell `i` is the one cell that this step takes into account.
                let p = point_of_index(i as int);
                assert(chunk_occupancy_upto(grid@, chunk, i + 1) =~= if grid@[i as int].occupied() {
                    chunk_occupancy_upto(grid@, chunk, i as int).insert(world_point(chunk, p))
                } else {
                    chunk_occupancy_upto(grid@, chunk, i as int)
                });
            }
            i += 1;
        }
        assert(chunk_occupancy_upto(grid@, chunk, CHUNK_VOLUME as int) =~= chunk_occupancy(
            grid@,
            chunk,
        ));
    }

    /// The set of the listed positions.
    pub fn from_positions(points: &[IVec3]) -> (s: OccupancySet)
        ensures
            s@ == listed(points@),
    {
        let mut s = OccupancySet::new();
        let mut i: usize = 0;
        while i < points.len()
            invariant
                i <= points.len(),
                s@ == listed_upto(points@, i as int),
            decreases points.len() - i,
        {
            s.insert(points[i]);
            proof {
                lemma_listed_step(points@, i as int);
            }
            i += 1;
        }
        s
    }
}

/// Listing one more entry adds that entry's position to the set.
pub proof fn lemma_listed_step(points: Seq<IVec3>, i: int)
    requires
        0 <= i < points.len(),
    ensures
        listed_upto(points, i + 1) == listed_upto(points, i).insert(points[i]@),
{
    assert forall|w: Point| #[trigger]
        listed_upto(points, i + 1).contains(w) == listed_upto(points, i).insert(
            points[i]@,
        ).contains(w) by {
    }
}

} // verus!
