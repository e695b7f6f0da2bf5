//! Integer coordinates: local cells of a chunk, chunk coordinates, world
//! positions, the six face directions and the linear order of the cells.

use vstd::arithmetic::div_mod::{lemma_fundamental_div_mod, lemma_fundamental_div_mod_converse};
use vstd::prelude::*;

verus! {

/// A point of the integer lattice, as contracts speak of it.
pub type Point = (int, int, int);

/// Cells along each edge of a chunk.
pub const CHUNK_SIZE: i32 = 16;

/// Cells in a chunk.
pub const CHUNK_VOLUME: usize = 4096;

/// Largest magnitude of a chunk coordinate: every cell of such a chunk, and
/// every neighbour of such a cell, has a world position that fits in `i32`.
pub const MAX_CHUNK_COORD: i32 = 134_217_726;

/// A triple of signed integers. Depending on where it is used it is a local
/// position inside a chunk, a chunk coordinate, or a world position.
#[derive(Debug, PartialEq, Eq, Structural, Clone, Copy, Hash)]
pub struct IVec3 {
    pub x: i32,
    pub y: i32,
    pub z: i32,
}

impl View for IVec3 {
    type V = Point;

    open spec fn view(&self) -> Point {
        (self.x as int, self.y as int, self.z as int)
    }
}

/// A read or write named a cell that is not in the chunk.
#[derive(Debug, PartialEq, Eq, Structural, Clone, Copy)]
pub struct BoundsError {
    /// The offending local position.
    pub position: IVec3,
}

/// One of the six axis-aligned directions.
#[derive(Debug, PartialEq, Eq, Structural, Clone, Copy, Hash)]
pub enum Face {
    NegX,
    NegY,
    NegZ,
    PosX,
    PosY,
    PosZ,
}

/// One of the three coordinate axes.
#[derive(Debug, PartialEq, Eq, Structural, Clone, Copy, Hash)]
pub enum Axis {
    X,
    Y,
    Z,
}

/// The position with the given coordinates, which must fit in `i32`.
pub open spec fn position_at(p: Point) -> IVec3 {
    IVec3 { x: p.0 as i32, y: p.1 as i32, z: p.2 as i32 }
}

/// Whether every coordinate of a local position lies in `0..16`.
pub open spec fn in_chunk(p: Point) -> bool {
    &&& 0 <= p.0 < 16
    &&& 0 <= p.1 < 16
    &&& 0 <= p.2 < 16
}

/// Whether every coordinate fits in `i32`.
pub open spec fn in_i32_range(p: Point) -> bool {
    &&& i32::MIN <= p.0 <= i32::MAX
    &&& i32::MIN <= p.1 <= i32::MAX
    &&& i32::MIN <= p.2 <= i32::MAX
}

/// Whether a chunk coordinate is small enough for world positions to fit.
pub open spec fn chunk_coord_in_range(c: Point) -> bool {
    &&& -MAX_CHUNK_COORD <= c.0 <= MAX_CHUNK_COORD
    &&& -MAX_CHUNK_COORD <= c.1 <= MAX_CHUNK_COORD
    &&& -MAX_CHUNK_COORD <= c.2 <= MAX_CHUNK_COORD
}

/// Place of a local cell in the dense storage order: `x + 16*y + 256*z`.
pub open spec fn linear_index(p: Point) -> int {
    p.0 + 16 * p.1 + 256 * p.2
}

/// The local cell stored at place `i`.
pub open spec fn point_of_index(i: int) -> Point {
    (i % 16, (i / 16) % 16, i / 256)
}

/// World position of the local cell `local` of the chunk at `chunk`.
pub open spec fn world_point(chunk: Point, local: Point) -> Point {
    (16 * chunk.0 + local.0, 16 * chunk.1 + local.1, 16 * chunk.2 + local.2)
}

/// The unit step in the direction of a face.
pub open spec fn face_offset(face: Face) -> Point {
    match face {
        Face::NegX => (-1, 0, 0),
        Face::NegY => (0, -1, 0),
        Face::NegZ => (0, 0, -1),
        Face::PosX => (1, 0, 0),
        Face::PosY => (0, 1, 0),
        Face::PosZ => (0, 0, 1),
    }
}

/// The point one step from `p` in the direction of `face`.
pub open spec fn neighbor(p: Point, face: Face) -> Point {
    let d = face_offset(face);
    (p.0 + d.0, p.1 + d.1, p.2 + d.2)
}

/// Every cell has a place in `0..4096`, and the place names the cell.
pub proof fn lemma_linear_index_roundtrip(p: Point)
    requires
        in_chunk(p),
    ensures
        0 <= linear_index(p) < 4096,
        point_of_index(linear_index(p)) == p,
{
    lemma_place_of_parts(p.0, p.1, p.2);
}

/// Every place in `0..4096` holds a cell, and the cell names the place.
pub proof fn lemma_point_of_index_roundtrip(i: int)
    requires
        0 <= i < 4096,
    ensures
        in_chunk(point_of_index(i)),
        linear_index(point_of_index(i)) == i,
{
    lemma_parts_of_place(i);
}

/// A place among 16 by 16 by 16 is its first, second and third part put
/// together.
pub proof fn lemma_parts_of_place(s: int)
    ensures
        s == s % 16 + 16 * ((s / 16) % 16) + 256 * (s / 256),
        0 <= s % 16 < 16,
        0 <= (s / 16) % 16 < 16,
{
    lemma_fundamental_div_mod(s, 16);
    lemma_fundamental_div_mod(s / 16, 16);
    lemma_fundamental_div_mod_converse(
        s,
        256,
        (s / 16) / 16,
        s % 16 + 16 * ((s / 16) % 16),
    );
}

/// The three parts can be read off a place.
pub proof fn lemma_place_of_parts(u: int, v: int, n: int)
    requires
        0 <= u < 16,
        0 <= v < 16,
    ensures
        (u + 16 * v + 256 * n) % 16 == u,
        ((u + 16 * v + 256 * n) / 16) % 16 == v,
        (u + 16 * v + 256 * n) / 256 == n,
{
    let x = u + 16 * v + 256 * n;
    lemma_fundamental_div_mod_converse(x, 16, v + 16 * n, u);
    lemma_fundamental_div_mod_converse(v + 16 * n, 16, n, v);
    lemma_fundamental_div_mod_converse(x, 256, n, u + 16 * v);
}

/// Two cells with the same place are the same cell.
pub proof fn lemma_linear_index_injective(p: Point, q: Point)
    requires
        in_chunk(p),
        in_chunk(q),
        linear_index(p) == linear_index(q),
    ensures
        p == q,
{
    lemma_linear_index_roundtrip(p);
    lemma_linear_index_roundtrip(q);
}

impl IVec3 {
    /// The triple with the given coordinates.
    pub fn new(x: i32, y: i32, z: i32) -> (r: IVec3)
        ensures
            r == (IVec3 { x, y, z }),
    {
        IVec3 { x, y, z }
    }

    /// Whether this is the local position of a cell of a chunk.
    pub fn is_local(&self) -> (r: bool)
        ensures
            r == in_chunk(self@),
    {
        0 <= self.x && self.x < 16 && 0 <= self.y && self.y < 16 && 0 <= self.z && self.z < 16
    }

    /// Whether this chunk coordinate keeps world positions inside `i32`.
    pub fn is_chunk_coord(&self) -> (r: bool)
        ensures
            r == chunk_coord_in_range(self@),
    {
        -MAX_CHUNK_COORD <= self.x && self.x <= MAX_CHUNK_COORD && -MAX_CHUNK_COORD <= self.y
            && self.y <= MAX_CHUNK_COORD && -MAX_CHUNK_COORD <= self.z && self.z
            <= MAX_CHUNK_COORD
    }

    /// The position one step away in the direction of `face`, unless that
    /// step leaves the range of `i32`.
    pub fn step(&self, face: Face) -> (r: Option<IVec3>)
        ensures
            in_i32_range(neighbor(self@, face)) ==> r is Some && r->0@ == neighbor(self@, face),
            !in_i32_range(neighbor(self@, face)) ==> r is None,
    {
        match face {
            Face::NegX => if self.x > i32::MIN {
                Some(IVec3 { x: self.x - 1, y: self.y, z: self.z })
            } else {
                None
            },
            Face::NegY => if self.y > i32::MIN {
                Some(IVec3 { x: self.x, y: self.y - 1, z: self.z })
            } else {
                None
            },
            Face::NegZ => if self.z > i32::MIN {
                Some(IVec3 { x: self.x, y: self.y, z: self.z - 1 })
            } else {
                None
            },
            Face::PosX => if self.x < i32::MAX {
                Some(IVec3 { x: self.x + 1, y: self.y, z: self.z })
            } else {
                None
            },
            Face::PosY => if self.y < i32::MAX {
                Some(IVec3 { x: self.x, y: self.y + 1, z: self.z })
            } else {
                None
            },
            Face::PosZ => if self.z < i32::MAX {
                Some(IVec3 { x: self.x, y: self.y, z: self.z + 1 })
            } else {
                None
            },
        }
    }
}

impl Face {
    /// Place of the face in the fixed order -X, -Y, -Z, +X, +Y, +Z.
    pub open spec fn spec_index(self) -> usize {
        match self {
            Face::NegX => 0,
            Face::NegY => 1,
            Face::NegZ => 2,
            Face::PosX => 3,
            Face::PosY => 4,
            Face::PosZ => 5,
        }
    }

    /// Place of the face in the fixed order -X, -Y, -Z, +X, +Y, +Z.
    #[verifier::when_used_as_spec(spec_index)]
    pub fn index(self) -> (r: usize)
        ensures
            r == self.spec_index(),
    {
        match self {
            Face::NegX => 0,
            Face::NegY => 1,
            Face::NegZ => 2,
            Face::PosX => 3,
            Face::PosY => 4,
            Face::PosZ => 5,
        }
    }

    /// The face at the given place of the fixed order.
    pub fn from_index(i: usize) -> (r: Option<Face>)
        ensures
            i < 6 ==> r is Some && r->0.spec_index() == i,
            i >= 6 ==> r is None,
    {
        if i == 0 {
            Some(Face::NegX)
        } else if i == 1 {
            Some(Face::NegY)
        } else if i == 2 {
            Some(Face::NegZ)
        } else if i == 3 {
            Some(Face::PosX)
        } else if i == 4 {
            Some(Face::PosY)
        } else if i == 5 {
            Some(Face::PosZ)
        } else {
            None
        }
    }

    /// The axis along which the face's normal points.
    pub open spec fn spec_axis(self) -> Axis {
        match self {
            Face::NegX | Face::PosX => Axis::X,
            Face::NegY | Face::PosY => Axis::Y,
            Face::NegZ | Face::PosZ => Axis::Z,
        }
    }

    /// The axis along which the face's normal points.
    #[verifier::when_used_as_spec(spec_axis)]
    pub fn axis(self) -> (r: Axis)
        ensures
            r == self.spec_axis(),
    {
        match self {
            Face::NegX | Face::PosX => Axis::X,
            Face::NegY | Face::PosY => Axis::Y,
            Face::NegZ | Face::PosZ => Axis::Z,
        }
    }

    /// Whether the normal points towards growing coordinates.
    pub open spec fn spec_is_positive(self) -> bool {
        self is PosX || self is PosY || self is PosZ
    }

    /// Whether the normal points towards growing coordinates.
    #[verifier::when_used_as_spec(spec_is_positive)]
    pub fn is_positive(self) -> (r: bool)
        ensures
            r == self.spec_is_positive(),
    {
        match self {
            Face::PosX | Face::PosY | Face::PosZ => true,
            _ => false,
        }
    }
}

/// Place of a local position in the dense storage order, or the bounds error
/// when the position is not in the chunk.
pub fn linearize(p: IVec3) -> (r: Result<usize, BoundsError>)
    ensures
        in_chunk(p@) ==> r == Ok::<usize, BoundsError>(linear_index(p@) as usize),
        !in_chunk(p@) ==> r == Err::<usize, BoundsError>(BoundsError { position: p }),
{
    if p.is_local() {
        Ok((p.x + 16 * p.y + 256 * p.z) as usize)
    } else {
        Err(BoundsError { position: p })
    }
}

/// The local position stored at place `i`, if `i` is a place of the chunk.
pub fn delinearize(i: usize) -> (r: Option<IVec3>)
    ensures
        i < 4096 ==> r == Some(position_at(point_of_index(i as int))) && r->0@ == point_of_index(
            i as int,
        ),
        i >= 4096 ==> r is None,
{
    if i < CHUNK_VOLUME {
        Some(cell_of_index(i))
    } else {
        None
    }
}

/// The local position stored at place `i` of the chunk.
pub(crate) fn cell_of_index(i: usize) -> (p: IVec3)
    requires
        i < CHUNK_VOLUME,
    ensures
        p == position_at(point_of_index(i as int)),
        p@ == point_of_index(i as int),
{
    IVec3 { x: (i % 16) as i32, y: ((i / 16) % 16) as i32, z: (i / 256) as i32 }
}

} // verus!
