//! A box of chunks generated together.

use vstd::prelude::*;
use crate::chunk::ChunkGrid;
use crate::generation::{
    generation_outcome, sampler_accepts, ChunkGenerator, GenerationError, GenerationMode,
};
use crate::geometry::{IVec3, Point, MAX_CHUNK_COORD};
use crate::occupancy::{chunk_occupancy, OccupancySet};

verus! {

/// The value of `x` read as a 32-bit two's complement number.
pub open spec fn as_signed(x: u32) -> int {
    if x <= i32::MAX {
        x as int
    } else {
        x - 0x1_0000_0000
    }
}

/// The least and the greatest chunk coordinate, on each axis, of a world
/// that is `x` chunks wide and centred on the origin: from `-(x / 2)` to
/// `x / 2` for odd `x`, and to `x / 2 - 1` for even `x`. A width beyond
/// `i32::MAX` is read as a 32-bit two's complement number, halved towards
/// zero.
pub open spec fn bounds_of(x: u32) -> ((i32, i32, i32), (i32, i32, i32)) {
    let s = as_signed(x);
    let half = if s >= 0 {
        s / 2
    } else {
        -((-s) / 2)
    };
    let low = (-half) as i32;
    let high = if s >= 0 && s % 2 == 1 {
        half as i32
    } else {
        (half - 1) as i32
    };
    ((low, low, low), (high, high, high))
}

/// The least and the greatest chunk coordinate of a world `x` chunks wide.
pub fn get_bounds(x: u32) -> (r: ((i32, i32, i32), (i32, i32, i32)))
    ensures
        r == bounds_of(x),
{
    let signed: i32 = if x <= 0x7fff_ffff {
        x as i32
    } else {
        ((x - 0x8000_0000) as i32) + i32::MIN
    };
    let result: i32 = signed / 2;
    let lower_bounds = (-result, -result, -result);
    let mod_result: i32 = signed % 2;
    let upper_bounds = if mod_result == 1 {
        (result, result, result)
    } else {
        (result - 1, result - 1, result - 1)
    };
    (lower_bounds, upper_bounds)
}

/// Whether `c` lies in the box of chunk coordinates from `lower` to `upper`,
/// both included.
pub open spec fn in_box(lower: Point, upper: Point, c: Point) -> bool {
    &&& lower.0 <= c.0 <= upper.0
    &&& lower.1 <= c.1 <= upper.1
    &&& lower.2 <= c.2 <= upper.2
}

/// Whether a box of chunk coordinates, which may be empty along any axis,
/// runs upwards and holds only coordinates whose world positions fit in
/// `i32`.
pub open spec fn box_in_range(lower: Point, upper: Point) -> bool {
    &&& -MAX_CHUNK_COORD <= lower.0 <= upper.0 + 1 <= MAX_CHUNK_COORD + 1
    &&& -MAX_CHUNK_COORD <= lower.1 <= upper.1 + 1 <= MAX_CHUNK_COORD + 1
    &&& -MAX_CHUNK_COORD <= lower.2 <= upper.2 + 1 <= MAX_CHUNK_COORD + 1
}

/// Whether `a` comes before `b` in the order in which a box is generated:
/// by x, then by y, then by z.
pub open spec fn generated_before(a: Point, b: Point) -> bool {
    a.0 < b.0 || (a.0 == b.0 && (a.1 < b.1 || (a.1 == b.1 && a.2 < b.2)))
}

/// The chunk coordinate of the chunk that holds world position `w`.
pub open spec fn chunk_of(w: Point) -> Point {
    (w.0 / 16, w.1 / 16, w.2 / 16)
}

/// The local position of world position `w` inside its chunk.
pub open spec fn local_of(w: Point) -> Point {
    (w.0 % 16, w.1 % 16, w.2 % 16)
}

/// A box of chunks, generated once and read from then on.
#[derive(Debug, PartialEq, Eq)]
pub struct World {
    lower: IVec3,
    upper: IVec3,
    chunks: Vec<Vec<Vec<ChunkGrid>>>,
    render_distance: usize,
}

impl World {
    /// The least chunk coordinate on each axis.
    pub closed spec fn lower(&self) -> Point {
        self.lower@
    }

    /// The greatest chunk coordinate on each axis.
    pub closed spec fn upper(&self) -> Point {
        self.upper@
    }

    /// The chunk at a chunk coordinate of the box.
    pub closed spec fn chunk_at(&self, c: Point) -> ChunkGrid {
        self.chunks@[c.0 - self.lower.x]@[c.1 - self.lower.y]@[c.2 - self.lower.z]
    }

    /// How many chunks away from the viewer chunks are meant to be drawn.
    pub closed spec fn spec_render_distance(&self) -> usize {
        self.render_distance
    }

    /// Whether the world has a chunk at `c`.
    pub open spec fn contains_coord(&self, c: Point) -> bool {
        in_box(self.lower(), self.upper(), c)
    }

    /// The world positions that hold a block.
    pub open spec fn occupied_positions(&self) -> Set<Point> {
        Set::new(
            |w: Point|
                self.contains_coord(chunk_of(w)) && self.chunk_at(chunk_of(w)).block_at(
                    local_of(w),
                ).occupied(),
        )
    }

    /// The box has a chunk for each of its coordinates, and each chunk knows
    /// its coordinate.
    #[verifier::type_invariant]
    pub closed spec fn wf(&self) -> bool {
        &&& -MAX_CHUNK_COORD <= self.lower.x && self.upper.x <= MAX_CHUNK_COORD
        &&& -MAX_CHUNK_COORD <= self.lower.y && self.upper.y <= MAX_CHUNK_COORD
        &&& -MAX_CHUNK_COORD <= self.lower.z && self.upper.z <= MAX_CHUNK_COORD
        &&& self.lower.x <= self.upper.x + 1
        &&& self.lower.y <= self.upper.y + 1
        &&& self.lower.z <= self.upper.z + 1
        &&& self.chunks@.len() == self.upper.x - self.lower.x + 1
        &&& forall|i: int|
            0 <= i < self.chunks@.len() ==> (#[trigger] self.chunks@[i])@.len() == self.upper.y
                - self.lower.y + 1
        &&& forall|i: int, j: int|
            0 <= i < self.chunks@.len() && 0 <= j < self.chunks@[i]@.len() ==> (
            #[trigger] self.chunks@[i]@[j])@.len() == self.upper.z - self.lower.z + 1
        &&& forall|i: int, j: int, k: int|
            0 <= i < self.chunks@.len() && 0 <= j < self.chunks@[i]@.len() && 0 <= k
                < self.chunks@[i]@[j]@.len() ==> {
                &&& (#[trigger] self.chunks@[i]@[j]@[k]).wf()
                &&& self.chunks@[i]@[j]@[k].chunk_coord() == (
                    self.lower.x + i,
                    self.lower.y + j,
                    self.lower.z + k,
                )
            }
    }
}

/// Whether the sampler may be asked at every sample point of every chunk of
/// the box.
pub open spec fn accepts_in_box<F: Fn(i32, i32, i32) -> Option<i64>>(
    sampler: F,
    mode: GenerationMode,
    lower: Point,
    upper: Point,
) -> bool {
    forall|c: Point| in_box(lower, upper, c) ==> #[trigger] sampler_accepts(sampler, c, mode)
}

/// Whether every chunk of a run along z, starting at `(x, y, z_lo)`, is an
/// outcome of generation at its coordinate.
spec fn line_generated<F: Fn(i32, i32, i32) -> Option<i64>>(
    threshold: int,
    sampler: F,
    mode: GenerationMode,
    x: int,
    y: int,
    z_lo: int,
    line: Seq<ChunkGrid>,
) -> bool {
    forall|k: int|
        0 <= k < line.len() ==> generation_outcome(
            threshold,
            sampler,
            (x, y, z_lo + k),
            mode,
            Ok::<ChunkGrid, GenerationError>(#[trigger] line[k]),
        )
}

/// Whether the sampler lets the chunk at `c` be generated.
pub open spec fn can_generate<F: Fn(i32, i32, i32) -> Option<i64>>(
    threshold: int,
    sampler: F,
    mode: GenerationMode,
    c: Point,
) -> bool {
    exists|grid: ChunkGrid| #[trigger]
        generation_outcome(threshold, sampler, c, mode, Ok::<ChunkGrid, GenerationError>(grid))
}

/// Whether generation of the box ran into `e` at the chunk coordinate `c`:
/// `e` is an outcome of generation at `c`, and every chunk of the box that
/// comes before `c` could be generated.
pub open spec fn failed_at<F: Fn(i32, i32, i32) -> Option<i64>>(
    threshold: int,
    sampler: F,
    mode: GenerationMode,
    lower: Point,
    upper: Point,
    e: GenerationError,
    c: Point,
) -> bool {
    &&& in_box(lower, upper, c)
    &&& generation_outcome(threshold, sampler, c, mode, Err::<ChunkGrid, GenerationError>(e))
    &&& forall|b: Point|
        in_box(lower, upper, b) && generated_before(b, c) ==> #[trigger] can_generate(
            threshold,
            sampler,
            mode,
            b,
        )
}

/// Whether generation of the box failed with `e`: at the first chunk
/// coordinate, in the order of generation, at which it could fail.
pub open spec fn failed_in_box<F: Fn(i32, i32, i32) -> Option<i64>>(
    threshold: int,
    sampler: F,
    mode: GenerationMode,
    lower: Point,
    upper: Point,
    e: GenerationError,
) -> bool {
    exists|c: Point| #[trigger] failed_at(threshold, sampler, mode, lower, upper, e, c)
}

fn generate_line<F: Fn(i32, i32, i32) -> Option<i64>>(
    generator: &ChunkGenerator,
    sampler: &F,
    mode: GenerationMode,
    x: i32,
    y: i32,
    z_lo: i32,
    z_hi: i32,
) -> (r: Result<Vec<ChunkGrid>, GenerationError>)
    requires
        accepts_in_box(
            *sampler,
            mode,
            (x as int, y as int, z_lo as int),
            (x as int, y as int, z_hi as int),
        ),
        -MAX_CHUNK_COORD <= x <= MAX_CHUNK_COORD,
        -MAX_CHUNK_COORD <= y <= MAX_CHUNK_COORD,
        -MAX_CHUNK_COORD <= z_lo,
        z_hi <= MAX_CHUNK_COORD,
        z_lo <= z_hi + 1,
    ensures
        match r {
            Ok(line) => {
                &&& line@.len() == z_hi - z_lo + 1
                &&& line_generated(
                    generator.density_threshold as int,
                    *sampler,
                    mode,
                    x as int,
                    y as int,
                    z_lo as int,
                    line@,
                )
            },
            Err(e) => failed_in_box(
                generator.density_threshold as int,
                *sampler,
                mode,
                (x as int, y as int, z_lo as int),
                (x as int, y as int, z_hi as int),
                e,
            ),
        },
{
    let mut line: Vec<ChunkGrid> = Vec::new();
    let mut z: i32 = z_lo;
    while z <= z_hi
        invariant
            accepts_in_box(
                *sampler,
                mode,
                (x as int, y as int, z_lo as int),
                (x as int, y as int, z_hi as int),
            ),
            -MAX_CHUNK_COORD <= x <= MAX_CHUNK_COORD,
            -MAX_CHUNK_COORD <= y <= MAX_CHUNK_COORD,
            -MAX_CHUNK_COORD <= z_lo,
            z_hi <= MAX_CHUNK_COORD,
            z_lo <= z <= z_hi + 1,
            line@.len() == z - z_lo,
            line_generated(
                generator.density_threshold as int,
                *sampler,
                mode,
                x as int,
                y as int,
                z_lo as int,
                line@,
            ),
        decreases z_hi + 1 - z,
    {
        assert(in_box(
            (x as int, y as int, z_lo as int),
            (x as int, y as int, z_hi as int),
            (x as int, y as int, z as int),
        ));
        match generator.generate(IVec3 { x, y, z }, sampler, mode) {
            Ok(grid) => {
                line.push(grid);
            },
            Err(e) => {
                proof {
                    let threshold = generator.density_threshold as int;
                    let lo = (x as int, y as int, z_lo as int);
                    let hi = (x as int, y as int, z_hi as int);
                    let c = (x as int, y as int, z as int);
                    assert forall|b: Point|
                        in_box(lo, hi, b) && generated_before(b, c) implies #[trigger] can_generate(
                        threshold,
                        *sampler,
                        mode,
                        b,
                    ) by {
                        let grid = line@[b.2 - z_lo];
                        assert(generation_outcome(
                            threshold,
                            *sampler,
                            b,
                            mode,
                            Ok::<ChunkGrid, GenerationError>(grid),
                        ));
                    }
                    assert(failed_at(threshold, *sampler, mode, lo, hi, e, c));
                }
                return Err(e);
            },
        }
        z += 1;
    }
    Ok(line)
}

/// Whether every run of a layer of chunks at `x` has `depth` chunks, each
/// an outcome of generation at its coordinate.
spec fn plane_generated<F: Fn(i32, i32, i32) -> Option<i64>>(
    threshold: int,
    sampler: F,
    mode: GenerationMode,
    x: int,
    y_lo: int,
    z_lo: int,
    depth: int,
    plane: Seq<Vec<ChunkGrid>>,
) -> bool {
    forall|j: int|
        0 <= j < plane.len() ==> (#[trigger] plane[j])@.len() == depth && line_generated(
            threshold,
            sampler,
            mode,
            x,
            y_lo + j,
            z_lo,
            plane[j]@,
        )
}

/// Whether every layer of a box of chunks has `height` runs of `depth`
/// chunks, each chunk an outcome of generation at its coordinate.
spec fn box_generated<F: Fn(i32, i32, i32) -> Option<i64>>(
    threshold: int,
    sampler: F,
    mode: GenerationMode,
    lower: Point,
    height: int,
    depth: int,
    chunks: Seq<Vec<Vec<ChunkGrid>>>,
) -> bool {
    forall|i: int|
        0 <= i < chunks.len() ==> (#[trigger] chunks[i])@.len() == height && plane_generated(
            threshold,
            sampler,
            mode,
            lower.0 + i,
            lower.1,
            lower.2,
            depth,
            chunks[i]@,
        )
}

fn generate_plane<F: Fn(i32, i32, i32) -> Option<i64>>(
    generator: &ChunkGenerator,
    sampler: &F,
    mode: GenerationMode,
    x: i32,
    y_lo: i32,
    y_hi: i32,
    z_lo: i32,
    z_hi: i32,
) -> (r: Result<Vec<Vec<ChunkGrid>>, GenerationError>)
    requires
        accepts_in_box(
            *sampler,
            mode,
            (x as int, y_lo as int, z_lo as int),
            (x as int, y_hi as int, z_hi as int),
        ),
        -MAX_CHUNK_COORD <= x <= MAX_CHUNK_COORD,
        -MAX_CHUNK_COORD <= y_lo,
        y_hi <= MAX_CHUNK_COORD,
        y_lo <= y_hi + 1,
        -MAX_CHUNK_COORD <= z_lo,
        z_hi <= MAX_CHUNK_COORD,
        z_lo <= z_hi + 1,
    ensures
        match r {
            Ok(plane) => {
                &&& plane@.len() == y_hi - y_lo + 1
                &&& plane_generated(
                    generator.density_threshold as int,
                    *sampler,
                    mode,
                    x as int,
                    y_lo as int,
                    z_lo as int,
                    z_hi - z_lo + 1,
                    plane@,
                )
            },
            Err(e) => failed_in_box(
                generator.density_threshold as int,
                *sampler,
                mode,
                (x as int, y_lo as int, z_lo as int),
                (x as int, y_hi as int, z_hi as int),
                e,
            ),
        },
{
    let ghost threshold = generator.density_threshold as int;
    let mut plane: Vec<Vec<ChunkGrid>> = Vec::new();
    let mut y: i32 = y_lo;
    while y <= y_hi
        invariant
            accepts_in_box(
                *sampler,
                mode,
                (x as int, y_lo as int, z_lo as int),
                (x as int, y_hi as int, z_hi as int),
            ),
            threshold == generator.density_threshold as int,
            -MAX_CHUNK_COORD <= x <= MAX_CHUNK_COORD,
            -MAX_CHUNK_COORD <= y_lo,
            y_hi <= MAX_CHUNK_COORD,
            -MAX_CHUNK_COORD <= z_lo,
            z_hi <= MAX_CHUNK_COORD,
            z_lo <= z_hi + 1,
            y_lo <= y <= y_hi + 1,
            plane@.len() == y - y_lo,
            plane_generated(
                threshold,
                *sampler,
                mode,
                x as int,
                y_lo as int,
                z_lo as int,
                z_hi - z_lo + 1,
                plane@,
            ),
        decreases y_hi + 1 - y,
    {
        match generate_line(generator, sampler, mode, x, y, z_lo, z_hi) {
            Ok(line) => {
                plane.push(line);
            },
            Err(e) => {
                proof {
                    let line_lo = (x as int, y as int, z_lo as int);
                    let line_hi = (x as int, y as int, z_hi as int);
                    let lo = (x as int, y_lo as int, z_lo as int);
                    let hi = (x as int, y_hi as int, z_hi as int);
                    let c = choose|c: Point| #[trigger]
                        failed_at(threshold, *sampler, mode, line_lo, line_hi, e, c);
                    assert forall|b: Point|
                        in_box(lo, hi, b) && generated_before(b, c) implies #[trigger] can_generate(
                        threshold,
                        *sampler,
                        mode,
                        b,
                    ) by {
                        if b.1 < y {
                            let done = plane@[b.1 - y_lo];
                            let grid = done@[b.2 - z_lo];
                            assert(generation_outcome(
                                threshold,
                                *sampler,
                                b,
                                mode,
                                Ok::<ChunkGrid, GenerationError>(grid),
                            ));
                        }
                    }
                    assert(failed_at(threshold, *sampler, mode, lo, hi, e, c));
                }
                return Err(e);
            },
        }
        y += 1;
    }
    Ok(plane)
}

fn generate_box<F: Fn(i32, i32, i32) -> Option<i64>>(
    generator: &ChunkGenerator,
    sampler: &F,
    mode: GenerationMode,
    lower: IVec3,
    upper: IVec3,
) -> (r: Result<Vec<Vec<Vec<ChunkGrid>>>, GenerationError>)
    requires
        accepts_in_box(*sampler, mode, lower@, upper@),
        box_in_range(lower@, upper@),
    ensures
        match r {
            Ok(chunks) => {
                &&& chunks@.len() == upper.x - lower.x + 1
                &&& box_generated(
                    generator.density_threshold as int,
                    *sampler,
                    mode,
                    lower@,
                    upper.y - lower.y + 1,
                    upper.z - lower.z + 1,
                    chunks@,
                )
            },
            Err(e) => failed_in_box(
                generator.density_threshold as int,
                *sampler,
                mode,
                lower@,
                upper@,
                e,
            ),
        },
{
    let ghost threshold = generator.density_threshold as int;
    let mut chunks: Vec<Vec<Vec<ChunkGrid>>> = Vec::new();
    let mut x: i32 = lower.x;
    while x <= upper.x
        invariant
            accepts_in_box(*sampler, mode, lower@, upper@),
            threshold == generator.density_threshold as int,
            box_in_range(lower@, upper@),
            lower.x <= x <= upper.x + 1,
            chunks@.len() == x - lower.x,
            box_generated(
                threshold,
                *sampler,
                mode,
                lower@,
                upper.y - lower.y + 1,
                upper.z - lower.z + 1,
                chunks@,
            ),
        decreases upper.x + 1 - x,
    {
        match generate_plane(generator, sampler, mode, x, lower.y, upper.y, lower.z, upper.z) {
            Ok(plane) => {
                chunks.push(plane);
            },
            Err(e) => {
                proof {
                    let plane_lo = (x as int, lower.y as int, lower.z as int);
                    let plane_hi = (x as int, upper.y as int, upper.z as int);
                    let c = choose|c: Point| #[trigger]
                        failed_at(threshold, *sampler, mode, plane_lo, plane_hi, e, c);
                    assert forall|b: Point|
                        in_box(lower@, upper@, b) && generated_before(b, c) implies #[trigger] can_generate(
                        threshold,
                        *sampler,
                        mode,
                        b,
                    ) by {
                        if b.0 < x {
                            let done = chunks@[b.0 - lower.x];
                            let run = done@[b.1 - lower.y];
                            let grid = run@[b.2 - lower.z];
                            assert(generation_outcome(
                                threshold,
                                *sampler,
                                b,
                                mode,
                                Ok::<ChunkGrid, GenerationError>(grid),
                            ));
                        }
                    }
                    assert(failed_at(threshold, *sampler, mode, lower@, upper@, e, c));
                }
                return Err(e);
            },
        }
        x += 1;
    }
    Ok(chunks)
}

/// Whether `world` is the box of chunks from `lower` to `upper`, each of its
/// chunks is an outcome of generation at its coordinate, and its render
/// distance is the given one.
pub open spec fn world_generated<F: Fn(i32, i32, i32) -> Option<i64>>(
    threshold: int,
    sampler: F,
    mode: GenerationMode,
    lower: Point,
    upper: Point,
    render_distance: usize,
    world: World,
) -> bool {
    &&& world.lower() == lower
    &&& world.upper() == upper
    &&& world.spec_render_distance() == render_distance
    &&& forall|c: Point|
        in_box(lower, upper, c) ==> generation_outcome(
            threshold,
            sampler,
            c,
            mode,
            Ok::<ChunkGrid, GenerationError>(#[trigger] world.chunk_at(c)),
        )
}

/// The world positions that hold a block in a chunk of the world that comes
/// before chunk coordinate `c` in the order of generation.
spec fn occupied_before(world: World, c: Point) -> Set<Point> {
    Set::new(
        |w: Point|
            world.contains_coord(chunk_of(w)) && generated_before(chunk_of(w), c)
                && world.chunk_at(chunk_of(w)).block_at(local_of(w)).occupied(),
    )
}

impl Default for World {
    /// The world without chunks, with the render distance 0.
    fn default() -> (world: World)
        ensures
            world.lower() == (0int, 0int, 0int),
            world.upper() == (-1int, -1int, -1int),
            world.spec_render_distance() == 0,
            forall|c: Point| !world.contains_coord(c),
    {
        World {
            lower: IVec3 { x: 0, y: 0, z: 0 },
            upper: IVec3 { x: -1, y: -1, z: -1 },
            chunks: Vec::new(),
            render_distance: 0,
        }
    }
}

impl World {
    /// Generates the box of chunks from `lower` to `upper`, by x, then by
    /// y, then by z, and stops at the first chunk that fails.
    fn generate_between<F: Fn(i32, i32, i32) -> Option<i64>>(
        generator: &ChunkGenerator,
        sampler: &F,
        mode: GenerationMode,
        lower: IVec3,
        upper: IVec3,
        render_distance: usize,
    ) -> (r: Result<World, GenerationError>)
        requires
            accepts_in_box(*sampler, mode, lower@, upper@),
            box_in_range(lower@, upper@),
        ensures
            match r {
                Ok(world) => world_generated(
                    generator.density_threshold as int,
                    *sampler,
                    mode,
                    lower@,
                    upper@,
                    render_distance,
                    world,
                ),
                Err(e) => failed_in_box(
                    generator.density_threshold as int,
                    *sampler,
                    mode,
                    lower@,
                    upper@,
                    e,
                ),
            },
    {
        match generate_box(generator, sampler, mode, lower, upper) {
            Ok(chunks) => {
                let world = World { lower, upper, chunks, render_distance };
                assert forall|c: Point| in_box(lower@, upper@, c) implies generation_outcome(
                    generator.density_threshold as int,
                    *sampler,
                    c,
                    mode,
                    Ok::<ChunkGrid, GenerationError>(#[trigger] world.chunk_at(c)),
) by {
                    let plane = chunks@[c.0 - lower.x];
                    let line = plane@[c.1 - lower.y];
                    assert(world.chunk_at(c) == line@[c.2 - lower.z]);
                }
                Ok(world)
            },
            Err(e) => Err(e),
        }
    }

    /// Generates a flat square of chunks, `square_size` chunks along x and
    /// along z at the chunk height 0, starting at the chunk coordinate
    /// `(0, 0, 0)`. Chunks are generated by x, then by z; the first chunk
    /// that fails ends generation with its error. A square has at least one
    /// chunk along each side. The render distance starts at 0.
    pub fn new<F: Fn(i32, i32, i32) -> Option<i64>>(
        square_size: usize,
        generator: &ChunkGenerator,
        sampler: &F,
        mode: GenerationMode,
    ) -> (r: Result<World, GenerationError>)
        requires
            accepts_in_box(*sampler, mode, (0, 0, 0), (square_size - 1, 0, square_size - 1)),
            1 <= square_size <= MAX_CHUNK_COORD,
        ensures
            match r {
                Ok(world) => world_generated(
                    generator.density_threshold as int,
                    *sampler,
                    mode,
                    (0, 0, 0),
                    (square_size - 1, 0, square_size - 1),
                    0,
                    world,
                ),
                Err(e) => failed_in_box(
                    generator.density_threshold as int,
                    *sampler,
                    mode,
                    (0, 0, 0),
                    (square_size - 1, 0, square_size - 1),
                    e,
                ),
            },
    {
        let last: i32 = square_size as i32 - 1;
        Self::generate_between(
            generator,
            sampler,
            mode,
            IVec3 { x: 0, y: 0, z: 0 },
            IVec3 { x: last, y: 0, z: last },
            0,
        )
    }

    /// Replaces the chunks of a world by a freshly generated cube of chunks,
    /// `initial_size` chunks along each axis and centred on the origin as
    /// `get_bounds` says. The render distance stays as it was set. Chunks
    /// are generated by x, then by y, then by z; the first chunk that fails
    /// ends generation with its error.
    pub fn initial_gen<F: Fn(i32, i32, i32) -> Option<i64>>(
        self,
        initial_size: u32,
        generator: &ChunkGenerator,
        sampler: &F,
        mode: GenerationMode,
    ) -> (r: Result<World, GenerationError>)
        requires
            accepts_in_box(
                *sampler,
                mode,
                (
                    bounds_of(initial_size).0.0 as int,
                    bounds_of(initial_size).0.1 as int,
                    bounds_of(initial_size).0.2 as int,
                ),
                (
                    bounds_of(initial_size).1.0 as int,
                    bounds_of(initial_size).1.1 as int,
                    bounds_of(initial_size).1.2 as int,
                ),
            ),
            initial_size <= MAX_CHUNK_COORD,
        ensures
            match r {
                Ok(world) => world_generated(
                    generator.density_threshold as int,
                    *sampler,
                    mode,
                    (
                        bounds_of(initial_size).0.0 as int,
                        bounds_of(initial_size).0.1 as int,
                        bounds_of(initial_size).0.2 as int,
                    ),
                    (
                        bounds_of(initial_size).1.0 as int,
                        bounds_of(initial_size).1.1 as int,
                        bounds_of(initial_size).1.2 as int,
                    ),
                    self.spec_render_distance(),
                    world,
                ),
                Err(e) => failed_in_box(
                    generator.density_threshold as int,
                    *sampler,
                    mode,
                    (
                        bounds_of(initial_size).0.0 as int,
                        bounds_of(initial_size).0.1 as int,
                        bounds_of(initial_size).0.2 as int,
                    ),
                    (
                        bounds_of(initial_size).1.0 as int,
                        bounds_of(initial_size).1.1 as int,
                        bounds_of(initial_size).1.2 as int,
                    ),
                    e,
                ),
            },
    {
        let (lower, upper) = get_bounds(initial_size);
        Self::generate_between(
            generator,
            sampler,
            mode,
            IVec3 { x: lower.0, y: lower.1, z: lower.2 },
            IVec3 { x: upper.0, y: upper.1, z: upper.2 },
            self.render_distance,
        )
    }

    /// The least chunk coordinate on each axis.
    pub fn lower_bound(&self) -> (r: IVec3)
        ensures
            r@ == self.lower(),
    {
        self.lower
    }

    /// The greatest chunk coordinate on each axis.
    pub fn upper_bound(&self) -> (r: IVec3)
        ensures
            r@ == self.upper(),
    {
        self.upper
    }

    /// The chunk at a chunk coordinate, if the world has one there.
    pub fn chunk(&self, coord: IVec3) -> (r: Option<&ChunkGrid>)
        ensures
            self.contains_coord(coord@) ==> r is Some && *r->0 == self.chunk_at(coord@),
            !self.contains_coord(coord@) ==> r is None,
    {
        proof {
            use_type_invariant(self);
        }
        if self.lower.x <= coord.x && coord.x <= self.upper.x && self.lower.y <= coord.y
            && coord.y <= self.upper.y && self.lower.z <= coord.z && coord.z <= self.upper.z {
            let i: usize = (coord.x - self.lower.x) as usize;
            let j: usize = (coord.y - self.lower.y) as usize;
            let k: usize = (coord.z - self.lower.z) as usize;
            Some(&self.chunks[i][j][k])
        } else {
            None
        }
    }

    /// How many chunks away from the viewer chunks are meant to be drawn.
    pub fn render_distance(&self) -> (r: usize)
        ensures
            r == self.spec_render_distance(),
    {
        self.render_distance
    }

    /// Sets how many chunks away from the viewer chunks are meant to be
    /// drawn. The chunks stay as they are.
    pub fn set_render_distance(&mut self, distance: usize)
        ensures
            final(self).spec_render_distance() == distance,
            final(self).lower() == old(self).lower(),
            final(self).upper() == old(self).upper(),
            forall|c: Point| final(self).chunk_at(c) == old(self).chunk_at(c),
    {
        proof {
            use_type_invariant(&*self);
        }
        self.render_distance = distance;
    }

    /// The occupancy set of the whole world: the world positions of all
    /// blocks of all its chunks. This is what the visibility of a chunk is
    /// to be computed against once every chunk has been generated.
    pub fn occupancy(&self) -> (set: OccupancySet)
        ensures
            set@ == self.occupied_positions(),
    {
        proof {
            use_type_invariant(self);
        }
        let mut set = OccupancySet::new();
        let ghost lo = self.lower();
        let ghost hi = self.upper();
        let mut i: usize = 0;
        while i < self.chunks.len()
            invariant
                self.wf(),
                lo == self.lower(),
                hi == self.upper(),
                i <= self.chunks@.len(),
                set@ == occupied_before(*self, (lo.0 + i, lo.1, lo.2)),
            decreases self.chunks@.len() - i,
        {
            let mut j: usize = 0;
            while j < self.chunks[i].len()
                invariant
                    self.wf(),
                    lo == self.lower(),
                    hi == self.upper(),
                    i < self.chunks@.len(),
                    j <= self.chunks@[i as int]@.len(),
                    set@ == occupied_before(*self, (lo.0 + i, lo.1 + j, lo.2)),
                decreases self.chunks@[i as int]@.len() - j,
            {
                let mut k: usize = 0;
                while k < self.chunks[i][j].len()
                    invariant
                        self.wf(),
                        lo == self.lower(),
                        hi == self.upper(),
                        i < self.chunks@.len(),
                        j < self.chunks@[i as int]@.len(),
                        k <= self.chunks@[i as int]@[j as int]@.len(),
                        set@ == occupied_before(*self, (lo.0 + i, lo.1 + j, lo.2 + k)),
                    decreases self.chunks@[i as int]@[j as int]@.len() - k,
                {
                    let grid = &self.chunks[i][j][k];
                    let ghost c = (lo.0 + i, lo.1 + j, lo.2 + k);
                    set.insert_chunk(grid);
                    proof {
                        // A chunk holds the positions whose chunk coordinate is its own.
                        assert forall|w: Point| #[trigger]
                            chunk_occupancy(grid@, c).contains(w) == (chunk_of(w) == c
                                && grid.block_at(local_of(w)).occupied()) by {}
                    }
                    k += 1;
                }
                j += 1;
            }
            i += 1;
        }
        set
    }
}

} // verus!
