//! Populating a chunk from the samples of a density or height field.
//!
//! The field itself is evaluated by the caller. What reaches the generator
//! are whole numbers: in height-map mode the height of each column, in
//! density mode the density of each cell. A sample that has no finite value
//! arrives as `None` and is reported, never replaced by a default.

use vstd::prelude::*;
use crate::block::{Block, BlockType};
use crate::chunk::ChunkGrid;
use crate::geometry::{
    chunk_coord_in_range, in_chunk, lemma_linear_index_roundtrip, linear_index, point_of_index,
    position_at, world_point, IVec3, Point, CHUNK_VOLUME,
};

verus! {

/// How samples decide the blocks of a chunk.
#[derive(Debug, PartialEq, Eq, Structural, Clone, Copy, Hash)]
pub enum GenerationMode {
    /// One sample per cell: the cell is air where the sample exceeds the
    /// threshold, and solid elsewhere.
    Density3D,
    /// One sample per column: the column is filled from the bottom up to the
    /// sampled height.
    Heightmap2D,
}

/// Why a chunk could not be generated.
#[derive(Debug, PartialEq, Eq, Structural, Clone, Copy)]
pub enum GenerationError {
    /// The field has no finite value at this world position.
    NonFiniteSample { position: IVec3 },
    /// The table of samples does not have one entry per sample point.
    SampleCount { expected: usize, found: usize },
}

/// Samples a mode needs for one chunk.
pub open spec fn sample_count(mode: GenerationMode) -> int {
    match mode {
        GenerationMode::Density3D => 4096,
        GenerationMode::Heightmap2D => 256,
    }
}

/// The world position at which sample `k` of a chunk is taken. Density
/// samples follow the storage order of the cells. Height samples are taken
/// on the plane `y = 0`, column `(x, z)` at place `x + 16*z`.
pub open spec fn sample_point(chunk: Point, mode: GenerationMode, k: int) -> Point {
    match mode {
        GenerationMode::Density3D => world_point(chunk, point_of_index(k)),
        GenerationMode::Heightmap2D => (16 * chunk.0 + k % 16, 0, 16 * chunk.2 + k / 16),
    }
}

/// The place of the sample that decides local cell `p`.
pub open spec fn sample_index(mode: GenerationMode, p: Point) -> int {
    match mode {
        GenerationMode::Density3D => linear_index(p),
        GenerationMode::Heightmap2D => p.0 + 16 * p.2,
    }
}

/// A sampled height brought into the chunk: below 0 it becomes 0, above 15
/// it becomes 15.
pub open spec fn clamp_height(h: int) -> int {
    if h < 0 {
        0
    } else if h > 15 {
        15
    } else {
        h
    }
}

/// The block at height `y` of a column whose sampled height is `h`: grass on
/// the topmost filled layer, dirt below it, air above.
pub open spec fn heightmap_block(h: int, y: int) -> Block {
    if y < clamp_height(h) {
        Block(BlockType::Dirt)
    } else if y == clamp_height(h) {
        Block(BlockType::Grass)
    } else {
        Block(BlockType::Air)
    }
}

/// The block of a cell with the given density: air above the threshold,
/// stone otherwise.
pub open spec fn density_block(sample: int, threshold: int) -> Block {
    if sample > threshold {
        Block(BlockType::Air)
    } else {
        Block(BlockType::Stone)
    }
}

/// The block of local cell `p`, given the sample that decides it.
pub open spec fn block_from_sample(
    mode: GenerationMode,
    threshold: int,
    sample: int,
    p: Point,
) -> Block {
    match mode {
        GenerationMode::Density3D => density_block(sample, threshold),
        GenerationMode::Heightmap2D => heightmap_block(sample, p.1),
    }
}

/// The blocks of a chunk, in storage order, that a full table of samples
/// gives.
pub open spec fn generated_cells(
    mode: GenerationMode,
    threshold: int,
    samples: Seq<Option<i64>>,
) -> Seq<Block> {
    Seq::new(
        CHUNK_VOLUME as nat,
        |i: int|
            block_from_sample(
                mode,
                threshold,
                samples[sample_index(mode, point_of_index(i))]->0 as int,
                point_of_index(i),
            ),
    )
}

/// Whether `k` is the first place of `samples` that holds no value.
pub open spec fn first_missing(samples: Seq<Option<i64>>, k: int) -> bool {
    &&& 0 <= k < samples.len()
    &&& samples[k] is None
    &&& forall|j: int| 0 <= j < k ==> samples[j] is Some
}

/// Whether every place of `samples` holds a value.
pub open spec fn all_present(samples: Seq<Option<i64>>) -> bool {
    forall|j: int| 0 <= j < samples.len() ==> samples[j] is Some
}

/// The arguments with which the sampler is asked for sample `k` of a chunk:
/// the coordinates of the sample point.
pub open spec fn sample_args(chunk: Point, mode: GenerationMode, k: int) -> (i32, i32, i32) {
    let p = sample_point(chunk, mode, k);
    (p.0 as i32, p.1 as i32, p.2 as i32)
}

/// Whether the sampler may be asked at every sample point of a chunk.
pub open spec fn sampler_accepts<F: Fn(i32, i32, i32) -> Option<i64>>(
    sampler: F,
    chunk: Point,
    mode: GenerationMode,
) -> bool {
    forall|k: int|
        0 <= k < sample_count(mode) ==> call_requires(
            sampler,
            #[trigger] sample_args(chunk, mode, k),
        )
}

/// Whether `samples` are values that `sampler` may return, in order, at the
/// sample points of a chunk.
pub open spec fn sampled_by<F: Fn(i32, i32, i32) -> Option<i64>>(
    sampler: F,
    chunk: Point,
    mode: GenerationMode,
    samples: Seq<Option<i64>>,
) -> bool {
    forall|k: int|
        0 <= k < samples.len() ==> call_ensures(
            sampler,
            sample_args(chunk, mode, k),
            #[trigger] samples[k],
        )
}

/// Whether `samples` account for an outcome of `generate`: they are what the
/// sampler answered at the sample points in order, up to and including the
/// first point without a value. With a value everywhere the outcome is the
/// chunk those samples give; otherwise it is the error that names the first
/// point without one.
pub open spec fn outcome_from<F: Fn(i32, i32, i32) -> Option<i64>>(
    threshold: int,
    sampler: F,
    chunk: Point,
    mode: GenerationMode,
    outcome: Result<ChunkGrid, GenerationError>,
    samples: Seq<Option<i64>>,
) -> bool {
    &&& sampled_by(sampler, chunk, mode, samples)
    &&& samples.len() <= sample_count(mode)
    &&& match outcome {
        Ok(grid) => {
            &&& samples.len() == sample_count(mode)
            &&& all_present(samples)
            &&& grid.wf()
            &&& grid.chunk_coord() == chunk
            &&& grid@ == generated_cells(mode, threshold, samples)
        },
        Err(GenerationError::NonFiniteSample { position }) => {
            &&& first_missing(samples, samples.len() - 1)
            &&& position == position_at(sample_point(chunk, mode, samples.len() - 1))
        },
        Err(GenerationError::SampleCount { .. }) => false,
    }
}

/// What `generate` may return for a sampler: an outcome that some run of
/// answers of the sampler accounts for.
pub open spec fn generation_outcome<F: Fn(i32, i32, i32) -> Option<i64>>(
    threshold: int,
    sampler: F,
    chunk: Point,
    mode: GenerationMode,
    outcome: Result<ChunkGrid, GenerationError>,
) -> bool {
    exists|samples: Seq<Option<i64>>| #[trigger]
        outcome_from(threshold, sampler, chunk, mode, outcome, samples)
}

/// Turns the samples of a field into the blocks of a chunk.
#[derive(Debug, PartialEq, Eq, Structural, Clone, Copy)]
pub struct ChunkGenerator {
    /// Density above which a cell is air.
    pub density_threshold: i64,
}

impl Default for ChunkGenerator {
    /// The generator with the density threshold -1.
    fn default() -> (r: ChunkGenerator)
        ensures
            r.density_threshold == -1,
    {
        ChunkGenerator { density_threshold: -1 }
    }
}

impl ChunkGenerator {
    /// The generator with the given density threshold.
    pub fn new(density_threshold: i64) -> (r: ChunkGenerator)
        ensures
            r.density_threshold == density_threshold,
    {
        ChunkGenerator { density_threshold }
    }

    /// Samples a mode needs for one chunk.
    pub fn samples_needed(mode: GenerationMode) -> (n: usize)
        ensures
            n == sample_count(mode),
    {
        match mode {
            GenerationMode::Density3D => 4096,
            GenerationMode::Heightmap2D => 256,
        }
    }

    /// The world position at which sample `k` of a chunk is to be taken, or
    /// `None` when the mode has no sample `k`.
    pub fn sample_position(chunk_coord: IVec3, mode: GenerationMode, k: usize) -> (r: Option<
        IVec3,
    >)
        requires
            chunk_coord_in_range(chunk_coord@),
        ensures
            k < sample_count(mode) ==> r == Some(
                position_at(sample_point(chunk_coord@, mode, k as int)),
            ) && r->0@ == sample_point(chunk_coord@, mode, k as int),
            k >= sample_count(mode) ==> r is None,
    {
        if k >= Self::samples_needed(mode) {
            return None;
        }
        match mode {
            GenerationMode::Density3D => Some(
                IVec3 {
                    x: 16 * chunk_coord.x + (k % 16) as i32,
                    y: 16 * chunk_coord.y + ((k / 16) % 16) as i32,
                    z: 16 * chunk_coord.z + (k / 256) as i32,
                },
            ),
            GenerationMode::Heightmap2D => Some(
                IVec3 {
                    x: 16 * chunk_coord.x + (k % 16) as i32,
                    y: 0,
                    z: 16 * chunk_coord.z + (k / 16) as i32,
                },
            ),
        }
    }

    /// The block of the cell at place `i` of the storage order, given the
    /// sample that decides it.
    fn block_for(&self, mode: GenerationMode, sample: i64, i: usize) -> (b: Block)
        requires
            i < CHUNK_VOLUME,
        ensures
            b == block_from_sample(
                mode,
                self.density_threshold as int,
                sample as int,
                point_of_index(i as int),
            ),
    {
        match mode {
            GenerationMode::Density3D => if sample > self.density_threshold {
                Block(BlockType::Air)
            } else {
                Block(BlockType::Stone)
            },
            GenerationMode::Heightmap2D => {
                let top: i64 = if sample < 0 {
                    0
                } else if sample > 15 {
                    15
                } else {
                    sample
                };
                let y: i64 = ((i / 16) % 16) as i64;
                if y < top {
                    Block(BlockType::Dirt)
                } else if y == top {
                    Block(BlockType::Grass)
                } else {
                    Block(BlockType::Air)
                }
            },
        }
    }

    /// Builds the chunk that a table of samples gives. The table holds one
    /// sample per sample point of the mode, in the order of `sample_point`.
    /// Fails when the table has the wrong length, and otherwise when a
    /// sample is missing; the error then names the world position of the
    /// first missing one.
    pub fn from_samples(
        &self,
        chunk_coord: IVec3,
        mode: GenerationMode,
        samples: &Vec<Option<i64>>,
    ) -> (r: Result<ChunkGrid, GenerationError>)
        requires
            chunk_coord_in_range(chunk_coord@),
        ensures
            samples@.len() != sample_count(mode) ==> r == Err::<ChunkGrid, GenerationError>(
                GenerationError::SampleCount {
                    expected: sample_count(mode) as usize,
                    found: samples.len(),
                },
            ),
            forall|k: int|
                samples@.len() == sample_count(mode) && first_missing(samples@, k) ==> r == Err::<
                    ChunkGrid,
                    GenerationError,
                >(
                    GenerationError::NonFiniteSample {
                        position: position_at(sample_point(chunk_coord@, mode, k)),
                    },
                ),
            samples@.len() == sample_count(mode) && all_present(samples@) ==> {
                &&& r is Ok
                &&& r->Ok_0.wf()
                &&& r->Ok_0.chunk_coord() == chunk_coord@
                &&& r->Ok_0@ == generated_cells(mode, self.density_threshold as int, samples@)
            },
    {
        let needed = Self::samples_needed(mode);
        if samples.len() != needed {
            return Err(GenerationError::SampleCount { expected: needed, found: samples.len() });
        }
        let mut k: usize = 0;
        while k < needed
            invariant
                k <= needed,
                needed == sample_count(mode),
                samples@.len() == needed,
                chunk_coord_in_range(chunk_coord@),
                forall|j: int| 0 <= j < k ==> samples@[j] is Some,
            decreases needed - k,
        {
            if samples[k].is_none() {
                let position = Self::sample_position(chunk_coord, mode, k);
                assert forall|k2: int| first_missing(samples@, k2) implies k2 == k by {
                    if k2 < k {
                    } else if k2 > k {
                    }
                }
                return Err(GenerationError::NonFiniteSample { position: position.unwrap() });
            }
            k += 1;
        }
        assert forall|k2: int| !first_missing(samples@, k2) by {
            if 0 <= k2 < samples@.len() {
            }
        }
        let mut blocks: Vec<Block> = Vec::with_capacity(CHUNK_VOLUME);
        let mut i: usize = 0;
        while i < CHUNK_VOLUME
            invariant
                i <= CHUNK_VOLUME,
                samples@.len() == sample_count(mode),
                all_present(samples@),
                blocks@.len() == i,
                forall|j: int|
                    0 <= j < i ==> blocks@[j] == generated_cells(
                        mode,
                        self.density_threshold as int,
                        samples@,
                    )[j],
            decreases CHUNK_VOLUME - i,
        {
            let at: usize = match mode {
                GenerationMode::Density3D => i,
                GenerationMode::Heightmap2D => i % 16 + 16 * (i / 256),
            };
            let sample: i64 = match samples[at] {
                Some(v) => v,
                None => 0,
            };
            blocks.push(self.block_for(mode, sample, i));
            i += 1;
        }
        match ChunkGrid::from_blocks(chunk_coord, blocks) {
            Some(grid) => Ok(grid),
            None => Err(GenerationError::SampleCount { expected: needed, found: samples.len() }),
        }
    }

    /// Generates the chunk at `chunk_coord` by asking `sampler` for the
    /// sample at each sample point of the mode, in order. The sampler gets
    /// the world coordinates of the point and answers with the sample, or
    /// with `None` where the field has no finite value; generation stops at
    /// the first such point and reports it.
    pub fn generate<F: Fn(i32, i32, i32) -> Option<i64>>(
        &self,
        chunk_coord: IVec3,
        sampler: &F,
        mode: GenerationMode,
    ) -> (r: Result<ChunkGrid, GenerationError>)
        requires
            chunk_coord_in_range(chunk_coord@),
            sampler_accepts(*sampler, chunk_coord@, mode),
        ensures
            generation_outcome(self.density_threshold as int, *sampler, chunk_coord@, mode, r),
    {
        let needed = Self::samples_needed(mode);
        let mut samples: Vec<Option<i64>> = Vec::with_capacity(needed);
        let mut k: usize = 0;
        while k < needed
            invariant
                k <= needed,
                needed == sample_count(mode),
                chunk_coord_in_range(chunk_coord@),
                sampler_accepts(*sampler, chunk_coord@, mode),
                samples@.len() == k,
                all_present(samples@),
                sampled_by(*sampler, chunk_coord@, mode, samples@),
            decreases needed - k,
        {
            let at = Self::sample_position(chunk_coord, mode, k).unwrap();
            assert((at.x, at.y, at.z) == sample_args(chunk_coord@, mode, k as int));
            let sample = sampler(at.x, at.y, at.z);
            let ghost taken = samples@.push(sample);
            samples.push(sample);
            assert(sampled_by(*sampler, chunk_coord@, mode, taken)) by {
                assert forall|j: int| 0 <= j < taken.len() implies call_ensures(
                    *sampler,
                    sample_args(chunk_coord@, mode, j),
                    #[trigger] taken[j],
                ) by {
                    if j < k {
                    }
                }
            }
            if sample.is_none() {
                let r = Err(GenerationError::NonFiniteSample { position: at });
                assert(outcome_from(
                    self.density_threshold as int,
                    *sampler,
                    chunk_coord@,
                    mode,
                    r,
                    taken,
                ));
                return r;
            }
            k += 1;
        }
        let r = self.from_samples(chunk_coord, mode, &samples);
        assert(outcome_from(
            self.density_threshold as int,
            *sampler,
            chunk_coord@,
            mode,
            r,
            samples@,
        ));
        r
    }
}

/// The samples of height-map mode that a table of heights stands for: the
/// height of column `(x, z)` is entry `z` of row `x`.
pub open spec fn table_samples(noise: Seq<[i32; 16]>) -> Seq<Option<i64>> {
    Seq::new(256, |k: int| Some(noise[k % 16]@[k / 16] as i64))
}

impl ChunkGrid {
    /// Fills a chunk from a table of column heights: row `x` of the table
    /// holds the heights of the columns `(x, 0)` to `(x, 15)`. Each column is
    /// filled as in height-map mode. Rows past the sixteenth are not read;
    /// with fewer than sixteen rows there is no chunk to build.
    pub fn gen(position: IVec3, noise: &Vec<[i32; 16]>) -> (r: Result<ChunkGrid, GenerationError>)
        requires
            chunk_coord_in_range(position@),
        ensures
            noise@.len() >= 16 ==> {
                &&& r is Ok
                &&& r->Ok_0.wf()
                &&& r->Ok_0.chunk_coord() == position@
                &&& r->Ok_0@ == generated_cells(
                    GenerationMode::Heightmap2D,
                    -1,
                    table_samples(noise@),
                )
            },
            noise@.len() < 16 ==> r == Err::<ChunkGrid, GenerationError>(
                GenerationError::SampleCount { expected: 16, found: noise.len() },
            ),
    {
        if noise.len() < 16 {
            return Err(GenerationError::SampleCount { expected: 16, found: noise.len() });
        }
        let mut samples: Vec<Option<i64>> = Vec::with_capacity(256);
        let mut k: usize = 0;
        while k < 256
            invariant
                k <= 256,
                noise@.len() >= 16,
                samples@.len() == k,
                forall|j: int| 0 <= j < k ==> samples@[j] == table_samples(noise@)[j],
            decreases 256 - k,
        {
            let row = &noise[k % 16];
            samples.push(Some(row[k / 16] as i64));
            k += 1;
        }
        assert(samples@ =~= table_samples(noise@));
        ChunkGenerator::default().from_samples(position, GenerationMode::Heightmap2D, &samples)
    }
}

/// Whether two outcomes of generation are the same: the same error, or
/// chunks at the same coordinate with the same blocks.
pub open spec fn same_outcome(
    a: Result<ChunkGrid, GenerationError>,
    b: Result<ChunkGrid, GenerationError>,
) -> bool {
    match (a, b) {
        (Ok(g), Ok(h)) => g@ == h@ && g.chunk_coord() == h.chunk_coord(),
        (Err(e), Err(f)) => e == f,
        _ => false,
    }
}

/// Generation is deterministic: with a sampler that answers each point in
/// one way only, any two runs for the same chunk coordinate, mode and
/// threshold end in the same outcome.
pub proof fn lemma_generation_deterministic<F: Fn(i32, i32, i32) -> Option<i64>>(
    threshold: int,
    sampler: F,
    chunk: Point,
    mode: GenerationMode,
    first: Result<ChunkGrid, GenerationError>,
    second: Result<ChunkGrid, GenerationError>,
)
    requires
        forall|args: (i32, i32, i32), a: Option<i64>, b: Option<i64>|
            call_ensures(sampler, args, a) && call_ensures(sampler, args, b) ==> a == b,
        generation_outcome(threshold, sampler, chunk, mode, first),
        generation_outcome(threshold, sampler, chunk, mode, second),
    ensures
        same_outcome(first, second),
{
    let s1 = choose|samples: Seq<Option<i64>>| #[trigger]
        outcome_from(threshold, sampler, chunk, mode, first, samples);
    let s2 = choose|samples: Seq<Option<i64>>| #[trigger]
        outcome_from(threshold, sampler, chunk, mode, second, samples);
    // The sampler answers each point in one way, so the two runs agree
    // wherever both asked.
    assert forall|k: int| 0 <= k < s1.len() && k < s2.len() implies s1[k] == s2[k] by {}
    if first is Ok && second is Ok {
        assert(s1 =~= s2);
    }
}

/// Where every column has the same sampled height `h`, a cell holds a block
/// exactly when its height in the chunk is at most `h` brought into `0..16`:
/// every column has that many blocks plus one, and air above them.
pub proof fn lemma_constant_height_columns(threshold: int, h: i64, samples: Seq<Option<i64>>)
    requires
        samples.len() == sample_count(GenerationMode::Heightmap2D),
        forall|k: int| 0 <= k < samples.len() ==> samples[k] == Some(h),
    ensures
        forall|p: Point|
            in_chunk(p) ==> (#[trigger] generated_cells(
                GenerationMode::Heightmap2D,
                threshold,
                samples,
            )[linear_index(p)]).occupied() == (p.1 <= clamp_height(h as int)),
{
    assert forall|p: Point| in_chunk(p) implies (#[trigger] generated_cells(
        GenerationMode::Heightmap2D,
        threshold,
        samples,
    )[linear_index(p)]).occupied() == (p.1 <= clamp_height(h as int)) by {
        lemma_linear_index_roundtrip(p);
    }
}

/// With a sampler that answers every column with the same height `h`,
/// height-map generation cannot fail, and in the chunk it gives a cell holds
/// a block exactly when its height in the chunk is at most `h` brought into
/// `0..16`. For `h = 5` every column has blocks at heights 0 to 5 and air
/// above.
pub proof fn lemma_constant_height_generation<F: Fn(i32, i32, i32) -> Option<i64>>(
    threshold: int,
    sampler: F,
    chunk: Point,
    h: i64,
    outcome: Result<ChunkGrid, GenerationError>,
)
    requires
        forall|args: (i32, i32, i32), answer: Option<i64>|
            call_ensures(sampler, args, answer) ==> answer == Some(h),
        generation_outcome(threshold, sampler, chunk, GenerationMode::Heightmap2D, outcome),
    ensures
        outcome is Ok,
        forall|p: Point|
            in_chunk(p) ==> (#[trigger] outcome->Ok_0.block_at(p)).occupied() == (p.1
                <= clamp_height(h as int)),
{
    let samples = choose|samples: Seq<Option<i64>>| #[trigger]
        outcome_from(threshold, sampler, chunk, GenerationMode::Heightmap2D, outcome, samples);
    assert forall|k: int| 0 <= k < samples.len() implies samples[k] == Some(h) by {}
    if outcome is Err {
        assert(samples[samples.len() - 1] == Some(h));
    }
    lemma_constant_height_columns(threshold, h, samples);
}

} // verus!
