use std::cell::RefCell;

use noise::{Fbm, NoiseFn, Perlin};
use voxel_chunk::block::{Block, BlockType};
use voxel_chunk::chunk::{Chunk, ChunkGrid};
use voxel_chunk::generation::{ChunkGenerator, GenerationError, GenerationMode};
use voxel_chunk::geometry::IVec3;

fn column(grid: &ChunkGrid, x: i32, z: i32) -> Vec<BlockType> {
    (0..16).map(|y| grid.get(IVec3::new(x, y, z)).unwrap().0).collect()
}

fn column_of_height(h: usize) -> Vec<BlockType> {
    let mut expected = vec![BlockType::Dirt; h];
    expected.push(BlockType::Grass);
    expected.resize(16, BlockType::Air);
    expected
}

#[test]
fn constant_height_five_fills_six_layers() {
    let generator = ChunkGenerator::default();
    let grid = generator
        .generate(IVec3::new(0, 0, 0), &|_x, _y, _z| Some(5), GenerationMode::Heightmap2D)
        .unwrap();
    for x in 0..16 {
        for z in 0..16 {
            let mut solid = 0;
            for y in 0..16 {
                let block = grid.get(IVec3::new(x, y, z)).unwrap();
                if y > 5 {
                    assert_eq!(block, Block(BlockType::Air));
                } else {
                    assert_ne!(block, Block(BlockType::Air));
                    solid += 1;
                }
            }
            assert_eq!(solid, 6);
        }
    }
    assert_eq!(grid.occupied_count(), 256 * 6);
}

#[test]
fn heightmap_puts_grass_on_dirt() {
    let generator = ChunkGenerator::default();
    let grid = generator
        .generate(IVec3::new(0, 0, 0), &|_x, _y, _z| Some(5), GenerationMode::Heightmap2D)
        .unwrap();
    assert_eq!(column(&grid, 3, 9), column_of_height(5));
    assert_eq!(grid.get(IVec3::new(3, 4, 9)), Ok(Block(BlockType::Dirt)));
    assert_eq!(grid.get(IVec3::new(3, 5, 9)), Ok(Block(BlockType::Grass)));
    assert_eq!(grid.get(IVec3::new(3, 6, 9)), Ok(Block(BlockType::Air)));
}

#[test]
fn heights_are_clamped_into_the_chunk() {
    let generator = ChunkGenerator::default();
    let heights = |x: i32, _y: i32, _z: i32| match x {
        0 => Some(-1),
        1 => Some(i64::MIN),
        2 => Some(0),
        3 => Some(15),
        4 => Some(16),
        5 => Some(i64::MAX),
        _ => Some(7),
    };
    let grid = generator
        .generate(IVec3::new(0, 0, 0), &heights, GenerationMode::Heightmap2D)
        .unwrap();
    assert_eq!(column(&grid, 0, 0), column_of_height(0));
    assert_eq!(column(&grid, 1, 0), column_of_height(0));
    assert_eq!(column(&grid, 2, 0), column_of_height(0));
    assert_eq!(column(&grid, 3, 0), column_of_height(15));
    assert_eq!(column(&grid, 4, 0), column_of_height(15));
    assert_eq!(column(&grid, 5, 0), column_of_height(15));
    assert_eq!(column(&grid, 6, 0), column_of_height(7));
}

#[test]
fn heightmap_samples_each_column_at_its_world_position() {
    let generator = ChunkGenerator::default();
    let asked = RefCell::new(Vec::new());
    let sampler = |x: i32, y: i32, z: i32| {
        asked.borrow_mut().push((x, y, z));
        Some(((x + z).rem_euclid(16)) as i64)
    };
    let grid = generator
        .generate(IVec3::new(2, 5, -1), &sampler, GenerationMode::Heightmap2D)
        .unwrap();
    let asked = asked.into_inner();
    assert_eq!(asked.len(), 256);
    assert_eq!(asked[0], (32, 0, -16));
    assert_eq!(asked[1], (33, 0, -16));
    assert_eq!(asked[16], (32, 0, -15));
    assert_eq!(asked[255], (47, 0, -1));
    assert_eq!(grid.position(), IVec3::new(2, 5, -1));
    for x in 0..16i32 {
        for z in 0..16i32 {
            let h = (32 + x - 16 + z).rem_euclid(16) as usize;
            assert_eq!(column(&grid, x, z), column_of_height(h));
        }
    }
}

#[test]
fn density_samples_each_cell_at_its_world_position() {
    let generator = ChunkGenerator::new(0);
    let asked = RefCell::new(Vec::new());
    let sampler = |x: i32, y: i32, z: i32| {
        asked.borrow_mut().push((x, y, z));
        Some(0)
    };
    generator.generate(IVec3::new(-1, 0, 1), &sampler, GenerationMode::Density3D).unwrap();
    let asked = asked.into_inner();
    assert_eq!(asked.len(), 4096);
    assert_eq!(asked[0], (-16, 0, 16));
    assert_eq!(asked[1], (-15, 0, 16));
    assert_eq!(asked[16], (-16, 1, 16));
    assert_eq!(asked[256], (-16, 0, 17));
    assert_eq!(asked[4095], (-1, 15, 31));
}

#[test]
fn density_above_the_threshold_is_air() {
    let generator = ChunkGenerator::default();
    assert_eq!(generator.density_threshold, -1);
    let sampler = |x: i32, _y: i32, _z: i32| Some((x - 8) as i64);
    let grid = generator.generate(IVec3::new(0, 0, 0), &sampler, GenerationMode::Density3D).unwrap();
    for x in 0..16 {
        let expected = if x - 8 > -1 { BlockType::Air } else { BlockType::Stone };
        for y in 0..16 {
            for z in 0..16 {
                assert_eq!(grid.get(IVec3::new(x, y, z)), Ok(Block(expected)));
            }
        }
    }
    assert_eq!(grid.get(IVec3::new(7, 0, 0)), Ok(Block(BlockType::Stone)));
    assert_eq!(grid.get(IVec3::new(8, 0, 0)), Ok(Block(BlockType::Air)));
}

#[test]
fn density_threshold_is_configurable() {
    let sampler = |_x: i32, y: i32, _z: i32| Some(y as i64);
    let grid = ChunkGenerator::new(9)
        .generate(IVec3::new(0, 0, 0), &sampler, GenerationMode::Density3D)
        .unwrap();
    assert_eq!(grid.get(IVec3::new(0, 9, 0)), Ok(Block(BlockType::Stone)));
    assert_eq!(grid.get(IVec3::new(0, 10, 0)), Ok(Block(BlockType::Air)));
    assert_eq!(grid.occupied_count(), 256 * 10);
}

#[test]
fn missing_sample_is_reported_at_its_world_position() {
    let generator = ChunkGenerator::default();
    let sampler = |x: i32, _y: i32, z: i32| if x >= 20 && z >= 35 { None } else { Some(1) };
    assert_eq!(
        generator.generate(IVec3::new(1, 0, 2), &sampler, GenerationMode::Heightmap2D),
        Err(GenerationError::NonFiniteSample { position: IVec3::new(20, 0, 35) })
    );
    let sampler = |x: i32, y: i32, z: i32| if (x, y, z) == (17, 2, 33) { None } else { Some(1) };
    assert_eq!(
        generator.generate(IVec3::new(1, 0, 2), &sampler, GenerationMode::Density3D),
        Err(GenerationError::NonFiniteSample { position: IVec3::new(17, 2, 33) })
    );
}

#[test]
fn generation_stops_at_the_first_missing_sample() {
    let generator = ChunkGenerator::default();
    let asked = RefCell::new(0usize);
    let sampler = |_x: i32, _y: i32, _z: i32| {
        *asked.borrow_mut() += 1;
        if *asked.borrow() == 10 {
            None
        } else {
            Some(3)
        }
    };
    assert_eq!(
        generator.generate(IVec3::new(0, 0, 0), &sampler, GenerationMode::Heightmap2D),
        Err(GenerationError::NonFiniteSample { position: IVec3::new(9, 0, 0) })
    );
    assert_eq!(asked.into_inner(), 10);
}

#[test]
fn generation_is_deterministic() {
    let generator = ChunkGenerator::default();
    let sampler = |x: i32, y: i32, z: i32| Some(((x * 31 + y * 17 + z * 7) % 23 - 11) as i64);
    for mode in [GenerationMode::Heightmap2D, GenerationMode::Density3D] {
        let first = generator.generate(IVec3::new(3, -2, 9), &sampler, mode);
        let second = generator.generate(IVec3::new(3, -2, 9), &sampler, mode);
        assert!(first.is_ok());
        assert_eq!(first, second);
    }
}

#[test]
fn generation_from_seeded_noise_is_deterministic() {
    let generator = ChunkGenerator::default();
    let sample = |seed: u32| {
        let field = Fbm::<Perlin>::new(seed);
        move |x: i32, y: i32, z: i32| {
            let s = field.get([x as f64 / 16.0, y as f64 / 16.0, z as f64 / 16.0]) * 4.0;
            if s.is_finite() {
                Some(s.trunc() as i64)
            } else {
                None
            }
        }
    };
    let a = generator.generate(IVec3::new(1, 0, -1), &sample(7), GenerationMode::Density3D);
    let b = generator.generate(IVec3::new(1, 0, -1), &sample(7), GenerationMode::Density3D);
    assert!(a.is_ok());
    assert_eq!(a, b);
    let grid = a.unwrap();
    let solid = grid.occupied_count();
    assert!(solid > 0 && solid < 4096);
}

#[test]
fn from_samples_builds_what_generate_builds() {
    let generator = ChunkGenerator::new(2);
    let sampler = |x: i32, y: i32, z: i32| Some(((x + 2 * y + 3 * z) % 7) as i64);
    let at = IVec3::new(0, 1, 0);
    for mode in [GenerationMode::Heightmap2D, GenerationMode::Density3D] {
        let mut samples = Vec::new();
        for k in 0..ChunkGenerator::samples_needed(mode) {
            let p = ChunkGenerator::sample_position(at, mode, k).unwrap();
            samples.push(sampler(p.x, p.y, p.z));
        }
        assert_eq!(
            generator.from_samples(at, mode, &samples),
            generator.generate(at, &sampler, mode)
        );
    }
}

#[test]
fn from_samples_rejects_a_table_of_the_wrong_length() {
    let generator = ChunkGenerator::default();
    let at = IVec3::new(0, 0, 0);
    assert_eq!(
        generator.from_samples(at, GenerationMode::Heightmap2D, &vec![Some(1); 255]),
        Err(GenerationError::SampleCount { expected: 256, found: 255 })
    );
    assert_eq!(
        generator.from_samples(at, GenerationMode::Density3D, &vec![Some(1); 256]),
        Err(GenerationError::SampleCount { expected: 4096, found: 256 })
    );
    assert_eq!(
        generator.from_samples(at, GenerationMode::Heightmap2D, &Vec::new()),
        Err(GenerationError::SampleCount { expected: 256, found: 0 })
    );
}

#[test]
fn from_samples_reports_the_first_missing_sample() {
    let generator = ChunkGenerator::default();
    let mut samples = vec![Some(1); 256];
    samples[200] = None;
    samples[37] = None;
    assert_eq!(
        generator.from_samples(IVec3::new(1, 0, 0), GenerationMode::Heightmap2D, &samples),
        Err(GenerationError::NonFiniteSample { position: IVec3::new(16 + 5, 0, 2) })
    );
}

#[test]
fn sample_positions_follow_the_mode() {
    let at = IVec3::new(1, 2, 3);
    assert_eq!(ChunkGenerator::samples_needed(GenerationMode::Heightmap2D), 256);
    assert_eq!(ChunkGenerator::samples_needed(GenerationMode::Density3D), 4096);
    assert_eq!(
        ChunkGenerator::sample_position(at, GenerationMode::Heightmap2D, 0),
        Some(IVec3::new(16, 0, 48))
    );
    assert_eq!(
        ChunkGenerator::sample_position(at, GenerationMode::Heightmap2D, 255),
        Some(IVec3::new(31, 0, 63))
    );
    assert_eq!(ChunkGenerator::sample_position(at, GenerationMode::Heightmap2D, 256), None);
    assert_eq!(
        ChunkGenerator::sample_position(at, GenerationMode::Density3D, 801),
        Some(IVec3::new(17, 34, 51))
    );
    assert_eq!(ChunkGenerator::sample_position(at, GenerationMode::Density3D, 4096), None);
}

#[test]
fn gen_fills_columns_from_a_table_of_heights() {
    let mut noise = vec![[3i32; 16]; 16];
    noise[2][5] = 9;
    noise[0][0] = -4;
    noise[15][15] = 40;
    let chunk = Chunk::gen(IVec3::new(1, 0, 1), &noise).unwrap();
    assert_eq!(chunk.position(), IVec3::new(1, 0, 1));
    for x in 0..16 {
        for z in 0..16 {
            let h = match (x, z) {
                (2, 5) => 9,
                (0, 0) => 0,
                (15, 15) => 15,
                _ => 3,
            };
            assert_eq!(column(&chunk, x, z), column_of_height(h));
        }
    }
}

#[test]
fn gen_reads_sixteen_rows() {
    let at = IVec3::new(0, 0, 0);
    let mut noise = vec![[1i32; 16]; 20];
    noise[17] = [12; 16];
    let chunk = Chunk::gen(at, &noise).unwrap();
    assert_eq!(chunk.occupied_count(), 256 * 2);
    assert_eq!(
        Chunk::gen(at, &vec![[1i32; 16]; 15]),
        Err(GenerationError::SampleCount { expected: 16, found: 15 })
    );
    assert_eq!(
        Chunk::gen(at, &Vec::new()),
        Err(GenerationError::SampleCount { expected: 16, found: 0 })
    );
}
