use voxel_chunk::block::{Block, BlockType};
use voxel_chunk::generation::{ChunkGenerator, GenerationError, GenerationMode};
use voxel_chunk::geometry::IVec3;
use voxel_chunk::visibility::VisibilitySolver;
use voxel_chunk::world::{get_bounds, World};

#[test]
fn bounds_are_centred_on_the_origin() {
    assert_eq!(get_bounds(1), ((0, 0, 0), (0, 0, 0)));
    assert_eq!(get_bounds(2), ((-1, -1, -1), (0, 0, 0)));
    assert_eq!(get_bounds(3), ((-1, -1, -1), (1, 1, 1)));
    assert_eq!(get_bounds(4), ((-2, -2, -2), (1, 1, 1)));
    assert_eq!(get_bounds(5), ((-2, -2, -2), (2, 2, 2)));
    assert_eq!(get_bounds(16), ((-8, -8, -8), (7, 7, 7)));
}

#[test]
fn bounds_of_no_chunks_are_empty() {
    assert_eq!(get_bounds(0), ((0, 0, 0), (-1, -1, -1)));
}

#[test]
fn bounds_of_the_largest_signed_width() {
    let h = 1_073_741_823;
    assert_eq!(get_bounds(2_147_483_647), ((-h, -h, -h), (h, h, h)));
}

#[test]
fn bounds_of_widths_past_the_signed_range_wrap() {
    assert_eq!(get_bounds(u32::MAX), ((0, 0, 0), (-1, -1, -1)));
    let h = 1_073_741_824;
    assert_eq!(get_bounds(2_147_483_648), ((h, h, h), (-h - 1, -h - 1, -h - 1)));
    assert_eq!(get_bounds(u32::MAX - 2), ((1, 1, 1), (-2, -2, -2)));
}

#[test]
fn new_world_is_a_square_of_chunks() {
    let generator = ChunkGenerator::default();
    let sampler = |x: i32, _y: i32, _z: i32| Some((x / 16) as i64);
    let world = World::new(3, &generator, &sampler, GenerationMode::Heightmap2D).unwrap();
    assert_eq!(world.lower_bound(), IVec3::new(0, 0, 0));
    assert_eq!(world.upper_bound(), IVec3::new(2, 0, 2));
    assert_eq!(world.render_distance(), 0);
    for x in 0..3 {
        for z in 0..3 {
            let at = IVec3::new(x, 0, z);
            let chunk = world.chunk(at).unwrap();
            assert_eq!(chunk.position(), at);
            assert_eq!(
                *chunk,
                generator.generate(at, &sampler, GenerationMode::Heightmap2D).unwrap()
            );
            assert_eq!(chunk.occupied_count(), 256 * (x as usize + 1));
        }
    }
    assert!(world.chunk(IVec3::new(3, 0, 0)).is_none());
    assert!(world.chunk(IVec3::new(0, 1, 0)).is_none());
    assert!(world.chunk(IVec3::new(0, 0, -1)).is_none());
}

#[test]
fn world_of_no_chunks_is_empty() {
    let generator = ChunkGenerator::default();
    let sampler = |_x: i32, _y: i32, _z: i32| Some(1);
    let world = World::default();
    assert!(world.chunk(IVec3::new(0, 0, 0)).is_none());
    assert!(world.chunk(IVec3::new(-1, -1, -1)).is_none());
    assert_eq!(world.render_distance(), 0);
    let world =
        world.initial_gen(0, &generator, &sampler, GenerationMode::Heightmap2D).unwrap();
    assert!(world.chunk(IVec3::new(0, 0, 0)).is_none());
    assert_eq!(world.lower_bound(), IVec3::new(0, 0, 0));
    assert_eq!(world.upper_bound(), IVec3::new(-1, -1, -1));
}

#[test]
fn smallest_square_world_has_one_chunk() {
    let generator = ChunkGenerator::default();
    let sampler = |_x: i32, _y: i32, _z: i32| Some(1);
    let world = World::new(1, &generator, &sampler, GenerationMode::Heightmap2D).unwrap();
    assert_eq!(world.lower_bound(), IVec3::new(0, 0, 0));
    assert_eq!(world.upper_bound(), IVec3::new(0, 0, 0));
    assert!(world.chunk(IVec3::new(0, 0, 0)).is_some());
    assert!(world.chunk(IVec3::new(1, 0, 0)).is_none());
    assert!(world.chunk(IVec3::new(0, 0, 1)).is_none());
}

#[test]
fn initial_gen_keeps_the_render_distance() {
    let generator = ChunkGenerator::default();
    let sampler = |_x: i32, _y: i32, _z: i32| Some(1);
    let mut world = World::default();
    world.set_render_distance(7);
    let world =
        world.initial_gen(1, &generator, &sampler, GenerationMode::Heightmap2D).unwrap();
    assert_eq!(world.render_distance(), 7);
    assert!(world.chunk(IVec3::new(0, 0, 0)).is_some());
    let again = world.initial_gen(2, &generator, &sampler, GenerationMode::Heightmap2D).unwrap();
    assert_eq!(again.render_distance(), 7);
    assert_eq!(again.lower_bound(), IVec3::new(-1, -1, -1));
}

#[test]
fn initial_gen_makes_a_cube_within_the_bounds() {
    let generator = ChunkGenerator::new(0);
    let sampler = |x: i32, y: i32, z: i32| Some((x + y + z) as i64);
    let world = World::default()
        .initial_gen(2, &generator, &sampler, GenerationMode::Density3D)
        .unwrap();
    assert_eq!(world.lower_bound(), IVec3::new(-1, -1, -1));
    assert_eq!(world.upper_bound(), IVec3::new(0, 0, 0));
    for x in -1..=0 {
        for y in -1..=0 {
            for z in -1..=0 {
                let at = IVec3::new(x, y, z);
                assert_eq!(
                    *world.chunk(at).unwrap(),
                    generator.generate(at, &sampler, GenerationMode::Density3D).unwrap()
                );
            }
        }
    }
    assert!(world.chunk(IVec3::new(1, 0, 0)).is_none());
    assert!(world.chunk(IVec3::new(0, -2, 0)).is_none());
    let origin = world.chunk(IVec3::new(0, 0, 0)).unwrap();
    assert_eq!(origin.get(IVec3::new(0, 0, 0)), Ok(Block(BlockType::Stone)));
    assert_eq!(origin.get(IVec3::new(1, 0, 0)), Ok(Block(BlockType::Air)));
}

#[test]
fn world_generation_fails_at_the_first_chunk_that_fails() {
    let generator = ChunkGenerator::default();
    let sampler = |x: i32, _y: i32, z: i32| {
        if (x == 20 && z == 40) || (x == 40 && z == 3) {
            None
        } else {
            Some(2)
        }
    };
    assert_eq!(
        World::new(3, &generator, &sampler, GenerationMode::Heightmap2D),
        Err(GenerationError::NonFiniteSample { position: IVec3::new(20, 0, 40) })
    );
    assert!(World::new(1, &generator, &sampler, GenerationMode::Heightmap2D).is_ok());
}

#[test]
fn render_distance_can_be_set() {
    let generator = ChunkGenerator::default();
    let sampler = |_x: i32, _y: i32, _z: i32| Some(1);
    let mut world = World::new(1, &generator, &sampler, GenerationMode::Heightmap2D).unwrap();
    let chunk = world.chunk(IVec3::new(0, 0, 0)).unwrap().clone();
    world.set_render_distance(12);
    assert_eq!(world.render_distance(), 12);
    assert_eq!(*world.chunk(IVec3::new(0, 0, 0)).unwrap(), chunk);
}

#[test]
fn world_occupancy_holds_the_blocks_of_all_chunks() {
    let generator = ChunkGenerator::default();
    let sampler = |_x: i32, _y: i32, _z: i32| Some(2);
    let world = World::new(2, &generator, &sampler, GenerationMode::Heightmap2D).unwrap();
    let occupied = world.occupancy();
    for x in -1..33 {
        for y in -1..4 {
            for z in -1..33 {
                let inside = (0..32).contains(&x) && (0..3).contains(&y) && (0..32).contains(&z);
                assert_eq!(occupied.contains(IVec3::new(x, y, z)), inside);
            }
        }
    }
}

#[test]
fn chunks_of_a_world_hide_the_faces_they_share() {
    let generator = ChunkGenerator::default();
    let sampler = |_x: i32, _y: i32, _z: i32| Some(15);
    let world = World::new(2, &generator, &sampler, GenerationMode::Heightmap2D).unwrap();
    let occupied = world.occupancy();
    let chunk = world.chunk(IVec3::new(0, 0, 0)).unwrap();
    let together = VisibilitySolver::compute(chunk, &occupied);
    let alone = VisibilitySolver::compute_single(chunk);
    for x in 0..16 {
        for y in 0..16 {
            for z in 0..16 {
                let p = IVec3::new(x, y, z);
                let outer = x == 0 || y == 0 || y == 15 || z == 0;
                assert_eq!(together.get(p), Ok(outer));
                let hull = outer || x == 15 || z == 15;
                assert_eq!(alone.get(p), Ok(hull));
            }
        }
    }
}
