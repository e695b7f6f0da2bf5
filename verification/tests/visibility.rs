use voxel_chunk::block::{Block, BlockType};
use voxel_chunk::chunk::ChunkGrid;
use voxel_chunk::geometry::{BoundsError, Face, IVec3};
use voxel_chunk::occupancy::OccupancySet;
use voxel_chunk::visibility::{check_adjacent, VisibilityMap, VisibilitySolver};

fn full_chunk(at: IVec3) -> ChunkGrid {
    ChunkGrid::filled(at, Block(BlockType::Stone))
}

fn on_hull(x: i32, y: i32, z: i32) -> bool {
    x == 0 || x == 15 || y == 0 || y == 15 || z == 0 || z == 15
}

#[test]
fn single_block_is_visible() {
    let mut grid = ChunkGrid::new(IVec3::new(0, 0, 0));
    grid.set(IVec3::new(7, 7, 7), Block(BlockType::Dirt)).unwrap();
    let map = VisibilitySolver::compute_single(&grid);
    for x in 0..16 {
        for y in 0..16 {
            for z in 0..16 {
                assert_eq!(map.get(IVec3::new(x, y, z)), Ok((x, y, z) == (7, 7, 7)));
            }
        }
    }
    assert_eq!(map.visible_count(), 1);
}

#[test]
fn single_block_is_visible_against_its_own_occupancy() {
    let mut grid = ChunkGrid::new(IVec3::new(-3, 2, 5));
    grid.set(IVec3::new(0, 15, 3), Block(BlockType::Grass)).unwrap();
    let mut occupied = OccupancySet::new();
    occupied.insert_chunk(&grid);
    let world = grid.world_position(IVec3::new(0, 15, 3)).unwrap();
    assert!(occupied.contains(world));
    assert_eq!(occupied.neighbor_count(world), 0);
    let map = VisibilitySolver::compute(&grid, &occupied);
    assert_eq!(map.get(IVec3::new(0, 15, 3)), Ok(true));
    assert_eq!(map.visible_count(), 1);
    assert_eq!(map, VisibilitySolver::compute_single(&grid));
}

#[test]
fn enclosed_block_is_hidden() {
    let mut grid = ChunkGrid::new(IVec3::new(0, 0, 0));
    let centre = IVec3::new(5, 5, 5);
    grid.set(centre, Block(BlockType::Stone)).unwrap();
    for face in [Face::NegX, Face::PosX, Face::NegY, Face::PosY, Face::NegZ, Face::PosZ] {
        grid.set(centre.step(face).unwrap(), Block(BlockType::Stone)).unwrap();
    }
    let map = VisibilitySolver::compute_single(&grid);
    assert_eq!(map.get(centre), Ok(false));
    for face in [Face::NegX, Face::PosX, Face::NegY, Face::PosY, Face::NegZ, Face::PosZ] {
        assert_eq!(map.get(centre.step(face).unwrap()), Ok(true));
    }
    assert_eq!(map.visible_count(), 6);
}

#[test]
fn five_neighbours_do_not_hide_a_block() {
    let mut grid = ChunkGrid::new(IVec3::new(0, 0, 0));
    let centre = IVec3::new(5, 5, 5);
    grid.set(centre, Block(BlockType::Stone)).unwrap();
    for face in [Face::NegX, Face::PosX, Face::NegY, Face::NegZ, Face::PosZ] {
        grid.set(centre.step(face).unwrap(), Block(BlockType::Stone)).unwrap();
    }
    let map = VisibilitySolver::compute_single(&grid);
    assert_eq!(map.get(centre), Ok(true));
}

#[test]
fn air_is_never_visible() {
    let grid = ChunkGrid::new(IVec3::new(0, 0, 0));
    let map = VisibilitySolver::compute_single(&grid);
    assert_eq!(map.visible_count(), 0);
    let occupied = OccupancySet::new();
    let map = VisibilitySolver::compute(&grid, &occupied);
    assert_eq!(map.visible_count(), 0);
    assert_eq!(map.get(IVec3::new(0, 0, 0)), Ok(false));
}

#[test]
fn lone_full_chunk_shows_its_hull_only() {
    let grid = full_chunk(IVec3::new(0, 0, 0));
    let map = VisibilitySolver::compute_single(&grid);
    for x in 0..16 {
        for y in 0..16 {
            for z in 0..16 {
                assert_eq!(map.get(IVec3::new(x, y, z)), Ok(on_hull(x, y, z)));
            }
        }
    }
    assert_eq!(map.visible_count(), 4096 - 14 * 14 * 14);
}

#[test]
fn full_chunk_among_full_neighbours_shows_nothing() {
    let centre = IVec3::new(4, -2, 7);
    let mut occupied = OccupancySet::new();
    for dx in -1..=1 {
        for dy in -1..=1 {
            for dz in -1..=1 {
                let at = IVec3::new(centre.x + dx, centre.y + dy, centre.z + dz);
                occupied.insert_chunk(&full_chunk(at));
            }
        }
    }
    let map = VisibilitySolver::compute(&full_chunk(centre), &occupied);
    assert_eq!(map.visible_count(), 0);
}

#[test]
fn full_chunk_shows_the_side_whose_neighbour_chunk_is_absent() {
    let centre = IVec3::new(0, 0, 0);
    let mut occupied = OccupancySet::new();
    occupied.insert_chunk(&full_chunk(centre));
    for at in [
        IVec3::new(-1, 0, 0),
        IVec3::new(0, -1, 0),
        IVec3::new(0, 1, 0),
        IVec3::new(0, 0, -1),
        IVec3::new(0, 0, 1),
    ] {
        occupied.insert_chunk(&full_chunk(at));
    }
    let map = VisibilitySolver::compute(&full_chunk(centre), &occupied);
    for x in 0..16 {
        for y in 0..16 {
            for z in 0..16 {
                assert_eq!(map.get(IVec3::new(x, y, z)), Ok(x == 15));
            }
        }
    }
    assert_eq!(map.visible_count(), 256);
}

#[test]
fn neighbours_are_looked_up_in_world_space() {
    let mut left = ChunkGrid::new(IVec3::new(0, 0, 0));
    left.set(IVec3::new(15, 3, 3), Block(BlockType::Stone)).unwrap();
    let mut occupied = OccupancySet::new();
    occupied.insert_chunk(&left);
    let w = IVec3::new(15, 3, 3);
    for face in [Face::NegX, Face::NegY, Face::PosY, Face::NegZ, Face::PosZ] {
        occupied.insert(w.step(face).unwrap());
    }
    assert_eq!(VisibilitySolver::compute(&left, &occupied).get(w), Ok(true));
    let mut right = ChunkGrid::new(IVec3::new(1, 0, 0));
    right.set(IVec3::new(0, 3, 3), Block(BlockType::Stone)).unwrap();
    occupied.insert_chunk(&right);
    assert!(occupied.contains(IVec3::new(16, 3, 3)));
    assert_eq!(VisibilitySolver::compute(&left, &occupied).get(w), Ok(false));
}

#[test]
fn visibility_reads_fail_outside_the_chunk() {
    let map = VisibilitySolver::compute_single(&ChunkGrid::new(IVec3::new(0, 0, 0)));
    let p = IVec3::new(0, 0, 16);
    assert_eq!(map.get(p), Err(BoundsError { position: p }));
    let q = IVec3::new(-1, 0, 0);
    assert_eq!(map.get(q), Err(BoundsError { position: q }));
}

#[test]
fn visible_blocks_are_listed_in_storage_order() {
    let mut grid = ChunkGrid::new(IVec3::new(0, 0, 0));
    grid.set(IVec3::new(2, 0, 1), Block(BlockType::Grass)).unwrap();
    grid.set(IVec3::new(1, 0, 0), Block(BlockType::Dirt)).unwrap();
    grid.set(IVec3::new(0, 3, 0), Block(BlockType::Stone)).unwrap();
    let map = VisibilitySolver::compute_single(&grid);
    assert_eq!(
        map.visible_blocks(&grid),
        vec![
            (IVec3::new(1, 0, 0), BlockType::Dirt),
            (IVec3::new(0, 3, 0), BlockType::Stone),
            (IVec3::new(2, 0, 1), BlockType::Grass),
        ]
    );
}

#[test]
fn single_chunk_solver_agrees_with_the_set_based_solver() {
    let mut grid = ChunkGrid::new(IVec3::new(3, 1, -4));
    let mut state: u32 = 12345;
    for x in 0..16 {
        for y in 0..16 {
            for z in 0..16 {
                state = state.wrapping_mul(1_664_525).wrapping_add(1_013_904_223);
                if (state >> 16) % 3 != 0 {
                    grid.set(IVec3::new(x, y, z), Block(BlockType::Stone)).unwrap();
                }
            }
        }
    }
    let mut occupied = OccupancySet::new();
    occupied.insert_chunk(&grid);
    assert_eq!(VisibilitySolver::compute_single(&grid), VisibilitySolver::compute(&grid, &occupied));
}

#[test]
fn check_adjacent_finds_the_enclosed_point() {
    let centre = IVec3::new(0, 0, 0);
    let points = vec![
        centre,
        IVec3::new(1, 0, 0),
        IVec3::new(-1, 0, 0),
        IVec3::new(0, 1, 0),
        IVec3::new(0, -1, 0),
        IVec3::new(0, 0, 1),
        IVec3::new(0, 0, -1),
    ];
    let result = check_adjacent(&points);
    assert_eq!(result.len(), 7);
    for (i, entry) in result.iter().enumerate() {
        assert_eq!(*entry, (points[i], i == 0));
    }
}

#[test]
fn check_adjacent_agrees_with_the_solver() {
    let mut grid = ChunkGrid::new(IVec3::new(0, 0, 0));
    let mut points = Vec::new();
    for x in 4..8 {
        for y in 4..8 {
            for z in 4..8 {
                grid.set(IVec3::new(x, y, z), Block(BlockType::Stone)).unwrap();
                points.push(IVec3::new(x, y, z));
            }
        }
    }
    let map = VisibilitySolver::compute_single(&grid);
    for (p, enclosed) in check_adjacent(&points) {
        assert_eq!(map.get(p), Ok(!enclosed));
        let inner = (5..7).contains(&p.x) && (5..7).contains(&p.y) && (5..7).contains(&p.z);
        assert_eq!(enclosed, inner);
    }
}

#[test]
fn check_adjacent_lists_each_point_once() {
    let a = IVec3::new(1, 1, 1);
    let b = IVec3::new(2, 1, 1);
    let result = check_adjacent(&vec![a, b, a, a, b]);
    assert_eq!(result, vec![(a, false), (b, false)]);
    assert_eq!(check_adjacent(&Vec::new()), Vec::new());
}

#[test]
fn check_adjacent_at_the_edge_of_the_integers() {
    let corner = IVec3::new(i32::MAX, i32::MIN, 0);
    let points = vec![
        corner,
        IVec3::new(i32::MAX - 1, i32::MIN, 0),
        IVec3::new(i32::MAX, i32::MIN + 1, 0),
        IVec3::new(i32::MAX, i32::MIN, 1),
        IVec3::new(i32::MAX, i32::MIN, -1),
    ];
    let result = check_adjacent(&points);
    assert_eq!(result[0], (corner, false));
}

#[test]
fn occupancy_set_remembers_what_was_inserted() {
    let mut set = OccupancySet::new();
    let p = IVec3::new(-5, 1_000_000, i32::MIN);
    assert!(!set.contains(p));
    assert!(set.insert(p));
    assert!(!set.insert(p));
    assert!(set.contains(p));
    assert!(!set.contains(IVec3::new(-5, 1_000_000, i32::MIN + 1)));
    assert!(!set.contains(IVec3::new(1_000_000, -5, i32::MIN)));
    assert!(set.contains_neighbor(IVec3::new(-4, 1_000_000, i32::MIN), Face::NegX));
    assert!(!set.contains_neighbor(p, Face::NegZ));
    let listed = OccupancySet::from_positions(&vec![p, p]);
    assert_eq!(listed, set);
}

#[test]
fn neighbour_count_counts_the_six_directions() {
    let p = IVec3::new(10, 10, 10);
    let mut set = OccupancySet::new();
    assert_eq!(set.neighbor_count(p), 0);
    let mut expected = 0u8;
    for face in [Face::PosX, Face::NegX, Face::PosY, Face::NegY, Face::PosZ, Face::NegZ] {
        set.insert(p.step(face).unwrap());
        expected += 1;
        assert_eq!(set.neighbor_count(p), expected);
    }
    set.insert(IVec3::new(11, 11, 10));
    assert_eq!(set.neighbor_count(p), 6);
}

#[test]
fn visibility_map_wants_exactly_4096_flags() {
    assert!(VisibilityMap::from_flags(vec![true; 4095]).is_none());
    assert!(VisibilityMap::from_flags(vec![true; 4097]).is_none());
    assert!(VisibilityMap::from_flags(Vec::new()).is_none());
    let mut flags = vec![false; 4096];
    flags[801] = true;
    let map = VisibilityMap::from_flags(flags).unwrap();
    assert_eq!(map.get(IVec3::new(1, 2, 3)), Ok(true));
    assert_eq!(map.get(IVec3::new(3, 2, 1)), Ok(false));
    assert_eq!(map.visible_count(), 1);
}

#[test]
fn removing_a_block_exposes_its_neighbours() {
    let centre = IVec3::new(5, 5, 5);
    let mut grid = ChunkGrid::filled(IVec3::new(0, 0, 0), Block(BlockType::Stone));
    let mut occupied = OccupancySet::new();
    occupied.insert_chunk(&grid);
    assert_eq!(VisibilitySolver::compute(&grid, &occupied).get(centre.step(Face::PosX).unwrap()), Ok(false));
    grid.set(centre, Block(BlockType::Air)).unwrap();
    assert!(occupied.remove(centre));
    assert!(!occupied.remove(centre));
    assert!(!occupied.contains(centre));
    let map = VisibilitySolver::compute(&grid, &occupied);
    assert_eq!(map.get(centre), Ok(false));
    for face in [Face::NegX, Face::PosX, Face::NegY, Face::PosY, Face::NegZ, Face::PosZ] {
        assert_eq!(map.get(centre.step(face).unwrap()), Ok(true));
    }
    assert_eq!(map, VisibilitySolver::compute_single(&grid));
}
