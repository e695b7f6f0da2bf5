use voxel_chunk::block::{Block, BlockType};
use voxel_chunk::chunk::ChunkGrid;
use voxel_chunk::geometry::{Axis, Face, IVec3};
use voxel_chunk::meshing::{GreedyMesher, Quad};
use voxel_chunk::visibility::{VisibilityMap, VisibilitySolver};

const FACES: [Face; 6] = [Face::NegX, Face::NegY, Face::NegZ, Face::PosX, Face::PosY, Face::PosZ];

fn cells_of(q: &Quad) -> Vec<IVec3> {
    let mut cells = Vec::new();
    for dv in 0..q.height as i32 {
        for du in 0..q.width as i32 {
            let m = q.minimum;
            cells.push(match q.face.axis() {
                Axis::X => IVec3::new(m.x, m.y + dv, m.z + du),
                Axis::Y => IVec3::new(m.x + dv, m.y, m.z + du),
                Axis::Z => IVec3::new(m.x + du, m.y + dv, m.z),
            });
        }
    }
    cells
}

fn assert_round_trip(grid: &ChunkGrid, map: &VisibilityMap) {
    for face in FACES {
        let quads = GreedyMesher::merge_face(grid, map, face);
        let mut covered = vec![0u32; 4096];
        for q in &quads {
            assert_eq!(q.face, face);
            assert!(q.width >= 1 && q.height >= 1);
            for cell in cells_of(q) {
                assert_eq!(grid.get(cell), Ok(Block(q.material)));
                covered[(cell.x + 16 * cell.y + 256 * cell.z) as usize] += 1;
            }
        }
        for x in 0..16 {
            for y in 0..16 {
                for z in 0..16 {
                    let p = IVec3::new(x, y, z);
                    let shown = map.get(p).unwrap() && grid.get(p).unwrap().is_occupied();
                    let expected = if shown { 1 } else { 0 };
                    assert_eq!(covered[(x + 16 * y + 256 * z) as usize], expected);
                }
            }
        }
    }
}

fn scattered_chunk(seed: u32, materials: &[BlockType]) -> ChunkGrid {
    let mut grid = ChunkGrid::new(IVec3::new(0, 0, 0));
    let mut state = seed;
    for x in 0..16 {
        for y in 0..16 {
            for z in 0..16 {
                state = state.wrapping_mul(1_664_525).wrapping_add(1_013_904_223);
                let pick = ((state >> 16) as usize) % (materials.len() + 1);
                if pick < materials.len() {
                    grid.set(IVec3::new(x, y, z), Block(materials[pick])).unwrap();
                }
            }
        }
    }
    grid
}

#[test]
fn flat_four_by_four_layer_merges_into_one_quad() {
    let mut grid = ChunkGrid::new(IVec3::new(0, 0, 0));
    for x in 3..7 {
        for z in 5..9 {
            grid.set(IVec3::new(x, 2, z), Block(BlockType::Stone)).unwrap();
        }
    }
    let map = VisibilitySolver::compute_single(&grid);
    assert_eq!(map.visible_count(), 16);
    for face in [Face::PosY, Face::NegY] {
        let quads = GreedyMesher::merge_face(&grid, &map, face);
        assert_eq!(
            quads,
            vec![Quad {
                face,
                minimum: IVec3::new(3, 2, 5),
                width: 4,
                height: 4,
                material: BlockType::Stone,
            }]
        );
    }
}

#[test]
fn flat_layer_is_cut_into_strips_along_the_other_axes() {
    let mut grid = ChunkGrid::new(IVec3::new(0, 0, 0));
    for x in 3..7 {
        for z in 5..9 {
            grid.set(IVec3::new(x, 2, z), Block(BlockType::Stone)).unwrap();
        }
    }
    let map = VisibilitySolver::compute_single(&grid);
    let across_x = GreedyMesher::merge_face(&grid, &map, Face::PosX);
    assert_eq!(across_x.len(), 4);
    for (i, q) in across_x.iter().enumerate() {
        assert_eq!(
            *q,
            Quad {
                face: Face::PosX,
                minimum: IVec3::new(3 + i as i32, 2, 5),
                width: 4,
                height: 1,
                material: BlockType::Stone,
            }
        );
    }
    let across_z = GreedyMesher::merge_face(&grid, &map, Face::NegZ);
    assert_eq!(across_z.len(), 4);
    for (i, q) in across_z.iter().enumerate() {
        assert_eq!(
            *q,
            Quad {
                face: Face::NegZ,
                minimum: IVec3::new(3, 2, 5 + i as i32),
                width: 4,
                height: 1,
                material: BlockType::Stone,
            }
        );
    }
    assert_eq!(GreedyMesher::merge(&grid, &map).len(), 2 + 4 * 4);
}

#[test]
fn rectangles_grow_along_the_row_first() {
    let mut grid = ChunkGrid::new(IVec3::new(0, 0, 0));
    for (x, y) in [(0, 0), (1, 0), (0, 1)] {
        grid.set(IVec3::new(x, y, 4), Block(BlockType::Dirt)).unwrap();
    }
    let map = VisibilitySolver::compute_single(&grid);
    assert_eq!(
        GreedyMesher::merge_face(&grid, &map, Face::PosZ),
        vec![
            Quad {
                face: Face::PosZ,
                minimum: IVec3::new(0, 0, 4),
                width: 2,
                height: 1,
                material: BlockType::Dirt,
            },
            Quad {
                face: Face::PosZ,
                minimum: IVec3::new(0, 1, 4),
                width: 1,
                height: 1,
                material: BlockType::Dirt,
            },
        ]
    );
}

#[test]
fn rectangles_grow_across_rows_while_the_whole_width_matches() {
    let mut grid = ChunkGrid::new(IVec3::new(0, 0, 0));
    for y in 0..3 {
        for x in 0..3 {
            grid.set(IVec3::new(x, y, 0), Block(BlockType::Dirt)).unwrap();
        }
    }
    grid.set(IVec3::new(2, 2, 0), Block(BlockType::Air)).unwrap();
    grid.set(IVec3::new(0, 3, 0), Block(BlockType::Dirt)).unwrap();
    let map = VisibilitySolver::compute_single(&grid);
    assert_eq!(
        GreedyMesher::merge_face(&grid, &map, Face::NegZ),
        vec![
            Quad {
                face: Face::NegZ,
                minimum: IVec3::new(0, 0, 0),
                width: 3,
                height: 2,
                material: BlockType::Dirt,
            },
            Quad {
                face: Face::NegZ,
                minimum: IVec3::new(0, 2, 0),
                width: 2,
                height: 1,
                material: BlockType::Dirt,
            },
            Quad {
                face: Face::NegZ,
                minimum: IVec3::new(0, 3, 0),
                width: 1,
                height: 1,
                material: BlockType::Dirt,
            },
        ]
    );
}

#[test]
fn different_materials_are_not_merged() {
    let mut grid = ChunkGrid::new(IVec3::new(0, 0, 0));
    for x in 0..4 {
        let material = if x < 2 { BlockType::Dirt } else { BlockType::Grass };
        grid.set(IVec3::new(x, 0, 0), Block(material)).unwrap();
    }
    let map = VisibilitySolver::compute_single(&grid);
    assert_eq!(
        GreedyMesher::merge_face(&grid, &map, Face::PosZ),
        vec![
            Quad {
                face: Face::PosZ,
                minimum: IVec3::new(0, 0, 0),
                width: 2,
                height: 1,
                material: BlockType::Dirt,
            },
            Quad {
                face: Face::PosZ,
                minimum: IVec3::new(2, 0, 0),
                width: 2,
                height: 1,
                material: BlockType::Grass,
            },
        ]
    );
}

#[test]
fn hidden_blocks_are_left_out() {
    let grid = ChunkGrid::filled(IVec3::new(0, 0, 0), Block(BlockType::Stone));
    let map = VisibilitySolver::compute_single(&grid);
    let quads = GreedyMesher::merge_face(&grid, &map, Face::PosY);
    assert_eq!(quads.len(), 2 + 14 * 4);
    assert_eq!(
        quads[0],
        Quad {
            face: Face::PosY,
            minimum: IVec3::new(0, 0, 0),
            width: 16,
            height: 16,
            material: BlockType::Stone,
        }
    );
    let ring = |minimum: IVec3, width: u32, height: u32| Quad {
        face: Face::PosY,
        minimum,
        width,
        height,
        material: BlockType::Stone,
    };
    assert_eq!(
        quads[1..5],
        [
            ring(IVec3::new(0, 1, 0), 16, 1),
            ring(IVec3::new(1, 1, 0), 1, 15),
            ring(IVec3::new(1, 1, 15), 1, 15),
            ring(IVec3::new(15, 1, 1), 14, 1),
        ]
    );
    assert_eq!(
        quads[quads.len() - 1],
        Quad {
            face: Face::PosY,
            minimum: IVec3::new(0, 15, 0),
            width: 16,
            height: 16,
            material: BlockType::Stone,
        }
    );
    assert_round_trip(&grid, &map);
}

#[test]
fn empty_chunk_has_no_quads() {
    let grid = ChunkGrid::new(IVec3::new(0, 0, 0));
    let map = VisibilitySolver::compute_single(&grid);
    assert!(GreedyMesher::merge(&grid, &map).is_empty());
}

#[test]
fn quads_cover_each_visible_cell_exactly_once() {
    for seed in [1u32, 2, 3] {
        let grid = scattered_chunk(seed, &[BlockType::Stone]);
        let map = VisibilitySolver::compute_single(&grid);
        assert_round_trip(&grid, &map);
    }
    for seed in [10u32, 11] {
        let grid = scattered_chunk(seed, &[BlockType::Stone, BlockType::Dirt, BlockType::Grass]);
        let map = VisibilitySolver::compute_single(&grid);
        assert_round_trip(&grid, &map);
    }
}

#[test]
fn quads_follow_the_visibility_map_they_are_given() {
    let grid = scattered_chunk(5, &[BlockType::Stone, BlockType::Dirt]);
    let elsewhere = scattered_chunk(6, &[BlockType::Stone]);
    let map = VisibilitySolver::compute_single(&elsewhere);
    assert_round_trip(&grid, &map);
}

#[test]
fn merging_is_deterministic() {
    let grid = scattered_chunk(42, &[BlockType::Stone, BlockType::Dirt]);
    let map = VisibilitySolver::compute_single(&grid);
    assert_eq!(GreedyMesher::merge(&grid, &map), GreedyMesher::merge(&grid, &map));
}

#[test]
fn merge_lists_the_faces_in_order() {
    let grid = scattered_chunk(9, &[BlockType::Stone, BlockType::Grass]);
    let map = VisibilitySolver::compute_single(&grid);
    let mut expected = Vec::new();
    for face in FACES {
        expected.extend(GreedyMesher::merge_face(&grid, &map, face));
    }
    assert_eq!(GreedyMesher::merge(&grid, &map), expected);
}

#[test]
fn air_is_never_meshed_even_when_flagged_visible() {
    let mut grid = ChunkGrid::new(IVec3::new(0, 0, 0));
    grid.set(IVec3::new(2, 2, 2), Block(BlockType::Stone)).unwrap();
    let everything = VisibilityMap::from_flags(vec![true; 4096]).unwrap();
    for face in FACES {
        assert_eq!(
            GreedyMesher::merge_face(&grid, &everything, face),
            vec![Quad {
                face,
                minimum: IVec3::new(2, 2, 2),
                width: 1,
                height: 1,
                material: BlockType::Stone,
            }]
        );
    }
    let nothing = VisibilityMap::from_flags(vec![false; 4096]).unwrap();
    assert!(GreedyMesher::merge(&grid, &nothing).is_empty());
}

#[test]
fn flat_layer_of_any_extent_merges_into_one_quad() {
    let cases = [
        (Face::PosX, IVec3::new(7, 2, 3), 5u32, 3u32),
        (Face::NegX, IVec3::new(0, 0, 0), 16, 16),
        (Face::PosY, IVec3::new(4, 4, 4), 4, 4),
        (Face::NegY, IVec3::new(1, 15, 9), 7, 2),
        (Face::PosZ, IVec3::new(12, 0, 15), 4, 16),
        (Face::NegZ, IVec3::new(15, 15, 8), 1, 1),
    ];
    for (face, minimum, width, height) in cases {
        let quad = Quad { face, minimum, width, height, material: BlockType::Grass };
        let mut grid = ChunkGrid::new(IVec3::new(2, -1, 0));
        for cell in cells_of(&quad) {
            grid.set(cell, Block(BlockType::Grass)).unwrap();
        }
        let map = VisibilitySolver::compute_single(&grid);
        assert_eq!(map.visible_count(), (width * height) as usize);
        assert_eq!(GreedyMesher::merge_face(&grid, &map, face), vec![quad]);
    }
}
