use voxel_trace::grid::VoxelGrid;

#[test]
fn new_grid_is_empty() {
    let g = VoxelGrid::new(4, 3, 2);
    for z in 0..2 {
        for y in 0..3 {
            for x in 0..4 {
                assert!(!g.occupied(x, y, z));
            }
        }
    }
}

#[test]
fn set_then_get() {
    let mut g = VoxelGrid::new(4, 4, 4);
    g.set(1, 2, 3, true);
    assert!(g.occupied(1, 2, 3));
    assert!(!g.occupied(1, 2, 2));
    assert!(!g.occupied(2, 2, 3));
    assert!(!g.occupied(1, 3, 3));
    g.set(1, 2, 3, false);
    assert!(!g.occupied(1, 2, 3));
}

#[test]
fn linearization_is_x_fastest() {
    // Voxel (x, y, z) lives at flat index x + y*width + z*width*height.
    let g = VoxelGrid {
        voxels: vec![0, 1, 0, 0, 0, 0, 0, 0],
        width: 2,
        height: 2,
        depth: 2,
    };
    assert!(g.occupied(1, 0, 0));
    assert!(!g.occupied(0, 1, 0));
    assert!(!g.occupied(0, 0, 1));

    let g2 = VoxelGrid {
        voxels: vec![0, 0, 1, 0, 0, 0, 0, 0],
        width: 2,
        height: 2,
        depth: 2,
    };
    assert!(g2.occupied(0, 1, 0));
    assert!(!g2.occupied(1, 0, 0));

    let g3 = VoxelGrid {
        voxels: vec![0, 0, 0, 0, 1, 0, 0, 0],
        width: 2,
        height: 2,
        depth: 2,
    };
    assert!(g3.occupied(0, 0, 1));
    assert!(!g3.occupied(0, 1, 0));
}

#[test]
fn contains_bounds() {
    let g = VoxelGrid::new(4, 3, 2);
    assert!(g.contains(0, 0, 0));
    assert!(g.contains(3, 2, 1));
    assert!(!g.contains(4, 0, 0));
    assert!(!g.contains(0, 3, 0));
    assert!(!g.contains(0, 0, 2));
    assert!(!g.contains(-1, 0, 0));
    assert!(!g.contains(0, -1, 0));
    assert!(!g.contains(0, 0, -1));
}
