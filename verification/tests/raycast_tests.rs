use voxel_forge::raycast::{raycast, BlockPos, HitFace};

#[test]
fn raycast_hits_block_ahead() {
    // Block at (5, 0, 0)
    let is_solid = |x, y, z| x == 5 && y == 0 && z == 0;

    let hit = raycast([500, 500, 500], [1000, 0, 0], 10000, is_solid);

    assert!(hit.is_some());
    let hit = hit.unwrap();
    assert_eq!(hit.block_pos, BlockPos::new(5, 0, 0));
    assert_eq!(hit.face, HitFace::West);
}

#[test]
fn raycast_hits_block_below() {
    // Ground at y=0
    let is_solid = |_x, y, _z| y == 0;

    let hit = raycast([500, 5500, 500], [0, -1000, 0], 10000, is_solid);

    assert!(hit.is_some());
    let hit = hit.unwrap();
    assert_eq!(hit.block_pos.y, 0);
    assert_eq!(hit.face, HitFace::Top);
}

#[test]
fn raycast_misses_when_no_blocks() {
    let is_solid = |_x, _y, _z| false;

    let hit = raycast([500, 500, 500], [1000, 0, 0], 10000, is_solid);

    assert!(hit.is_none());
}

#[test]
fn raycast_respects_max_distance() {
    // Block at (100, 0, 0)
    let is_solid = |x, y, z| x == 100 && y == 0 && z == 0;

    // Max distance is 10, block is at 100
    let hit = raycast([500, 500, 500], [1000, 0, 0], 10000, is_solid);

    assert!(hit.is_none());
}

#[test]
fn raycast_exact_distance_and_hit_point() {
    // From x=0.5 toward +X, the face of block 5 is 4.5 blocks away.
    let is_solid = |x, y, z| x == 5 && y == 0 && z == 0;
    let hit = raycast([500, 500, 500], [1000, 0, 0], 10000, is_solid).unwrap();

    // distance == 4.5, as an exact fraction
    assert_eq!(hit.distance_num * 2, 9 * hit.distance_den);

    // hit point == (5.0, 0.5, 0.5), as exact fractions
    assert_eq!(hit.hit_point_num[0] * 1, 5 * hit.hit_point_den);
    assert_eq!(hit.hit_point_num[1] * 2, 1 * hit.hit_point_den);
    assert_eq!(hit.hit_point_num[2] * 2, 1 * hit.hit_point_den);
}

#[test]
fn raycast_diagonal_tie_prefers_y() {
    // From the cell center along (1,1,0), the ray crosses the X and Y
    // boundaries at the same distance. The tie comparison asks whether the
    // X boundary is strictly nearer; it is not, so the Y step is taken
    // first: the ray visits (0,1,0) from below, then (1,1,0) from the west.
    let is_solid = |x, y, z| x == 0 && y == 1 && z == 0;
    let hit = raycast([500, 500, 500], [1000, 1000, 0], 4000, is_solid).unwrap();
    assert_eq!(hit.block_pos, BlockPos::new(0, 1, 0));
    assert_eq!(hit.face, HitFace::Bottom);

    let is_solid2 = |x, y, z| x == 1 && y == 1 && z == 0;
    let hit2 = raycast([500, 500, 500], [1000, 1000, 0], 4000, is_solid2).unwrap();
    assert_eq!(hit2.block_pos, BlockPos::new(1, 1, 0));
    assert_eq!(hit2.face, HitFace::West);

    // The cell diagonally below the step order is never visited.
    let is_solid3 = |x, y, z| x == 1 && y == 0 && z == 0;
    assert!(raycast([500, 500, 500], [1000, 1000, 0], 4000, is_solid3).is_none());
}

#[test]
fn raycast_never_tests_outside_vertical_range() {
    // Cells below y=0 and at or above y=256 are never reported as solid,
    // whatever the query claims.
    let is_solid = |_x, _y, _z| true;
    let hit = raycast([500, -10500, 500], [1000, 0, 0], 10000, is_solid);
    assert!(hit.is_none());
}

#[test]
fn block_pos_to_chunk() {
    assert_eq!(BlockPos::new(0, 0, 0).to_chunk_pos(), (0, 0));
    assert_eq!(BlockPos::new(15, 0, 15).to_chunk_pos(), (0, 0));
    assert_eq!(BlockPos::new(16, 0, 16).to_chunk_pos(), (1, 1));
    assert_eq!(BlockPos::new(-1, 0, -1).to_chunk_pos(), (-1, -1));
    assert_eq!(BlockPos::new(-16, 0, -16).to_chunk_pos(), (-1, -1));
    assert_eq!(BlockPos::new(-17, 0, -17).to_chunk_pos(), (-2, -2));
}

#[test]
fn block_pos_to_local() {
    assert_eq!(BlockPos::new(0, 5, 0).to_local(), (0, 5, 0));
    assert_eq!(BlockPos::new(15, 5, 15).to_local(), (15, 5, 15));
    assert_eq!(BlockPos::new(16, 5, 16).to_local(), (0, 5, 0));
    assert_eq!(BlockPos::new(-1, 5, -1).to_local(), (15, 5, 15));
}

#[test]
fn block_pos_offset() {
    let pos = BlockPos::new(5, 10, 5);
    assert_eq!(pos.offset(HitFace::Top), BlockPos::new(5, 11, 5));
    assert_eq!(pos.offset(HitFace::Bottom), BlockPos::new(5, 9, 5));
    assert_eq!(pos.offset(HitFace::North), BlockPos::new(5, 10, 4));
    assert_eq!(pos.offset(HitFace::South), BlockPos::new(5, 10, 6));
    assert_eq!(pos.offset(HitFace::East), BlockPos::new(6, 10, 5));
    assert_eq!(pos.offset(HitFace::West), BlockPos::new(4, 10, 5));
}
