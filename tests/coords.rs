use voxel_world::{ChunkIndex, Vector2, Vector3, VoxelIndex, CHUNK_DIM};

#[test]
pub fn voxel_to_chunk_index() {
    // Chunk indices use floored division, so a voxel exactly on a negative
    // chunk boundary (a multiple of CHUNK_DIM) is the first voxel of the chunk
    // that starts there: -32 lies in chunk -4, whose voxels run from -32 to -25.
    let samples = [
        (
            VoxelIndex(Vector3::new(0, 0, 0)),
            ChunkIndex(Vector2::new(0, 0)),
        ),
        (
            VoxelIndex(Vector3::new(-1, 0, -1)),
            ChunkIndex(Vector2::new(-1, -1)),
        ),
        (
            VoxelIndex(Vector3::new(CHUNK_DIM as i32, 0, -1)),
            ChunkIndex(Vector2::new(1, -1)),
        ),
        (
            VoxelIndex(Vector3::new(CHUNK_DIM as i32 * 4, 0, 0)),
            ChunkIndex(Vector2::new(4, 0)),
        ),
        (
            VoxelIndex(Vector3::new(CHUNK_DIM as i32 * -4, 0, 0)),
            ChunkIndex(Vector2::new(-4, 0)),
        ),
        (
            VoxelIndex(Vector3::new(0, 0, CHUNK_DIM as i32 * -3)),
            ChunkIndex(Vector2::new(0, -3)),
        ),
    ];

    for (sample, predicate) in samples.iter() {
        assert_eq!(sample.chunk_index(), *predicate);
    }
}

#[test]
pub fn voxel_index_local_part() {
    let samples = [
        (VoxelIndex(Vector3::new(0, 0, 0)), Vector3::new(0, 0, 0)),
        (VoxelIndex(Vector3::new(5, 3, 7)), Vector3::new(5, 3, 7)),
        (
            VoxelIndex(Vector3::new(-3, 2, -4)),
            Vector3::new(CHUNK_DIM as i32 - 3, 2, CHUNK_DIM as i32 - 4),
        ),
        (VoxelIndex(Vector3::new(0, 0, 0)), Vector3::new(0, 0, 0)),
    ];

    for (sample, predicate) in samples.iter() {
        assert_eq!(sample.local_part(), *predicate);
    }
}

#[test]
fn negative_coordinates_land_in_the_right_chunk() {
    assert_eq!(VoxelIndex::new(-1, 0, -1).chunk_index(), ChunkIndex::new(-1, -1));
    assert_eq!(VoxelIndex::new(CHUNK_DIM as i32 * 4, 0, 0).chunk_index(), ChunkIndex::new(4, 0));
    assert_eq!(VoxelIndex::new(-3, 2, -4).local_part(), Vector3::new(CHUNK_DIM as i32 - 3, 2, CHUNK_DIM as i32 - 4));
    assert_eq!(VoxelIndex::new(-8, 0, -9).chunk_index(), ChunkIndex::new(-1, -2));
    assert_eq!(VoxelIndex::new(-8, 0, -9).local_part(), Vector3::new(0, 0, 7));
    assert_eq!(VoxelIndex::new(-9, 0, 0).chunk_index(), ChunkIndex::new(-2, 0));
}

#[test]
fn chunk_index_and_local_part_split_every_coordinate() {
    let dim = CHUNK_DIM as i32;
    for x in -100..100 {
        for z in [-17, -8, -1, 0, 7, 8, 33] {
            let v = VoxelIndex::new(x, 5, z);
            let c = v.chunk_index();
            let l = v.local_part();
            assert!(0 <= l.x && l.x < dim);
            assert!(0 <= l.z && l.z < dim);
            let o = c.chunk_origin();
            assert_eq!(Vector3::new(o.x + l.x, o.y + l.y, o.z + l.z), Vector3::new(x, 5, z));
            assert_eq!(c.0.x * dim + l.x, x);
        }
    }
}

#[test]
fn extreme_coordinates() {
    let v = VoxelIndex::new(i32::MIN, 0, i32::MAX);
    assert_eq!(v.chunk_index(), ChunkIndex::new(i32::MIN / 8, i32::MAX / 8));
    assert_eq!(v.local_part(), Vector3::new(0, 0, 7));
}

#[test]
fn chunk_origin_scales_by_chunk_dim() {
    assert_eq!(ChunkIndex::new(3, -2).chunk_origin(), Vector3::new(24, 0, -16));
    assert_eq!(ChunkIndex::new(0, 0).chunk_origin(), Vector3::new(0, 0, 0));
}

#[test]
fn chunk_index_from_pair() {
    let c: ChunkIndex = (3, -2).into();
    assert_eq!(c, ChunkIndex(Vector2::new(3, -2)));
    assert_eq!(ChunkIndex::from((0, 7)), ChunkIndex::new(0, 7));
}
