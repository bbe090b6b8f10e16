use voxel_world::{Chunk, Vector3, Voxel, VoxelType, CHUNK_DIM, CHUNK_HEIGHT, CHUNK_N_VOXELS};

fn ground_voxel() -> Voxel {
    Voxel { voxel_type: VoxelType::GROUND }
}

#[test]
fn void_chunk_is_empty_and_clean() {
    let c = Chunk::void();
    assert!(!c.is_dirty());
    for (_, v) in c.iter() {
        assert_eq!(v.voxel_type, VoxelType::VOID);
        assert!(!v.is_solid());
    }
    assert!(!Voxel::void().is_solid());
    assert!(ground_voxel().is_solid());
}

#[test]
fn voxel_mut_marks_dirty_and_writes() {
    let mut c = Chunk::void();
    *c.voxel_mut(1, 2, 3) = ground_voxel();
    assert!(c.is_dirty());
    assert_eq!(*c.voxel(1, 2, 3), ground_voxel());
    assert_eq!(*c.voxel(3, 2, 1), Voxel::void());

    let mut d = Chunk::void();
    let _ = d.voxel_mut(0, 0, 0);
    assert!(d.is_dirty());
}

#[test]
fn iter_mut_marks_dirty_even_without_change() {
    let mut c = Chunk::void();
    c.iter_mut(|_, v| v);
    assert!(c.is_dirty());
}

#[test]
fn iter_visits_every_position_once() {
    let c = Chunk::void();
    let visited = c.iter();
    assert_eq!(visited.len(), CHUNK_N_VOXELS);
    let mut seen = vec![false; CHUNK_N_VOXELS];
    for ((x, y, z), _) in visited {
        assert!(x < CHUNK_DIM && y < CHUNK_HEIGHT && z < CHUNK_DIM);
        let k = ((y * CHUNK_DIM + z) * CHUNK_DIM + x) as usize;
        assert!(!seen[k]);
        seen[k] = true;
    }
    assert!(seen.iter().all(|s| *s));
}

#[test]
fn iter_mut_hands_each_voxel_its_position() {
    let mut c = Chunk::void();
    c.iter_mut(|(x, y, z), v| if x == 2 && y == 40 && z == 5 { ground_voxel() } else { v });
    assert_eq!(*c.voxel(2, 40, 5), ground_voxel());
    assert_eq!(c.iter().iter().filter(|(_, v)| v.is_solid()).count(), 1);
}

#[test]
fn flat_chunk_fills_below_ground() {
    let c = Chunk::gen_flat(3);
    assert!(c.is_dirty());
    assert_eq!(*c.voxel(0, 0, 0), ground_voxel());
    assert_eq!(*c.voxel(7, 2, 7), ground_voxel());
    assert_eq!(*c.voxel(4, 3, 1), Voxel::void());
    assert_eq!(*c.voxel(4, 63, 1), Voxel::void());
    assert_eq!(c.iter().iter().filter(|(_, v)| v.is_solid()).count(), 3 * 64);
}

fn sample_heights() -> Vec<u32> {
    (0..64u32).map(|k| (k * 7) % 70).collect()
}

#[test]
fn column_heights_shape_the_chunk() {
    let heights = sample_heights();
    let c = Chunk::from_column_heights(&heights);
    assert!(c.is_dirty());
    for x in 0..CHUNK_DIM {
        for z in 0..CHUNK_DIM {
            let h = heights[(z * CHUNK_DIM + x) as usize];
            for y in 0..CHUNK_HEIGHT {
                assert_eq!(c.voxel(x, y, z).is_solid(), y < h);
            }
        }
    }
}

#[test]
fn same_heights_give_identical_chunks() {
    let a = Chunk::from_column_heights(&sample_heights());
    let b = Chunk::from_column_heights(&sample_heights());
    assert_eq!(a.iter(), b.iter());
}

#[test]
fn empty_chunk_has_no_geometry() {
    let m = Chunk::void().gen_vertex_array();
    assert!(m.vertices.is_empty());
    assert!(m.indices.is_empty());
}

#[test]
fn one_voxel_gives_one_cube() {
    let mut c = Chunk::void();
    *c.voxel_mut(1, 2, 3) = ground_voxel();
    let m = c.gen_vertex_array();
    assert_eq!(
        m.vertices,
        vec![
            Vector3::new(1, 2, 4),
            Vector3::new(2, 2, 4),
            Vector3::new(2, 3, 4),
            Vector3::new(1, 3, 4),
            Vector3::new(1, 2, 3),
            Vector3::new(2, 2, 3),
            Vector3::new(2, 3, 3),
            Vector3::new(1, 3, 3),
        ]
    );
    assert_eq!(
        m.indices,
        vec![
            0, 1, 2, 0, 2, 3, 4, 5, 6, 4, 6, 7, 0, 4, 3, 3, 4, 7, 1, 2, 6, 1, 6, 5, 0, 1, 5, 0, 5, 4,
            2, 3, 7, 2, 7, 6,
        ]
    );
}

#[test]
fn adjacent_voxels_keep_all_faces() {
    let mut c = Chunk::void();
    *c.voxel_mut(0, 0, 0) = ground_voxel();
    *c.voxel_mut(0, 0, 1) = ground_voxel();
    let m = c.gen_vertex_array();
    assert_eq!(m.vertices.len(), 16);
    assert_eq!(m.indices.len(), 72);
    assert_eq!(m.vertices[0], Vector3::new(0, 0, 1));
    assert_eq!(m.vertices[8], Vector3::new(0, 0, 2));
    assert_eq!(&m.indices[36..42], &[8, 9, 10, 8, 10, 11]);
}

#[test]
fn full_chunk_geometry_size() {
    let m = Chunk::gen_flat(CHUNK_HEIGHT).gen_vertex_array();
    assert_eq!(m.vertices.len(), 8 * CHUNK_N_VOXELS);
    assert_eq!(m.indices.len(), 36 * CHUNK_N_VOXELS);
    assert_eq!(*m.indices.last().unwrap() as usize, 8 * CHUNK_N_VOXELS - 2);
}
