use vstd::prelude::*;

use crate::chunk::{offset_x, offset_y, offset_z, CHUNK_DIM, CHUNK_HEIGHT};
use crate::vector::Vector3;
use crate::voxel::Voxel;

verus! {

/// Cube geometry of a chunk: corner positions in chunk-local voxel units, and
/// triangles as triples of indices into `vertices`.
pub struct ChunkMesh {
    pub vertices: Vec<Vector3<u32>>,
    pub indices: Vec<u32>,
}

/// The local position `(x, y, z)` as a vertex.
pub open spec fn corner(x: int, y: int, z: int) -> Vector3<u32> {
    Vector3 { x: x as u32, y: y as u32, z: z as u32 }
}

/// The eight corners of the unit cube whose lowest corner is `(x, y, z)`:
/// first the four on the plane `z + 1`, then the four on the plane `z`.
pub open spec fn cube_vertices(x: int, y: int, z: int) -> Seq<Vector3<u32>> {
    seq![
        corner(x, y, z + 1),
        corner(x + 1, y, z + 1),
        corner(x + 1, y + 1, z + 1),
        corner(x, y + 1, z + 1),
        corner(x, y, z),
        corner(x + 1, y, z),
        corner(x + 1, y + 1, z),
        corner(x, y + 1, z),
    ]
}

/// The twelve triangles of a cube, two per face, over its corners as
/// `cube_vertices` numbers them.
pub open spec fn cube_triangles() -> Seq<int> {
    seq![
        0, 1, 2, 0, 2, 3,
        4, 5, 6, 4, 6, 7,
        0, 4, 3, 3, 4, 7,
        1, 2, 6, 1, 6, 5,
        0, 1, 5, 0, 5, 4,
        2, 3, 7, 2, 7, 6,
    ]
}

/// The cube's triangles when its corners are stored from index `base` on.
pub open spec fn cube_indices(base: int) -> Seq<u32> {
    cube_triangles().map_values(|j: int| (base + j) as u32)
}

/// The geometry of the first `n` voxels of `cells`, taken in storage order:
/// a full cube for each solid voxel, none for an empty one. Faces shared by
/// two solid voxels are kept.
pub open spec fn mesh_upto(cells: Seq<Voxel>, n: nat) -> (Seq<Vector3<u32>>, Seq<u32>)
    decreases n,
{
    if n == 0 {
        (Seq::empty(), Seq::empty())
    } else {
        let (v, ix) = mesh_upto(cells, (n - 1) as nat);
        let i = n - 1;
        if cells[i].solid() {
            (
                v + cube_vertices(offset_x(i), offset_y(i), offset_z(i)),
                ix + cube_indices(v.len() as int),
            )
        } else {
            (v, ix)
        }
    }
}

/// The geometry of a whole chunk with voxels `cells`.
pub open spec fn chunk_mesh(cells: Seq<Voxel>) -> (Seq<Vector3<u32>>, Seq<u32>) {
    mesh_upto(cells, cells.len())
}

/// Appends the corners and triangles of the unit cube at local `(x, y, z)`.
pub(crate) fn push_cube(vertices: &mut Vec<Vector3<u32>>, indices: &mut Vec<u32>, x: u32, y: u32, z: u32)
    requires
        x < CHUNK_DIM,
        y < CHUNK_HEIGHT,
        z < CHUNK_DIM,
        old(vertices)@.len() + 8 <= u32::MAX,
    ensures
        final(vertices)@ == old(vertices)@ + cube_vertices(x as int, y as int, z as int),
        final(indices)@ == old(indices)@ + cube_indices(old(vertices)@.len() as int),
{
    let base = vertices.len() as u32;
    vertices.push(Vector3::new(x, y, z + 1));
    vertices.push(Vector3::new(x + 1, y, z + 1));
    vertices.push(Vector3::new(x + 1, y + 1, z + 1));
    vertices.push(Vector3::new(x, y + 1, z + 1));
    vertices.push(Vector3::new(x, y, z));
    vertices.push(Vector3::new(x + 1, y, z));
    vertices.push(Vector3::new(x + 1, y + 1, z));
    vertices.push(Vector3::new(x, y + 1, z));
    assert(vertices@ =~= old(vertices)@ + cube_vertices(x as int, y as int, z as int));

    let triangles: [u32; 36] = [
        0, 1, 2, 0, 2, 3,
        4, 5, 6, 4, 6, 7,
        0, 4, 3, 3, 4, 7,
        1, 2, 6, 1, 6, 5,
        0, 1, 5, 0, 5, 4,
        2, 3, 7, 2, 7, 6,
    ];
    assert(triangles@.map_values(|t: u32| t as int) =~= cube_triangles());
    let mut j: usize = 0;
    while j < 36
        invariant
            0 <= j <= 36,
            base == old(vertices)@.len(),
            base + 8 <= u32::MAX,
            triangles@.map_values(|t: u32| t as int) == cube_triangles(),
            indices@ == old(indices)@ + cube_indices(base as int).take(j as int),
        decreases 36 - j,
    {
        assert(triangles@.map_values(|t: u32| t as int)[j as int] == cube_triangles()[j as int]);
        indices.push(base + triangles[j]);
        assert(cube_indices(base as int).take(j + 1) =~= cube_indices(base as int).take(j as int)
            .push(cube_indices(base as int)[j as int]));
        j += 1;
    }
    assert(cube_indices(base as int).take(36) =~= cube_indices(base as int));
}

/// The geometry of the first `n` voxels holds eight corners per solid voxel.
pub proof fn lemma_mesh_size(cells: Seq<Voxel>, n: nat)
    ensures
        mesh_upto(cells, n).0.len() <= 8 * n,
    decreases n,
{
    if n > 0 {
        lemma_mesh_size(cells, (n - 1) as nat);
    }
}

} // verus!
