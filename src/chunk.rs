use vstd::prelude::*;

use vstd::arithmetic::div_mod::{lemma_div_denominator, lemma_fundamental_div_mod_converse};

use crate::mesh::{chunk_mesh, lemma_mesh_size, mesh_upto, push_cube, ChunkMesh};
use crate::vector::Vector3;
use crate::voxel::{Voxel, VoxelType};

verus! {

/// Width and depth of a chunk, in voxels.
pub const CHUNK_DIM: u32 = 8;

/// Height of a chunk, in voxels.
pub const CHUNK_HEIGHT: u32 = 64;

/// Number of voxels in a chunk.
pub const CHUNK_N_VOXELS: usize = (CHUNK_DIM * CHUNK_DIM * CHUNK_HEIGHT) as usize;

/// Where the voxel at local `(x, y, z)` is stored in a chunk.
pub open spec fn voxel_offset(x: int, y: int, z: int) -> int {
    z + y * CHUNK_DIM * CHUNK_DIM + x * CHUNK_DIM
}

/// The local coordinates stored at offset `i`: the inverse of `voxel_offset`.
pub open spec fn offset_x(i: int) -> int {
    (i / CHUNK_DIM as int) % CHUNK_DIM as int
}

pub open spec fn offset_y(i: int) -> int {
    i / (CHUNK_DIM * CHUNK_DIM) as int
}

pub open spec fn offset_z(i: int) -> int {
    i % CHUNK_DIM as int
}

/// Local coordinates lie inside the chunk.
pub open spec fn in_chunk(x: int, y: int, z: int) -> bool {
    0 <= x < CHUNK_DIM && 0 <= y < CHUNK_HEIGHT && 0 <= z < CHUNK_DIM
}

/// Every offset of a chunk names local coordinates inside it, and maps back.
pub proof fn lemma_offset_coords(i: int)
    requires
        0 <= i < CHUNK_N_VOXELS,
    ensures
        in_chunk(offset_x(i), offset_y(i), offset_z(i)),
        voxel_offset(offset_x(i), offset_y(i), offset_z(i)) == i,
{
    lemma_div_denominator(i, 8, 8);
    let q = i / 8;
    lemma_fundamental_div_mod_converse(i, 8, q, i % 8);
    lemma_fundamental_div_mod_converse(q, 8, q / 8, q % 8);
}

/// Local coordinates inside the chunk have an offset inside it, which maps back.
pub proof fn lemma_coords_offset(x: int, y: int, z: int)
    requires
        in_chunk(x, y, z),
    ensures
        0 <= voxel_offset(x, y, z) < CHUNK_N_VOXELS,
        offset_x(voxel_offset(x, y, z)) == x,
        offset_y(voxel_offset(x, y, z)) == y,
        offset_z(voxel_offset(x, y, z)) == z,
{
    let off = voxel_offset(x, y, z);
    lemma_fundamental_div_mod_converse(off, 8, 8 * y + x, z);
    lemma_fundamental_div_mod_converse(8 * y + x, 8, y, x);
    lemma_fundamental_div_mod_converse(off, 64, y, 8 * x + z);
}

/// The local position visited at offset `i`.
pub open spec fn offset_position(i: int) -> (u32, u32, u32) {
    (offset_x(i) as u32, offset_y(i) as u32, offset_z(i) as u32)
}

/// The local position stored at offset `i`, on machine integers.
fn position_of_offset(i: usize) -> (r: (u32, u32, u32))
    requires
        i < CHUNK_N_VOXELS,
    ensures
        r == offset_position(i as int),
        in_chunk(r.0 as int, r.1 as int, r.2 as int),
{
    proof {
        lemma_offset_coords(i as int);
    }
    (((i / 8) % 8) as u32, (i / 64) as u32, (i % 8) as u32)
}

/// Where the height of the column at local `(x, z)` is kept in a height map.
pub open spec fn column_offset(x: int, z: int) -> int {
    z * CHUNK_DIM + x
}

/// The voxel of a column whose ground reaches up to (not including) `height`,
/// at height `y`.
pub open spec fn column_voxel(y: int, height: int) -> Voxel {
    if y < height {
        Voxel { voxel_type: VoxelType::GROUND }
    } else {
        Voxel { voxel_type: VoxelType::VOID }
    }
}

/// The voxel at position `p` of a chunk whose ground reaches up to `ground`.
pub open spec fn layer_voxel(p: (u32, u32, u32), ground: u32) -> Voxel {
    column_voxel(p.1 as int, ground as int)
}

/// The voxel at position `p` of a chunk shaped by the height map `heights`.
pub open spec fn height_map_voxel(p: (u32, u32, u32), heights: Seq<u32>) -> Voxel {
    column_voxel(p.1 as int, heights[column_offset(p.0 as int, p.2 as int)] as int)
}

/// A dense block of `CHUNK_DIM × CHUNK_HEIGHT × CHUNK_DIM` voxels, and whether
/// any of them may have changed since its geometry was last built.
pub struct Chunk {
    voxels: Vec<Voxel>,
    dirty: bool,
}

impl Chunk {
    /// The voxels, by offset.
    pub closed spec fn cells(&self) -> Seq<Voxel> {
        self.voxels@
    }

    /// Set on every mutable access; cleared only when geometry is rebuilt.
    pub closed spec fn dirty(&self) -> bool {
        self.dirty
    }

    pub open spec fn wf(&self) -> bool {
        self.cells().len() == CHUNK_N_VOXELS
    }

    /// The voxel at local `(x, y, z)`.
    pub open spec fn cell(&self, x: int, y: int, z: int) -> Voxel {
        self.cells()[voxel_offset(x, y, z)]
    }

    /// A chunk with every voxel empty, not dirty.
    pub fn void() -> (r: Chunk)
        ensures
            r.wf(),
            !r.dirty(),
            forall|i: int| 0 <= i < CHUNK_N_VOXELS ==> #[trigger] r.cells()[i] == (Voxel { voxel_type: VoxelType::VOID }),
    {
        Chunk { voxels: vec![Voxel::void(); CHUNK_N_VOXELS], dirty: false }
    }

    pub fn is_dirty(&self) -> (r: bool)
        ensures
            r == self.dirty(),
    {
        self.dirty
    }

    /// The voxel at local `(x, y, z)`.
    pub fn voxel(&self, x: u32, y: u32, z: u32) -> (r: &Voxel)
        requires
            self.wf(),
            in_chunk(x as int, y as int, z as int),
        ensures
            *r == self.cell(x as int, y as int, z as int),
    {
        proof {
            lemma_coords_offset(x as int, y as int, z as int);
        }
        &self.voxels[(z + y * CHUNK_DIM * CHUNK_DIM + x * CHUNK_DIM) as usize]
    }

    /// Mutable access to the voxel at local `(x, y, z)`; marks the chunk dirty
    /// whether or not the voxel is then changed.
    pub fn voxel_mut(&mut self, x: u32, y: u32, z: u32) -> (r: &mut Voxel)
        requires
            old(self).wf(),
            in_chunk(x as int, y as int, z as int),
        ensures
            *r == old(self).cell(x as int, y as int, z as int),
            final(self).cells() == old(self).cells().update(
                voxel_offset(x as int, y as int, z as int),
                *final(r),
            ),
            final(self).dirty(),
            final(self).wf(),
    {
        proof {
            lemma_coords_offset(x as int, y as int, z as int);
        }
        self.dirty = true;
        &mut self.voxels[(z + y * CHUNK_DIM * CHUNK_DIM + x * CHUNK_DIM) as usize]
    }

    /// Replaces every voxel by `f(position, voxel)`, visiting each local
    /// position exactly once, and marks the chunk dirty whether or not
    /// anything changed.
    pub fn iter_mut<F: Fn((u32, u32, u32), Voxel) -> Voxel>(&mut self, f: F)
        requires
            old(self).wf(),
            forall|x: u32, y: u32, z: u32, v: Voxel|
                in_chunk(x as int, y as int, z as int) ==> #[trigger] f.requires(((x, y, z), v)),
        ensures
            final(self).wf(),
            final(self).dirty(),
            forall|x: u32, y: u32, z: u32|
                in_chunk(x as int, y as int, z as int) ==> f.ensures(
                    ((x, y, z), old(self).cell(x as int, y as int, z as int)),
                    #[trigger] final(self).cell(x as int, y as int, z as int),
                ),
    {
        let mut i: usize = 0;
        while i < CHUNK_N_VOXELS
            invariant
                0 <= i <= CHUNK_N_VOXELS,
                self.wf(),
                forall|x: u32, y: u32, z: u32, v: Voxel|
                    in_chunk(x as int, y as int, z as int) ==> #[trigger] f.requires(((x, y, z), v)),
                forall|j: int|
                    0 <= j < i ==> f.ensures(
                        (offset_position(j), old(self).cells()[j]),
                        #[trigger] self.cells()[j],
                    ),
                forall|j: int| i <= j < CHUNK_N_VOXELS ==> #[trigger] self.cells()[j] == old(self).cells()[j],
            decreases CHUNK_N_VOXELS - i,
        {
            let position = position_of_offset(i);
            let v = f(position, self.voxels[i]);
            self.voxels.set(i, v);
            i += 1;
        }
        self.dirty = true;
        assert forall|x: u32, y: u32, z: u32| in_chunk(x as int, y as int, z as int) implies f.ensures(
            ((x, y, z), old(self).cell(x as int, y as int, z as int)),
            #[trigger] self.cell(x as int, y as int, z as int),
        ) by {
            lemma_coords_offset(x as int, y as int, z as int);
        }
    }

    /// Every local position with its voxel, in the order `iter_mut` visits them.
    pub fn iter(&self) -> (r: Vec<((u32, u32, u32), Voxel)>)
        requires
            self.wf(),
        ensures
            r@.len() == CHUNK_N_VOXELS,
            forall|j: int|
                0 <= j < CHUNK_N_VOXELS ==> #[trigger] r@[j] == (offset_position(j), self.cells()[j]),
    {
        let mut r: Vec<((u32, u32, u32), Voxel)> = Vec::new();
        let mut i: usize = 0;
        while i < CHUNK_N_VOXELS
            invariant
                0 <= i <= CHUNK_N_VOXELS,
                self.wf(),
                r@.len() == i,
                forall|j: int| 0 <= j < i ==> #[trigger] r@[j] == (offset_position(j), self.cells()[j]),
            decreases CHUNK_N_VOXELS - i,
        {
            r.push((position_of_offset(i), self.voxels[i]));
            i += 1;
        }
        r
    }

    /// A chunk whose ground fills every column up to (not including) height
    /// `ground`.
    pub fn gen_flat(ground: u32) -> (r: Chunk)
        ensures
            r.wf(),
            r.dirty(),
            forall|x: int, y: int, z: int|
                in_chunk(x, y, z) ==> #[trigger] r.cell(x, y, z) == column_voxel(y, ground as int),
    {
        let mut chunk = Chunk::void();
        chunk.iter_mut(
            |p: (u32, u32, u32), v: Voxel| -> (r: Voxel)
                ensures
                    r == layer_voxel(p, ground)
                {
                    if p.1 < ground {
                        Voxel { voxel_type: VoxelType::GROUND }
                    } else {
                        Voxel::void()
                    }
                },
        );
        assert forall|x: int, y: int, z: int| in_chunk(x, y, z) implies #[trigger] chunk.cell(x, y, z)
            == column_voxel(y, ground as int) by {
            let (a, b, c) = (x as u32, y as u32, z as u32);
            assert(chunk.cell(a as int, b as int, c as int) == chunk.cell(x, y, z));
        }
        chunk
    }

    /// A chunk whose column at local `(x, z)` holds ground up to (not
    /// including) height `heights[column_offset(x, z)]`.
    pub fn from_column_heights(heights: &Vec<u32>) -> (r: Chunk)
        requires
            heights@.len() == CHUNK_DIM * CHUNK_DIM,
        ensures
            r.wf(),
            r.dirty(),
            forall|x: int, y: int, z: int|
                in_chunk(x, y, z) ==> #[trigger] r.cell(x, y, z) == column_voxel(
                    y,
                    heights@[column_offset(x, z)] as int,
                ),
    {
        let mut chunk = Chunk::void();
        chunk.iter_mut(
            |p: (u32, u32, u32), v: Voxel| -> (r: Voxel)
                requires
                    p.0 < CHUNK_DIM,
                    p.2 < CHUNK_DIM,
                    heights@.len() == CHUNK_DIM * CHUNK_DIM,
                ensures
                    r == height_map_voxel(p, heights@)
                {
                    if p.1 < heights[(p.2 * CHUNK_DIM + p.0) as usize] {
                        Voxel { voxel_type: VoxelType::GROUND }
                    } else {
                        Voxel::void()
                    }
                },
        );
        assert forall|x: int, y: int, z: int| in_chunk(x, y, z) implies #[trigger] chunk.cell(x, y, z)
            == column_voxel(y, heights@[column_offset(x, z)] as int) by {
            let (a, b, c) = (x as u32, y as u32, z as u32);
            assert(chunk.cell(a as int, b as int, c as int) == chunk.cell(x, y, z));
        }
        chunk
    }

    /// The chunk's geometry: a unit cube for every solid voxel, in storage
    /// order, whatever its neighbours hold.
    pub fn gen_vertex_array(&self) -> (r: ChunkMesh)
        requires
            self.wf(),
        ensures
            (r.vertices@, r.indices@) == chunk_mesh(self.cells()),
    {
        let mut vertices: Vec<Vector3<u32>> = Vec::new();
        let mut indices: Vec<u32> = Vec::new();
        let mut i: usize = 0;
        while i < CHUNK_N_VOXELS
            invariant
                0 <= i <= CHUNK_N_VOXELS,
                self.wf(),
                (vertices@, indices@) == mesh_upto(self.cells(), i as nat),
            decreases CHUNK_N_VOXELS - i,
        {
            proof {
                lemma_mesh_size(self.cells(), i as nat);
            }
            if self.voxels[i].is_solid() {
                let (x, y, z) = position_of_offset(i);
                push_cube(&mut vertices, &mut indices, x, y, z);
            }
            i += 1;
        }
        ChunkMesh { vertices, indices }
    }

    /// Clears the dirty flag once the chunk's geometry has been rebuilt.
    pub(crate) fn mark_built(&mut self)
        ensures
            final(self).cells() == old(self).cells(),
            !final(self).dirty(),
    {
        self.dirty = false;
    }
}

/// Generation is a function of the height map alone: two chunks that both
/// hold, at every local position, the voxel that the same height map
/// prescribes (as `Chunk::from_column_heights` ensures) have identical voxels.
pub proof fn lemma_same_heights_same_voxels(heights: Seq<u32>, a: Chunk, b: Chunk)
    requires
        heights.len() == CHUNK_DIM * CHUNK_DIM,
        a.wf(),
        b.wf(),
        forall|x: int, y: int, z: int|
            in_chunk(x, y, z) ==> #[trigger] a.cell(x, y, z) == column_voxel(y, heights[column_offset(x, z)] as int),
        forall|x: int, y: int, z: int|
            in_chunk(x, y, z) ==> #[trigger] b.cell(x, y, z) == column_voxel(y, heights[column_offset(x, z)] as int),
    ensures
        a.cells() == b.cells(),
{
    assert forall|i: int| 0 <= i < CHUNK_N_VOXELS implies a.cells()[i] == b.cells()[i] by {
        lemma_offset_coords(i);
        assert(a.cell(offset_x(i), offset_y(i), offset_z(i)) == b.cell(offset_x(i), offset_y(i), offset_z(i)));
    }
    assert(a.cells() =~= b.cells());
}

} // verus!
